use vstd::prelude::*;

use crate::access::{
    authorized_to_finalize,
    is_authorized_to_finalize_presale,
    presale_address_check,
    validate_presale_pda,
};
use crate::address::Address;
use crate::error::PresaleError;
use crate::fees::{
    bp_part,
    bp_share,
    decimals_factor,
    fair_launch_pool_tokens,
    fair_launch_tokens_for_pool,
    pow10,
    price_scale,
    purchase_tokens,
    tokens_for_amount,
};
use crate::lifecycle::{sale_over, wrapped_sol_mint, wrapped_sol_mint_bytes};
use crate::state::{
    LaunchpadType,
    LiquidityLock,
    LiquidityType,
    ListingPlatform,
    PresaleState,
    PresaleType,
    Vault,
};
use crate::transfer_fee::{get_transfer_inverse_fee, transfer_inverse_fee, MintFeeInfo};

verus! {

/// The share, in basis points, of the pool's trading fees that goes to the
/// fee collector; the owner gets the rest.
pub const METEORA_FEE_DISTRIBUTION: u16 = 5000;

/// The guard of every step that turns a closed sale into a pool: the signer
/// may end the sale, the sale is over, and it was finalized successfully —
/// ended, neither canceled nor refundable.
pub open spec fn closing_guard(p: PresaleState, signer: Seq<u8>, now: i64) -> Result<(), PresaleError> {
    if !authorized_to_finalize(p, signer, now) {
        Err(PresaleError::Unauthorized)
    } else if !sale_over(p, now) {
        Err(PresaleError::PresaleNotEnded)
    } else if !p.presale_ended {
        Err(PresaleError::PresaleNotFinalized)
    } else if p.presale_canceled {
        Err(PresaleError::PresaleCanceled)
    } else if p.presale_refund {
        Err(PresaleError::PresaleRefund)
    } else {
        Ok(())
    }
}

fn check_closing(presale: &PresaleState, signer: &Address, now: i64) -> (r: Result<(), PresaleError>)
    ensures
        r == closing_guard(*presale, signer@, now),
{
    if !is_authorized_to_finalize_presale(presale, signer, now) {
        return Err(PresaleError::Unauthorized);
    }
    if !(now > presale.end_time || presale.total_raised >= presale.hard_cap) {
        return Err(PresaleError::PresaleNotEnded);
    }
    if !presale.presale_ended {
        return Err(PresaleError::PresaleNotFinalized);
    }
    if presale.presale_canceled {
        return Err(PresaleError::PresaleCanceled);
    }
    if presale.presale_refund {
        return Err(PresaleError::PresaleRefund);
    }
    Ok(())
}

/// The guard of wrapping the vault's native currency for the pool: see `closing_guard`.
pub fn finalize_wrap_sol(presale: &PresaleState, signer: &Address, now: i64) -> (r: Result<
    (),
    PresaleError,
>)
    ensures
        r == closing_guard(*presale, signer@, now),
{
    check_closing(presale, signer, now)
}

/// The guard of a step of the sale's own listing platform: the platform must
/// be `platform`, then `closing_guard` holds.
pub open spec fn platform_guard(
    p: PresaleState,
    platform: ListingPlatform,
    signer: Seq<u8>,
    now: i64,
) -> Result<(), PresaleError> {
    if p.listing_platform != platform {
        Err(PresaleError::InvalidListingPlatform)
    } else {
        closing_guard(p, signer, now)
    }
}

/// The guard of preparing a Meteora pool's vault: see `platform_guard`.
pub fn finalize_presale_init_vault_meteora(presale: &PresaleState, signer: &Address, now: i64) -> (r:
    Result<(), PresaleError>)
    ensures
        r == platform_guard(*presale, ListingPlatform::Meteora, signer@, now),
{
    if presale.listing_platform != ListingPlatform::Meteora {
        return Err(PresaleError::InvalidListingPlatform);
    }
    check_closing(presale, signer, now)
}

/// Who moves the liquidity reserve out of the vault, and what they name.
#[derive(Clone, Copy, Debug)]
pub struct TransferContext {
    pub signer: Address,
    pub presale_key: Address,
    pub token_mint: Address,
    pub token_decimals: u8,
    pub program_id: Address,
    pub now: i64,
}

/// The two sides of the pool: the liquidity basis points of the net raised,
/// and the tokens paired with them — at the listing rate for a hard-capped
/// sale, as the pool share of the allocation for a fair launch.
pub open spec fn pool_reserves(p: PresaleState, decimals: u8) -> Option<(u64, u64)> {
    let fee = bp_part(p.total_raised as int, p.service_fee as int);
    let net = p.total_raised - fee;
    let sol = bp_part(net, p.liquidity_bp as int);
    if fee > u64::MAX || net < 0 || sol > u64::MAX {
        None
    } else if p.presale_type == PresaleType::HardCapped {
        if pow10(decimals as nat) > u64::MAX {
            None
        } else {
            match purchase_tokens(
                sol,
                pow10(decimals as nat) as int,
                price_scale(p.launchpad_type == LaunchpadType::Degen),
                p.listing_rate as int,
            ) {
                Some(t) => Some((sol as u64, t as u64)),
                None => None,
            }
        }
    } else {
        match fair_launch_pool_tokens(
            p.total_tokens_sold as int,
            p.service_fee as int,
            p.liquidity_bp as int,
        ) {
            Some(t) => Some((sol as u64, t as u64)),
            None => None,
        }
    }
}

/// Moving the liquidity reserve out of the vault: the sale's derived
/// address, `closing_guard`, then `pool_reserves` is recorded on the sale and
/// its native side leaves the vault.
pub open spec fn reserve_transfer(p: PresaleState, vault: Vault, ctx: TransferContext) -> Result<
    (PresaleState, Vault, u64),
    PresaleError,
> {
    let address = presale_address_check(p, ctx.presale_key@, ctx.token_mint@, ctx.program_id@);
    if address is Err {
        Err(address->Err_0)
    } else if closing_guard(p, ctx.signer@, ctx.now) is Err {
        Err(closing_guard(p, ctx.signer@, ctx.now)->Err_0)
    } else {
        match pool_reserves(p, ctx.token_decimals) {
            None => Err(PresaleError::ArithmeticOverflow),
            Some((sol, tokens)) => if vault.lamports <= sol {
                Err(PresaleError::InsufficientFunds)
            } else {
                Ok(
                    (
                        PresaleState { sol_pool_reserve: sol, token_pool_reserve: tokens, ..p },
                        Vault { lamports: (vault.lamports - sol) as u64 },
                        sol,
                    ),
                )
            },
        }
    }
}

/// Records the pool reserves and moves the native side out of the vault, as
/// `reserve_transfer` says; returns the amount moved. On error nothing changes.
pub fn finalize_transfer(presale: &mut PresaleState, vault: &mut Vault, ctx: &TransferContext) -> (r:
    Result<u64, PresaleError>)
    ensures
        match reserve_transfer(*old(presale), *old(vault), *ctx) {
            Ok((p, v, moved)) => r == Ok::<u64, PresaleError>(moved) && *final(presale) == p
                && *final(vault) == v,
            Err(e) => r == Err::<u64, PresaleError>(e) && *final(presale) == *old(presale)
                && *final(vault) == *old(vault),
        },
{
    match validate_presale_pda(presale, &ctx.presale_key, &ctx.token_mint, &ctx.program_id) {
        Ok(_) => {},
        Err(e) => {
            return Err(e);
        },
    }
    match check_closing(presale, &ctx.signer, ctx.now) {
        Ok(()) => {},
        Err(e) => {
            return Err(e);
        },
    }
    let fee = match bp_share(presale.total_raised, presale.service_fee) {
        Some(f) => f,
        None => {
            return Err(PresaleError::ArithmeticOverflow);
        },
    };
    let net = match presale.total_raised.checked_sub(fee) {
        Some(n) => n,
        None => {
            return Err(PresaleError::ArithmeticOverflow);
        },
    };
    let sol = match bp_share(net, presale.liquidity_bp) {
        Some(s) => s,
        None => {
            return Err(PresaleError::ArithmeticOverflow);
        },
    };
    let tokens = if presale.presale_type == PresaleType::HardCapped {
        let factor = match decimals_factor(ctx.token_decimals) {
            Some(f) => f,
            None => {
                return Err(PresaleError::ArithmeticOverflow);
            },
        };
        match tokens_for_amount(
            sol,
            factor,
            presale.launchpad_type == LaunchpadType::Degen,
            presale.listing_rate,
        ) {
            Some(t) => t,
            None => {
                return Err(PresaleError::ArithmeticOverflow);
            },
        }
    } else {
        match fair_launch_tokens_for_pool(
            presale.total_tokens_sold,
            presale.service_fee,
            presale.liquidity_bp,
        ) {
            Some(t) => t,
            None => {
                return Err(PresaleError::ArithmeticOverflow);
            },
        }
    };
    if vault.lamports <= sol {
        return Err(PresaleError::InsufficientFunds);
    }
    vault.lamports = vault.lamports - sol;
    presale.sol_pool_reserve = sol;
    presale.token_pool_reserve = tokens;
    Ok(sol)
}

/// What seeding a Raydium pool moves.
#[derive(Clone, Copy, Debug, PartialEq, Eq, Structural)]
pub struct RaydiumSeed {
    /// Wrapped native currency moved to the pool creator.
    pub sol_amount: u64,
    /// Tokens moved to the pool creator, with the transfer fee on top.
    pub token_amount: u64,
    /// The deposit of the pool's first mint.
    pub token_0_amount: u64,
    /// The deposit of the pool's second mint.
    pub token_1_amount: u64,
}

/// Seeding a Raydium pool: `platform_guard`, then the recorded reserves are
/// deposited, the token side grossed up by the mint's transfer fee so that
/// the pool receives it whole, each amount against the mint it pairs with.
pub open spec fn raydium_seed(
    p: PresaleState,
    signer: Seq<u8>,
    now: i64,
    mint: MintFeeInfo,
    token_0_mint: Seq<u8>,
) -> Result<RaydiumSeed, PresaleError> {
    if platform_guard(p, ListingPlatform::Raydium, signer, now) is Err {
        Err(platform_guard(p, ListingPlatform::Raydium, signer, now)->Err_0)
    } else {
        match transfer_inverse_fee(mint, p.token_pool_reserve) {
            Err(e) => Err(e),
            Ok(fee) => if p.token_pool_reserve + fee > u64::MAX {
                Err(PresaleError::ArithmeticOverflow)
            } else {
                let sol_first = token_0_mint == wrapped_sol_mint_bytes();
                Ok(
                    RaydiumSeed {
                        sol_amount: p.sol_pool_reserve,
                        token_amount: (p.token_pool_reserve + fee) as u64,
                        token_0_amount: if sol_first {
                            p.sol_pool_reserve
                        } else {
                            p.token_pool_reserve
                        },
                        token_1_amount: if sol_first {
                            p.token_pool_reserve
                        } else {
                            p.sol_pool_reserve
                        },
                    },
                )
            },
        }
    }
}

/// Returns what seeding a Raydium pool moves, as `raydium_seed` says.
pub fn finalize_presale_raydium_pool(
    presale: &PresaleState,
    signer: &Address,
    now: i64,
    mint: &MintFeeInfo,
    token_0_mint: &Address,
) -> (r: Result<RaydiumSeed, PresaleError>)
    ensures
        r == raydium_seed(*presale, signer@, now, *mint, token_0_mint@),
{
    if presale.listing_platform != ListingPlatform::Raydium {
        return Err(PresaleError::InvalidListingPlatform);
    }
    match check_closing(presale, signer, now) {
        Ok(()) => {},
        Err(e) => {
            return Err(e);
        },
    }
    let fee = match get_transfer_inverse_fee(mint, presale.token_pool_reserve) {
        Ok(f) => f,
        Err(e) => {
            return Err(e);
        },
    };
    let token_amount = match presale.token_pool_reserve.checked_add(fee) {
        Some(t) => t,
        None => {
            return Err(PresaleError::ArithmeticOverflow);
        },
    };
    let sol_first = token_0_mint.same_as(&wrapped_sol_mint());
    Ok(
        RaydiumSeed {
            sol_amount: presale.sol_pool_reserve,
            token_amount,
            token_0_amount: if sol_first {
                presale.sol_pool_reserve
            } else {
                presale.token_pool_reserve
            },
            token_1_amount: if sol_first {
                presale.token_pool_reserve
            } else {
                presale.sol_pool_reserve
            },
        },
    )
}

/// Seeding a Meteora pool: `platform_guard`, then the recorded reserves, the
/// token side first.
pub open spec fn meteora_seed(p: PresaleState, signer: Seq<u8>, now: i64) -> Result<
    (u64, u64),
    PresaleError,
> {
    if platform_guard(p, ListingPlatform::Meteora, signer, now) is Err {
        Err(platform_guard(p, ListingPlatform::Meteora, signer, now)->Err_0)
    } else {
        Ok((p.token_pool_reserve, p.sol_pool_reserve))
    }
}

/// Returns the token and native deposits of a Meteora pool, as `meteora_seed` says.
pub fn finalize_presale_meteora_pool(presale: &PresaleState, signer: &Address, now: i64) -> (r:
    Result<(u64, u64), PresaleError>)
    ensures
        r == meteora_seed(*presale, signer@, now),
{
    if presale.listing_platform != ListingPlatform::Meteora {
        return Err(PresaleError::InvalidListingPlatform);
    }
    match check_closing(presale, signer, now) {
        Ok(()) => {},
        Err(e) => {
            return Err(e);
        },
    }
    Ok((presale.token_pool_reserve, presale.sol_pool_reserve))
}

/// What becomes of the pool share the creator received.
#[derive(Clone, Copy, Debug, PartialEq, Eq, Structural)]
pub enum LpDisposition {
    /// Moved into the lock, until the lock's unlock time.
    Lock(u64),
    /// Destroyed.
    Burn(u64),
}

/// Locking or burning the pool share `lp_amount`: `closing_guard`, then a
/// sale that locks its liquidity records a lock for its owner that opens
/// `liquidity_lock_time` after `now`; one that burns destroys the share.
pub open spec fn lp_lock_burn(
    p: PresaleState,
    lock: LiquidityLock,
    signer: Seq<u8>,
    now: i64,
    lp_amount: u64,
) -> Result<(LiquidityLock, LpDisposition), PresaleError> {
    if closing_guard(p, signer, now) is Err {
        Err(closing_guard(p, signer, now)->Err_0)
    } else if p.liquidity_type == LiquidityType::Lock {
        if now + p.liquidity_lock_time > i64::MAX || now + p.liquidity_lock_time < i64::MIN {
            Err(PresaleError::ArithmeticOverflow)
        } else {
            Ok(
                (
                    LiquidityLock {
                        owner: p.owner,
                        locked_amount: lp_amount,
                        unlock_time: (now + p.liquidity_lock_time) as i64,
                    },
                    LpDisposition::Lock(lp_amount),
                ),
            )
        }
    } else {
        Ok((lock, LpDisposition::Burn(lp_amount)))
    }
}

/// Locks or burns the creator's pool share as `lp_lock_burn` says. On error
/// nothing changes.
pub fn finalize_lp_lock_burn(
    presale: &PresaleState,
    lock: &mut LiquidityLock,
    signer: &Address,
    now: i64,
    lp_amount: u64,
) -> (r: Result<LpDisposition, PresaleError>)
    ensures
        match lp_lock_burn(*presale, *old(lock), signer@, now, lp_amount) {
            Ok((l, d)) => r == Ok::<LpDisposition, PresaleError>(d) && *final(lock) == l,
            Err(e) => r == Err::<LpDisposition, PresaleError>(e) && *final(lock) == *old(lock),
        },
{
    match check_closing(presale, signer, now) {
        Ok(()) => {},
        Err(e) => {
            return Err(e);
        },
    }
    match presale.liquidity_type {
        LiquidityType::Lock => {
            let unlock_time = match now.checked_add(presale.liquidity_lock_time) {
                Some(t) => t,
                None => {
                    return Err(PresaleError::ArithmeticOverflow);
                },
            };
            lock.owner = presale.owner;
            lock.locked_amount = lp_amount;
            lock.unlock_time = unlock_time;
            Ok(LpDisposition::Lock(lp_amount))
        },
        LiquidityType::Burn => Ok(LpDisposition::Burn(lp_amount)),
    }
}

/// Who takes the locked pool share back, and what they name.
#[derive(Clone, Copy, Debug)]
pub struct UnlockContext {
    pub signer: Address,
    pub presale_key: Address,
    pub token_mint: Address,
    pub program_id: Address,
    pub now: i64,
}

/// Taking the locked share back: the sale's derived address, the lock's
/// owner, then strictly after the unlock time the whole locked amount
/// leaves the lock, which is then empty.
pub open spec fn unlock(p: PresaleState, lock: LiquidityLock, ctx: UnlockContext) -> Result<
    (LiquidityLock, u64),
    PresaleError,
> {
    let address = presale_address_check(p, ctx.presale_key@, ctx.token_mint@, ctx.program_id@);
    if address is Err {
        Err(address->Err_0)
    } else if lock.owner@ != ctx.signer@ {
        Err(PresaleError::Unauthorized)
    } else if ctx.now <= lock.unlock_time {
        Err(PresaleError::LiquidityLocked)
    } else {
        Ok((LiquidityLock { locked_amount: 0, ..lock }, lock.locked_amount))
    }
}

/// Releases the locked pool share as `unlock` says and returns the amount.
/// On error nothing changes.
pub fn withdraw_locked_lp_tokens(
    presale: &PresaleState,
    lock: &mut LiquidityLock,
    ctx: &UnlockContext,
) -> (r: Result<u64, PresaleError>)
    ensures
        match unlock(*presale, *old(lock), *ctx) {
            Ok((l, amount)) => r == Ok::<u64, PresaleError>(amount) && *final(lock) == l,
            Err(e) => r == Err::<u64, PresaleError>(e) && *final(lock) == *old(lock),
        },
{
    match validate_presale_pda(presale, &ctx.presale_key, &ctx.token_mint, &ctx.program_id) {
        Ok(_) => {},
        Err(e) => {
            return Err(e);
        },
    }
    if !lock.owner.same_as(&ctx.signer) {
        return Err(PresaleError::Unauthorized);
    }
    if !(ctx.now > lock.unlock_time) {
        return Err(PresaleError::LiquidityLocked);
    }
    let amount = lock.locked_amount;
    lock.locked_amount = 0;
    Ok(amount)
}

/// Sharing the pool's collected fees `fee_in_wsol`: the named fee collector
/// and owner must be the sale's; the fee collector gets its share of the
/// fees, which must exceed `minimum_amount`, and the owner the rest.
pub open spec fn fee_distribution(
    p: PresaleState,
    fee_collector: Seq<u8>,
    owner: Seq<u8>,
    fee_in_wsol: u64,
    minimum_amount: u64,
) -> Result<(u64, u64), PresaleError> {
    let collector_amount = fee_in_wsol * METEORA_FEE_DISTRIBUTION / 10000;
    if fee_collector != p.fee_collector@ {
        Err(PresaleError::InvalidFeeCollector)
    } else if owner != p.owner@ {
        Err(PresaleError::InvalidFeeCollector)
    } else if fee_in_wsol * METEORA_FEE_DISTRIBUTION > u64::MAX {
        Err(PresaleError::ArithmeticOverflow)
    } else if collector_amount <= minimum_amount {
        Err(PresaleError::PlatformProfitTooLow)
    } else {
        Ok((collector_amount as u64, (fee_in_wsol - collector_amount) as u64))
    }
}

/// Splits the pool's collected fees as `fee_distribution` says: the fee
/// collector's part, then the owner's.
pub fn distribute_fee_meteora(
    presale: &PresaleState,
    fee_collector: &Address,
    owner: &Address,
    fee_in_wsol: u64,
    minimum_amount: u64,
) -> (r: Result<(u64, u64), PresaleError>)
    ensures
        r == fee_distribution(*presale, fee_collector@, owner@, fee_in_wsol, minimum_amount),
        r matches Ok((a, b)) ==> a + b == fee_in_wsol,
{
    if !fee_collector.same_as(&presale.fee_collector) {
        return Err(PresaleError::InvalidFeeCollector);
    }
    if !owner.same_as(&presale.owner) {
        return Err(PresaleError::InvalidFeeCollector);
    }
    let collector_amount = match fee_in_wsol.checked_mul(METEORA_FEE_DISTRIBUTION as u64) {
        Some(f) => f / 10000,
        None => {
            return Err(PresaleError::ArithmeticOverflow);
        },
    };
    if collector_amount <= minimum_amount {
        return Err(PresaleError::PlatformProfitTooLow);
    }
    Ok((collector_amount, fee_in_wsol - collector_amount))
}

} // verus!

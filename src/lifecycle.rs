use vstd::prelude::*;

use crate::access::{
    authorized_to_finalize,
    is_authorized_to_finalize_presale,
    presale_address_check,
    validate_presale_pda,
};
use crate::address::{bytes_le, Address};
use crate::error::PresaleError;
use crate::fees::{compute_fund_split, fund_split, FundSplit};
use crate::pda::{find_program_address, program_address, seeds_view};
use crate::state::{ContributionState, PresaleState, PresaleType, RefundType, Vault};

verus! {

/// The wrapped native-currency mint, the other side of every liquidity pool.
pub open spec fn wrapped_sol_mint_bytes() -> Seq<u8> {
    seq![
        6u8, 155u8, 136u8, 87u8, 254u8, 171u8, 129u8, 132u8, 251u8, 104u8, 127u8, 99u8, 70u8, 24u8,
        192u8, 53u8, 218u8, 196u8, 57u8, 220u8, 26u8, 235u8, 59u8, 85u8, 152u8, 160u8, 240u8, 0u8,
        0u8, 0u8, 0u8, 1u8,
    ]
}

/// The wrapped native-currency mint.
pub fn wrapped_sol_mint() -> (r: Address)
    ensures
        r@ == wrapped_sol_mint_bytes(),
{
    let r = Address {
        bytes: [
            6u8, 155, 136, 87, 254, 171, 129, 132, 251, 104, 127, 99, 70, 24, 192, 53, 218, 196, 57,
            220, 26, 235, 59, 85, 152, 160, 240, 0, 0, 0, 0, 1,
        ],
    };
    assert(r@ =~= wrapped_sol_mint_bytes());
    r
}

/// Whether a sale may be closed at `now`: its window is over or its hard cap is reached.
pub open spec fn sale_over(p: PresaleState, now: i64) -> bool {
    now > p.end_time || p.total_raised >= p.hard_cap
}

/// The split owed when the sale's owner reward is computed from its record.
pub open spec fn split_of(p: PresaleState) -> Option<FundSplit> {
    fund_split(
        p.total_raised as int,
        p.service_fee as int,
        p.affiliate_enabled,
        p.commission_rate as int,
        p.liquidity_bp as int,
        p.tokens_claimed_by_owner as int,
    )
}

fn split_for(p: &PresaleState) -> (r: Result<FundSplit, PresaleError>)
    ensures
        split_of(*p) matches Some(s) ==> r == Ok::<FundSplit, PresaleError>(s),
        split_of(*p) is None ==> r == Err::<FundSplit, PresaleError>(PresaleError::ArithmeticOverflow),
{
    compute_fund_split(
        p.total_raised,
        p.service_fee,
        p.affiliate_enabled,
        p.commission_rate,
        p.liquidity_bp,
        p.tokens_claimed_by_owner,
    )
}

/// The pool program that the sale's liquidity goes to, and the identities
/// against which its pool record is re-derived.
#[derive(Clone, Debug)]
pub struct PoolCheck {
    /// The pool program the caller names.
    pub pool_program: Address,
    /// The identity of the Raydium constant-product program.
    pub raydium_cp_swap: Address,
    /// The seed that prefixes a Raydium pool record.
    pub raydium_pool_seed: Vec<u8>,
    /// The pool's configuration record.
    pub amm_config: Address,
    /// The pool record the caller names, with its balance.
    pub pool_state: Address,
    pub pool_state_lamports: u64,
}

/// The seeds of the pool record of `token` against wrapped native currency:
/// a Raydium pool orders its two mints ascending after its seed and the
/// configuration; any other orders them descending before the configuration.
pub open spec fn pool_seeds(
    raydium: bool,
    pool_seed: Seq<u8>,
    amm_config: Seq<u8>,
    token: Seq<u8>,
) -> Seq<Seq<u8>> {
    let wsol = wrapped_sol_mint_bytes();
    if raydium {
        if bytes_le(wsol, token) {
            seq![pool_seed, amm_config, wsol, token]
        } else {
            seq![pool_seed, amm_config, token, wsol]
        }
    } else {
        if bytes_le(token, wsol) {
            seq![wsol, token, amm_config]
        } else {
            seq![token, wsol, amm_config]
        }
    }
}

/// The check that the named pool record is the one derived for the sale's
/// mint and that it exists.
pub open spec fn pool_check(pool: PoolCheck, token: Seq<u8>) -> Result<(), PresaleError> {
    let seeds = pool_seeds(
        pool.pool_program@ == pool.raydium_cp_swap@,
        pool.raydium_pool_seed@,
        pool.amm_config@,
        token,
    );
    match program_address(seeds, pool.pool_program@) {
        None => Err(PresaleError::UnableToCreateProgramAddress),
        Some((key, _)) => if key != pool.pool_state@ {
            Err(PresaleError::InvalidRaydiumPoolState)
        } else if pool.pool_state_lamports == 0 {
            Err(PresaleError::InvalidRaydiumAmmConfig)
        } else {
            Ok(())
        },
    }
}

fn check_pool(pool: &PoolCheck, token: &Address) -> (r: Result<(), PresaleError>)
    ensures
        r == pool_check(*pool, token@),
{
    let wsol = wrapped_sol_mint();
    let raydium = pool.pool_program.same_as(&pool.raydium_cp_swap);
    let seeds: Vec<Vec<u8>> = if raydium {
        if wsol.le(token) {
            vec![pool.raydium_pool_seed.clone(), pool.amm_config.to_vec(), wsol.to_vec(), token.to_vec()]
        } else {
            vec![pool.raydium_pool_seed.clone(), pool.amm_config.to_vec(), token.to_vec(), wsol.to_vec()]
        }
    } else {
        if token.le(&wsol) {
            vec![wsol.to_vec(), token.to_vec(), pool.amm_config.to_vec()]
        } else {
            vec![token.to_vec(), wsol.to_vec(), pool.amm_config.to_vec()]
        }
    };
    assert(seeds_view(seeds@) =~= pool_seeds(
        raydium,
        pool.raydium_pool_seed@,
        pool.amm_config@,
        token@,
    ));
    match find_program_address(&seeds, &pool.pool_program) {
        None => Err(PresaleError::UnableToCreateProgramAddress),
        Some((key, _)) => {
            if !key.same_as(&pool.pool_state) {
                Err(PresaleError::InvalidRaydiumPoolState)
            } else if pool.pool_state_lamports == 0 {
                Err(PresaleError::InvalidRaydiumAmmConfig)
            } else {
                Ok(())
            }
        },
    }
}

/// Who finalizes, when, and the accounts they name.
#[derive(Clone, Debug)]
pub struct FinalizeContext {
    pub signer: Address,
    /// The account named as the sale's owner, to be paid the owner reward.
    pub owner: Address,
    pub fee_collector: Address,
    pub token_mint: Address,
    /// The sale's token balance, of which what was not sold may be burned.
    pub token_vault_amount: u64,
    pub pool: PoolCheck,
    pub now: i64,
}

/// What finalization pays and destroys.
#[derive(Clone, Copy, Debug, PartialEq, Eq, Structural)]
pub struct FinalizeOutcome {
    /// Whether the soft cap was met; when not, the sale became refundable.
    pub success: bool,
    /// Paid from the vault to the fee collector.
    pub service_fee: u64,
    /// Paid from the vault to the owner.
    pub owner_reward: u64,
    /// Unsold tokens to destroy.
    pub tokens_to_burn: u64,
}

/// Finalization, checked in this order: the owner account, the mint, the
/// signer's authority, the end of the sale, the fee collector, that the sale
/// is still open, and the pool record. The sale then ends. Below the soft
/// cap it becomes refundable and nothing is paid. Otherwise the service fee
/// and the owner reward of `split_of` leave the vault, the reward is added
/// to what the owner has claimed and, the whole entitlement being paid, the
/// reward is marked withdrawn; a hard-capped sale that burns its unsold
/// tokens destroys the tokens not sold.
pub open spec fn finalization(p: PresaleState, vault: Vault, ctx: FinalizeContext) -> Result<
    (PresaleState, Vault, FinalizeOutcome),
    PresaleError,
> {
    if ctx.owner@ != p.owner@ {
        Err(PresaleError::Unauthorized)
    } else if p.token@ != ctx.token_mint@ {
        Err(PresaleError::InvalidTokenMint)
    } else if !authorized_to_finalize(p, ctx.signer@, ctx.now) {
        Err(PresaleError::Unauthorized)
    } else if !sale_over(p, ctx.now) {
        Err(PresaleError::PresaleNotEnded)
    } else if ctx.fee_collector@ != p.fee_collector@ {
        Err(PresaleError::InvalidFeeCollector)
    } else if p.presale_canceled || p.presale_ended || p.presale_refund {
        Err(PresaleError::PresaleFinalizationPreconditionsNotMet)
    } else if pool_check(ctx.pool, p.token@) is Err {
        Err(pool_check(ctx.pool, p.token@)->Err_0)
    } else if p.total_raised < p.soft_cap {
        Ok(
            (
                PresaleState { presale_ended: true, presale_refund: true, ..p },
                vault,
                FinalizeOutcome { success: false, service_fee: 0, owner_reward: 0, tokens_to_burn: 0 },
            ),
        )
    } else {
        match split_of(p) {
            None => Err(PresaleError::ArithmeticOverflow),
            Some(s) => {
                let burns = p.presale_type == PresaleType::HardCapped && p.refund_type
                    == RefundType::Burn;
                if vault.lamports <= s.service_fee {
                    Err(PresaleError::InsufficientFunds)
                } else if vault.lamports - s.service_fee <= s.owner_reward {
                    Err(PresaleError::InsufficientFunds)
                } else if burns && ctx.token_vault_amount < p.total_tokens_sold {
                    Err(PresaleError::ArithmeticOverflow)
                } else {
                    Ok(
                        (
                            PresaleState {
                                presale_ended: true,
                                tokens_claimed_by_owner: (p.tokens_claimed_by_owner
                                    + s.owner_reward) as u64,
                                owner_reward_withdrawn: true,
                                ..p
                            },
                            Vault {
                                lamports: (vault.lamports - s.service_fee - s.owner_reward) as u64,
                            },
                            FinalizeOutcome {
                                success: true,
                                service_fee: s.service_fee,
                                owner_reward: s.owner_reward,
                                tokens_to_burn: if burns {
                                    (ctx.token_vault_amount - p.total_tokens_sold) as u64
                                } else {
                                    0
                                },
                            },
                        ),
                    )
                }
            },
        }
    }
}

/// Ends the sale as `finalization` says and returns what is to be paid and
/// burned. On error nothing changes.
pub fn finalize_presale(presale: &mut PresaleState, vault: &mut Vault, ctx: &FinalizeContext) -> (r:
    Result<FinalizeOutcome, PresaleError>)
    ensures
        match finalization(*old(presale), *old(vault), *ctx) {
            Ok((p, v, out)) => r == Ok::<FinalizeOutcome, PresaleError>(out) && *final(presale) == p
                && *final(vault) == v,
            Err(e) => r == Err::<FinalizeOutcome, PresaleError>(e) && *final(presale) == *old(
                presale,
            ) && *final(vault) == *old(vault),
        },
{
    if !ctx.owner.same_as(&presale.owner) {
        return Err(PresaleError::Unauthorized);
    }
    if !presale.token.same_as(&ctx.token_mint) {
        return Err(PresaleError::InvalidTokenMint);
    }
    if !is_authorized_to_finalize_presale(presale, &ctx.signer, ctx.now) {
        return Err(PresaleError::Unauthorized);
    }
    if !(ctx.now > presale.end_time || presale.total_raised >= presale.hard_cap) {
        return Err(PresaleError::PresaleNotEnded);
    }
    if !ctx.fee_collector.same_as(&presale.fee_collector) {
        return Err(PresaleError::InvalidFeeCollector);
    }
    if presale.presale_canceled || presale.presale_ended || presale.presale_refund {
        return Err(PresaleError::PresaleFinalizationPreconditionsNotMet);
    }
    match check_pool(&ctx.pool, &presale.token) {
        Ok(()) => {},
        Err(e) => {
            return Err(e);
        },
    }
    if presale.total_raised < presale.soft_cap {
        presale.presale_ended = true;
        presale.presale_refund = true;
        return Ok(FinalizeOutcome { success: false, service_fee: 0, owner_reward: 0, tokens_to_burn: 0 });
    }
    let split = match split_for(presale) {
        Ok(s) => s,
        Err(e) => {
            return Err(e);
        },
    };
    let burns = presale.presale_type == PresaleType::HardCapped && presale.refund_type
        == RefundType::Burn;
    if vault.lamports <= split.service_fee {
        return Err(PresaleError::InsufficientFunds);
    }
    if vault.lamports - split.service_fee <= split.owner_reward {
        return Err(PresaleError::InsufficientFunds);
    }
    let tokens_to_burn = if burns {
        match ctx.token_vault_amount.checked_sub(presale.total_tokens_sold) {
            Some(t) => t,
            None => {
                return Err(PresaleError::ArithmeticOverflow);
            },
        }
    } else {
        0
    };
    vault.lamports = vault.lamports - split.service_fee - split.owner_reward;
    presale.presale_ended = true;
    presale.tokens_claimed_by_owner = presale.tokens_claimed_by_owner + split.owner_reward;
    presale.owner_reward_withdrawn = true;
    Ok(
        FinalizeOutcome {
            success: true,
            service_fee: split.service_fee,
            owner_reward: split.owner_reward,
            tokens_to_burn,
        },
    )
}

/// Who withdraws the owner reward, and the accounts they name.
#[derive(Clone, Copy, Debug)]
pub struct OwnerContext {
    pub signer: Address,
    pub presale_key: Address,
    pub token_mint: Address,
    pub program_id: Address,
    pub now: i64,
}

/// The owner's withdrawal, checked in this order: the sale's derived
/// address, the mint, the owner, the end of the sale, that it was neither
/// canceled nor made refundable, and that the reward was not already taken.
/// The owner is then paid what `split_of` still owes; that amount is added
/// to what the owner has claimed and the reward is marked withdrawn.
pub open spec fn owner_withdrawal(p: PresaleState, vault: Vault, ctx: OwnerContext) -> Result<
    (PresaleState, Vault, u64),
    PresaleError,
> {
    let address = presale_address_check(p, ctx.presale_key@, ctx.token_mint@, ctx.program_id@);
    if address is Err {
        Err(address->Err_0)
    } else if p.token@ != ctx.token_mint@ {
        Err(PresaleError::InvalidTokenMint)
    } else if p.owner@ != ctx.signer@ {
        Err(PresaleError::Unauthorized)
    } else if !sale_over(p, ctx.now) {
        Err(PresaleError::PresaleNotEnded)
    } else if p.presale_canceled || p.presale_refund {
        Err(PresaleError::PresaleFinalizationPreconditionsNotMet)
    } else if p.owner_reward_withdrawn {
        Err(PresaleError::OwnerRewardWithdrawn)
    } else {
        match split_of(p) {
            None => Err(PresaleError::ArithmeticOverflow),
            Some(s) => if p.tokens_claimed_by_owner + s.owner_reward > u64::MAX {
                Err(PresaleError::ArithmeticOverflow)
            } else if vault.lamports <= s.owner_reward {
                Err(PresaleError::InsufficientFunds)
            } else {
                Ok(
                    (
                        PresaleState {
                            tokens_claimed_by_owner: (p.tokens_claimed_by_owner
                                + s.owner_reward) as u64,
                            owner_reward_withdrawn: true,
                            ..p
                        },
                        Vault { lamports: (vault.lamports - s.owner_reward) as u64 },
                        s.owner_reward,
                    ),
                )
            },
        }
    }
}

/// Pays the owner what is still owed, as `owner_withdrawal` says, and
/// returns the amount paid. On error nothing changes.
pub fn withdraw_owner_reward(presale: &mut PresaleState, vault: &mut Vault, ctx: &OwnerContext) -> (r:
    Result<u64, PresaleError>)
    ensures
        match owner_withdrawal(*old(presale), *old(vault), *ctx) {
            Ok((p, v, paid)) => r == Ok::<u64, PresaleError>(paid) && *final(presale) == p
                && *final(vault) == v,
            Err(e) => r == Err::<u64, PresaleError>(e) && *final(presale) == *old(presale)
                && *final(vault) == *old(vault),
        },
{
    match validate_presale_pda(presale, &ctx.presale_key, &ctx.token_mint, &ctx.program_id) {
        Ok(_) => {},
        Err(e) => {
            return Err(e);
        },
    }
    if !presale.token.same_as(&ctx.token_mint) {
        return Err(PresaleError::InvalidTokenMint);
    }
    if !presale.owner.same_as(&ctx.signer) {
        return Err(PresaleError::Unauthorized);
    }
    if !(ctx.now > presale.end_time || presale.total_raised >= presale.hard_cap) {
        return Err(PresaleError::PresaleNotEnded);
    }
    if presale.presale_canceled || presale.presale_refund {
        return Err(PresaleError::PresaleFinalizationPreconditionsNotMet);
    }
    if presale.owner_reward_withdrawn {
        return Err(PresaleError::OwnerRewardWithdrawn);
    }
    let split = match split_for(presale) {
        Ok(s) => s,
        Err(e) => {
            return Err(e);
        },
    };
    let claimed = match presale.tokens_claimed_by_owner.checked_add(split.owner_reward) {
        Some(c) => c,
        None => {
            return Err(PresaleError::ArithmeticOverflow);
        },
    };
    if vault.lamports <= split.owner_reward {
        return Err(PresaleError::InsufficientFunds);
    }
    vault.lamports = vault.lamports - split.owner_reward;
    presale.tokens_claimed_by_owner = claimed;
    presale.owner_reward_withdrawn = true;
    Ok(split.owner_reward)
}

/// Cancellation: only the owner, only before the sale ended, and never once
/// the owner reward was withdrawn. A canceled sale is refundable.
pub open spec fn cancellation(p: PresaleState, signer: Seq<u8>) -> Result<PresaleState, PresaleError> {
    if p.owner@ != signer {
        Err(PresaleError::Unauthorized)
    } else if p.presale_ended {
        Err(PresaleError::PresaleEnded)
    } else if p.owner_reward_withdrawn {
        Err(PresaleError::OwnerRewardWithdrawn)
    } else {
        Ok(PresaleState { presale_canceled: true, presale_refund: true, ..p })
    }
}

/// Cancels the sale as `cancellation` says. On error nothing changes.
pub fn cancel_presale(presale: &mut PresaleState, signer: &Address) -> (r: Result<(), PresaleError>)
    ensures
        match cancellation(*old(presale), signer@) {
            Ok(p) => r is Ok && *final(presale) == p,
            Err(e) => r == Err::<(), PresaleError>(e) && *final(presale) == *old(presale),
        },
{
    if !presale.owner.same_as(signer) {
        return Err(PresaleError::Unauthorized);
    }
    if presale.presale_ended {
        return Err(PresaleError::PresaleEnded);
    }
    if presale.owner_reward_withdrawn {
        return Err(PresaleError::OwnerRewardWithdrawn);
    }
    presale.presale_canceled = true;
    presale.presale_refund = true;
    Ok(())
}

/// Whether a sale that was never finalized is found refundable at `now`:
/// its window closed below the soft cap.
pub open spec fn lazily_refundable(p: PresaleState, now: i64) -> bool {
    !p.presale_refund && !p.presale_ended && now > p.end_time && p.total_raised < p.soft_cap
}

/// A refund to `user`: the sale is first made refundable if
/// `lazily_refundable`; it must then be refundable and the record must be
/// the user's. The user gets back exactly the record's amount, and the
/// record is zeroed.
pub open spec fn refund(
    p: PresaleState,
    c: ContributionState,
    vault: Vault,
    user: Seq<u8>,
    now: i64,
) -> Result<(PresaleState, ContributionState, Vault, u64), PresaleError> {
    let p1 = if lazily_refundable(p, now) {
        PresaleState { presale_refund: true, ..p }
    } else {
        p
    };
    if !p1.presale_refund {
        Err(PresaleError::PresaleNotRefunded)
    } else if c.contributor@ != user {
        Err(PresaleError::Unauthorized)
    } else if c.amount == 0 {
        Ok((p1, c, vault, 0))
    } else if vault.lamports <= c.amount {
        Err(PresaleError::InsufficientFunds)
    } else {
        Ok(
            (
                p1,
                ContributionState { amount: 0, tokens_purchased: 0, ..c },
                Vault { lamports: (vault.lamports - c.amount) as u64 },
                c.amount,
            ),
        )
    }
}

/// Refunds the contributor as `refund` says and returns the amount paid
/// back. On error nothing changes.
pub fn refund_contributors(
    presale: &mut PresaleState,
    contribution: &mut ContributionState,
    vault: &mut Vault,
    user: &Address,
    now: i64,
) -> (r: Result<u64, PresaleError>)
    ensures
        match refund(*old(presale), *old(contribution), *old(vault), user@, now) {
            Ok((p, c, v, paid)) => r == Ok::<u64, PresaleError>(paid) && *final(presale) == p
                && *final(contribution) == c && *final(vault) == v,
            Err(e) => r == Err::<u64, PresaleError>(e) && *final(presale) == *old(presale)
                && *final(contribution) == *old(contribution) && *final(vault) == *old(vault),
        },
{
    let promote = !presale.presale_refund && !presale.presale_ended && now > presale.end_time
        && presale.total_raised < presale.soft_cap;
    if !(presale.presale_refund || promote) {
        return Err(PresaleError::PresaleNotRefunded);
    }
    if !contribution.contributor.same_as(user) {
        return Err(PresaleError::Unauthorized);
    }
    let amount = contribution.amount;
    if amount > 0 {
        if vault.lamports <= amount {
            return Err(PresaleError::InsufficientFunds);
        }
        vault.lamports = vault.lamports - amount;
        contribution.amount = 0;
        contribution.tokens_purchased = 0;
    }
    if promote {
        presale.presale_refund = true;
    }
    Ok(amount)
}

} // verus!

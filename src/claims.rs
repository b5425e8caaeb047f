use vstd::prelude::*;
use vstd::arithmetic::div_mod::{lemma_div_denominator, lemma_div_multiples_vanish_quotient};

use crate::access::{presale_address_check, validate_presale_pda};
use crate::address::Address;
use crate::error::PresaleError;
use crate::fees::{
    bp_part,
    bp_share,
    calculate_presale_data,
    calculate_presale_data_degen,
    decimals_factor,
    fair_launch_pool_tokens,
    fair_launch_tokens_for_pool,
    pow10,
    presale_data,
    price_scale,
};
use crate::state::{
    AffiliateReferrerState,
    ContributionState,
    LaunchpadType,
    PresaleState,
    PresaleType,
    Vault,
};

verus! {

/// Who claims, and the accounts they name.
#[derive(Clone, Copy, Debug)]
pub struct ClaimContext {
    pub user: Address,
    pub presale_key: Address,
    pub token_mint: Address,
    pub program_id: Address,
}

/// A fair-launch contributor's share of the allocation: `amount` of `raised`
/// in proportion, of `sold` tokens, rounded down. `None` when the
/// intermediate product overflows 128 bits, nothing was raised, or the
/// share does not fit 64 bits.
pub open spec fn fair_share(amount: int, sold: int, raised: int) -> Option<int> {
    if amount * 10000 * sold > u128::MAX || raised == 0 || amount * sold / raised > u64::MAX {
        None
    } else {
        Some(amount * sold / raised)
    }
}

fn fair_share_of(amount: u64, sold: u64, raised: u64) -> (r: Option<u64>)
    ensures
        r is Some <==> fair_share(amount as int, sold as int, raised as int) is Some,
        r is Some ==> r->0 == fair_share(amount as int, sold as int, raised as int)->0,
{
    assert((amount as int) * 10000 <= u64::MAX * 10000) by (nonlinear_arith)
        requires
            amount <= u64::MAX,
    ;
    let scaled = (amount as u128) * 10000;
    let product = match scaled.checked_mul(sold as u128) {
        Some(p) => p,
        None => {
            return None;
        },
    };
    if raised == 0 {
        return None;
    }
    let share = product / (raised as u128) / 10000;
    proof {
        let x = (amount as int) * (sold as int);
        assert(product == x * 10000) by (nonlinear_arith)
            requires
                product == (amount as int) * 10000 * (sold as int),
                x == (amount as int) * (sold as int),
        ;
        assert(x >= 0) by (nonlinear_arith)
            requires
                x == (amount as int) * (sold as int),
                amount >= 0,
                sold >= 0,
        ;
        lemma_div_denominator(x * 10000, raised as int, 10000);
        lemma_scaled_quotient(x, raised as int);
    }
    if share > u64::MAX as u128 {
        None
    } else {
        Some(share as u64)
    }
}

proof fn lemma_scaled_quotient(x: int, d: int)
    requires
        x >= 0,
        d > 0,
    ensures
        (x * 10000) / (d * 10000) == x / d,
{
    assert((x * 10000) == 10000 * x) by (nonlinear_arith);
    assert((d * 10000) == 10000 * d) by (nonlinear_arith);
    lemma_div_multiples_vanish_quotient(10000, x, d);
}

/// The tokens a claim hands out: a hard-capped contributor's purchased
/// tokens; a fair-launch contributor's `fair_share`.
pub open spec fn claimable(p: PresaleState, c: ContributionState) -> Option<u64> {
    if p.presale_type == PresaleType::HardCapped {
        Some(c.tokens_purchased)
    } else {
        match fair_share(c.amount as int, p.total_tokens_sold as int, p.total_raised as int) {
            Some(t) => Some(t as u64),
            None => None,
        }
    }
}

/// A claim, checked in this order: the sale's derived address, the mint,
/// that the sale ended, was not canceled and is not refundable, that the
/// record holds a contribution, and that it is the user's. The claim pays
/// `claimable` and zeroes the record.
pub open spec fn claim(p: PresaleState, c: ContributionState, ctx: ClaimContext) -> Result<
    (ContributionState, u64),
    PresaleError,
> {
    let address = presale_address_check(p, ctx.presale_key@, ctx.token_mint@, ctx.program_id@);
    if address is Err {
        Err(address->Err_0)
    } else if p.token@ != ctx.token_mint@ {
        Err(PresaleError::Invalid)
    } else if !p.presale_ended {
        Err(PresaleError::PresaleNotFinalized)
    } else if p.presale_canceled {
        Err(PresaleError::PresaleCanceled)
    } else if p.presale_refund {
        Err(PresaleError::PresaleRefund)
    } else if c.amount == 0 {
        Err(PresaleError::NoTokensToClaim)
    } else if c.contributor@ != ctx.user@ {
        Err(PresaleError::Invalid)
    } else {
        match claimable(p, c) {
            None => Err(PresaleError::ArithmeticOverflow),
            Some(t) => Ok((ContributionState { amount: 0, tokens_purchased: 0, ..c }, t)),
        }
    }
}

/// Claims the contributor's tokens as `claim` says and returns how many are
/// handed out. On error nothing changes.
pub fn claim_tokens(presale: &PresaleState, contribution: &mut ContributionState, ctx: &ClaimContext) -> (r:
    Result<u64, PresaleError>)
    ensures
        match claim(*presale, *old(contribution), *ctx) {
            Ok((c, tokens)) => r == Ok::<u64, PresaleError>(tokens) && *final(contribution) == c,
            Err(e) => r == Err::<u64, PresaleError>(e) && *final(contribution) == *old(
                contribution,
            ),
        },
{
    match validate_presale_pda(presale, &ctx.presale_key, &ctx.token_mint, &ctx.program_id) {
        Ok(_) => {},
        Err(e) => {
            return Err(e);
        },
    }
    if !presale.token.same_as(&ctx.token_mint) {
        return Err(PresaleError::Invalid);
    }
    if !presale.presale_ended {
        return Err(PresaleError::PresaleNotFinalized);
    }
    if presale.presale_canceled {
        return Err(PresaleError::PresaleCanceled);
    }
    if presale.presale_refund {
        return Err(PresaleError::PresaleRefund);
    }
    if contribution.amount == 0 {
        return Err(PresaleError::NoTokensToClaim);
    }
    if !contribution.contributor.same_as(&ctx.user) {
        return Err(PresaleError::Invalid);
    }
    let tokens = if presale.presale_type == PresaleType::HardCapped {
        contribution.tokens_purchased
    } else {
        match fair_share_of(contribution.amount, presale.total_tokens_sold, presale.total_raised) {
            Some(t) => t,
            None => {
                return Err(PresaleError::ArithmeticOverflow);
            },
        }
    };
    contribution.amount = 0;
    contribution.tokens_purchased = 0;
    Ok(tokens)
}

/// A referrer's commission: the commission pool is the commission rate of
/// the net raised; the referrer's share of it is its own net attributed
/// sales over the net raised, in whole basis points. `None` when a step
/// overflows 64 bits, a part exceeds what it is taken from, or nothing net
/// was raised.
pub open spec fn commission(p: PresaleState, rs: AffiliateReferrerState) -> Option<u64> {
    let fee = bp_part(p.total_raised as int, p.service_fee as int);
    let net = p.total_raised - fee;
    let pool = bp_part(net, p.commission_rate as int);
    let own_fee = bp_part(rs.total_sale as int, p.service_fee as int);
    let own_net = rs.total_sale - own_fee;
    if fee > u64::MAX || net < 0 || pool > u64::MAX || own_fee > u64::MAX || own_net < 0 || own_net
        * 10000 > u64::MAX || net == 0 || pool * (own_net * 10000 / net) > u64::MAX {
        None
    } else {
        Some((pool * (own_net * 10000 / net) / 10000) as u64)
    }
}

/// A commission withdrawal: the referrer must have attributed sales and
/// must not have been paid; it is then paid `commission` from the vault,
/// once.
pub open spec fn commission_withdrawal(p: PresaleState, rs: AffiliateReferrerState, vault: Vault) -> Result<
    (AffiliateReferrerState, Vault, u64),
    PresaleError,
> {
    if rs.total_sale == 0 {
        Err(PresaleError::Invalid)
    } else if rs.is_reward_claimed {
        Err(PresaleError::Invalid)
    } else {
        match commission(p, rs) {
            None => Err(PresaleError::ArithmeticOverflow),
            Some(amount) => if vault.lamports <= amount {
                Err(PresaleError::InsufficientFunds)
            } else {
                Ok(
                    (
                        AffiliateReferrerState { is_reward_claimed: true, ..rs },
                        Vault { lamports: (vault.lamports - amount) as u64 },
                        amount,
                    ),
                )
            },
        }
    }
}

/// Pays a referrer its commission as `commission_withdrawal` says and
/// returns the amount. On error nothing changes.
pub fn withdraw_commission(
    presale: &PresaleState,
    referrer_state: &mut AffiliateReferrerState,
    vault: &mut Vault,
) -> (r: Result<u64, PresaleError>)
    ensures
        match commission_withdrawal(*presale, *old(referrer_state), *old(vault)) {
            Ok((rs, v, paid)) => r == Ok::<u64, PresaleError>(paid) && *final(referrer_state) == rs
                && *final(vault) == v,
            Err(e) => r == Err::<u64, PresaleError>(e) && *final(referrer_state) == *old(
                referrer_state,
            ) && *final(vault) == *old(vault),
        },
{
    if referrer_state.total_sale == 0 {
        return Err(PresaleError::Invalid);
    }
    if referrer_state.is_reward_claimed {
        return Err(PresaleError::Invalid);
    }
    let fee = match bp_share(presale.total_raised, presale.service_fee) {
        Some(f) => f,
        None => {
            return Err(PresaleError::ArithmeticOverflow);
        },
    };
    let net = match presale.total_raised.checked_sub(fee) {
        Some(n) => n,
        None => {
            return Err(PresaleError::ArithmeticOverflow);
        },
    };
    let pool = match bp_share(net, presale.commission_rate) {
        Some(p) => p,
        None => {
            return Err(PresaleError::ArithmeticOverflow);
        },
    };
    let own_fee = match bp_share(referrer_state.total_sale, presale.service_fee) {
        Some(f) => f,
        None => {
            return Err(PresaleError::ArithmeticOverflow);
        },
    };
    let own_net = match referrer_state.total_sale.checked_sub(own_fee) {
        Some(n) => n,
        None => {
            return Err(PresaleError::ArithmeticOverflow);
        },
    };
    let share_bp = match own_net.checked_mul(10000) {
        Some(s) => {
            if net == 0 {
                return Err(PresaleError::ArithmeticOverflow);
            }
            s / net
        },
        None => {
            return Err(PresaleError::ArithmeticOverflow);
        },
    };
    let amount = match pool.checked_mul(share_bp) {
        Some(a) => a / 10000,
        None => {
            return Err(PresaleError::ArithmeticOverflow);
        },
    };
    if vault.lamports <= amount {
        return Err(PresaleError::InsufficientFunds);
    }
    vault.lamports = vault.lamports - amount;
    referrer_state.is_reward_claimed = true;
    Ok(amount)
}

/// A referrer's payout from a sale: only a sale that ended successfully,
/// neither canceled nor refundable, has an affiliate reserve to pay from;
/// then `commission_withdrawal` applies.
pub open spec fn affiliate_payout(p: PresaleState, rs: AffiliateReferrerState, vault: Vault) -> Result<
    (AffiliateReferrerState, Vault, u64),
    PresaleError,
> {
    if !p.presale_ended {
        Err(PresaleError::Invalid)
    } else if p.presale_canceled {
        Err(PresaleError::PresaleCanceled)
    } else if p.presale_refund {
        Err(PresaleError::PresaleRefund)
    } else {
        commission_withdrawal(p, rs, vault)
    }
}

/// Pays a referrer its commission as `affiliate_payout` says. On error
/// nothing changes.
pub fn withdraw_affiliate_commission(
    presale: &PresaleState,
    referrer_state: &mut AffiliateReferrerState,
    vault: &mut Vault,
) -> (r: Result<u64, PresaleError>)
    ensures
        match affiliate_payout(*presale, *old(referrer_state), *old(vault)) {
            Ok((rs, v, paid)) => r == Ok::<u64, PresaleError>(paid) && *final(referrer_state) == rs
                && *final(vault) == v,
            Err(e) => r == Err::<u64, PresaleError>(e) && *final(referrer_state) == *old(
                referrer_state,
            ) && *final(vault) == *old(vault),
        },
{
    if !presale.presale_ended {
        return Err(PresaleError::Invalid);
    }
    if presale.presale_canceled {
        return Err(PresaleError::PresaleCanceled);
    }
    if presale.presale_refund {
        return Err(PresaleError::PresaleRefund);
    }
    withdraw_commission(presale, referrer_state, vault)
}

/// Who withdraws unsold tokens, and what they name.
#[derive(Clone, Copy, Debug)]
pub struct UnsoldContext {
    pub signer: Address,
    pub presale_key: Address,
    pub token_mint: Address,
    pub token_decimals: u8,
    pub program_id: Address,
    /// The sale's current token balance.
    pub token_vault_balance: u64,
}

/// The total token allocation (`presale_data`'s last part) for raising `cap`.
pub open spec fn allocation_for(p: PresaleState, cap: int, decimals: u8) -> Option<int> {
    match presale_data(
        cap,
        p.service_fee as int,
        p.liquidity_bp as int,
        pow10(decimals as nat) as int,
        p.token_price as int,
        p.listing_rate as int,
        price_scale(p.launchpad_type == LaunchpadType::Degen),
    ) {
        Some(t) => Some(t.3),
        None => None,
    }
}

/// What the owner may take back of the sale's tokens: for a hard-capped sale
/// that ended, the allocation for the hard cap less that for what was
/// raised; for one canceled, the whole balance; for a canceled fair launch,
/// the allocation and its pool share.
pub open spec fn unsold(p: PresaleState, ctx: UnsoldContext) -> Result<u64, PresaleError> {
    let address = presale_address_check(p, ctx.presale_key@, ctx.token_mint@, ctx.program_id@);
    if address is Err {
        Err(address->Err_0)
    } else if p.token@ != ctx.token_mint@ {
        Err(PresaleError::Invalid)
    } else if p.owner@ != ctx.signer@ {
        Err(PresaleError::Unauthorized)
    } else if p.presale_type == PresaleType::HardCapped {
        if !(p.presale_ended || p.presale_canceled) {
            Err(PresaleError::PresaleEndedOrCanceled)
        } else if pow10(ctx.token_decimals as nat) > u64::MAX {
            Err(PresaleError::ArithmeticOverflow)
        } else {
            let actual = allocation_for(p, p.total_raised as int, ctx.token_decimals);
            let full = allocation_for(p, p.hard_cap as int, ctx.token_decimals);
            if actual is None || full is None {
                Err(PresaleError::ArithmeticOverflow)
            } else if !p.presale_ended {
                Ok(ctx.token_vault_balance)
            } else if full->0 < actual->0 {
                Err(PresaleError::ArithmeticOverflow)
            } else {
                Ok((full->0 - actual->0) as u64)
            }
        }
    } else {
        if !p.presale_canceled {
            Err(PresaleError::PresaleNotCancelled)
        } else {
            match fair_launch_pool_tokens(
                p.total_tokens_sold as int,
                p.service_fee as int,
                p.liquidity_bp as int,
            ) {
                None => Err(PresaleError::ArithmeticOverflow),
                Some(lp) => if p.total_tokens_sold + lp > u64::MAX {
                    Err(PresaleError::ArithmeticOverflow)
                } else {
                    Ok((p.total_tokens_sold + lp) as u64)
                },
            }
        }
    }
}

fn allocation(p: &PresaleState, cap: u64, factor: u64) -> (r: Result<u64, PresaleError>)
    ensures
        match presale_data(
            cap as int,
            p.service_fee as int,
            p.liquidity_bp as int,
            factor as int,
            p.token_price as int,
            p.listing_rate as int,
            price_scale(p.launchpad_type == LaunchpadType::Degen),
        ) {
            Some(t) => r == Ok::<u64, PresaleError>(t.3 as u64),
            None => r == Err::<u64, PresaleError>(PresaleError::ArithmeticOverflow),
        },
{
    let data = match p.launchpad_type {
        LaunchpadType::Pro => calculate_presale_data(
            cap as u128,
            p.service_fee as u128,
            p.liquidity_bp as u128,
            factor as u128,
            p.token_price as u128,
            p.listing_rate as u128,
        ),
        LaunchpadType::Degen => calculate_presale_data_degen(
            cap as u128,
            p.service_fee as u128,
            p.liquidity_bp as u128,
            factor as u128,
            p.token_price as u128,
            p.listing_rate as u128,
        ),
    };
    match data {
        Ok(t) => Ok(t.3),
        Err(e) => Err(e),
    }
}

/// Returns how many tokens the owner takes back, as `unsold` says.
pub fn withdraw_unsold_tokens(presale: &PresaleState, ctx: &UnsoldContext) -> (r: Result<
    u64,
    PresaleError,
>)
    ensures
        r == unsold(*presale, *ctx),
{
    match validate_presale_pda(presale, &ctx.presale_key, &ctx.token_mint, &ctx.program_id) {
        Ok(_) => {},
        Err(e) => {
            return Err(e);
        },
    }
    if !presale.token.same_as(&ctx.token_mint) {
        return Err(PresaleError::Invalid);
    }
    if !presale.owner.same_as(&ctx.signer) {
        return Err(PresaleError::Unauthorized);
    }
    if presale.presale_type == PresaleType::HardCapped {
        if !(presale.presale_ended || presale.presale_canceled) {
            return Err(PresaleError::PresaleEndedOrCanceled);
        }
        let factor = match decimals_factor(ctx.token_decimals) {
            Some(f) => f,
            None => {
                return Err(PresaleError::ArithmeticOverflow);
            },
        };
        let actual = allocation(presale, presale.total_raised, factor);
        let full = allocation(presale, presale.hard_cap, factor);
        let (actual, full) = match (actual, full) {
            (Ok(a), Ok(f)) => (a, f),
            _ => {
                return Err(PresaleError::ArithmeticOverflow);
            },
        };
        if !presale.presale_ended {
            Ok(ctx.token_vault_balance)
        } else {
            match full.checked_sub(actual) {
                Some(t) => Ok(t),
                None => Err(PresaleError::ArithmeticOverflow),
            }
        }
    } else {
        if !presale.presale_canceled {
            return Err(PresaleError::PresaleNotCancelled);
        }
        let lp = match fair_launch_tokens_for_pool(
            presale.total_tokens_sold,
            presale.service_fee,
            presale.liquidity_bp,
        ) {
            Some(l) => l,
            None => {
                return Err(PresaleError::ArithmeticOverflow);
            },
        };
        match presale.total_tokens_sold.checked_add(lp) {
            Some(t) => Ok(t),
            None => Err(PresaleError::ArithmeticOverflow),
        }
    }
}

} // verus!

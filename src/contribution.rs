use vstd::prelude::*;

use crate::access::{check_if_user_is_whitelisted, whitelist_check, AccountRef};
use crate::address::{zero_address, Address};
use crate::error::PresaleError;
use crate::fees::{decimals_factor, pow10, price_scale, purchase_tokens, tokens_for_amount};
use crate::state::{
    AffiliateReferrerState,
    ContributionState,
    LaunchpadType,
    PresaleState,
    PresaleType,
    Vault,
};

verus! {

/// Who contributes, to which sale, and when.
#[derive(Clone, Copy, Debug)]
pub struct ContributeContext {
    /// The contributor, who signs and pays.
    pub user: Address,
    /// The sale's own address.
    pub presale_key: Address,
    /// The mint the caller names; it must be the sale's.
    pub token_key: Address,
    /// The mint's decimals.
    pub token_decimals: u8,
    /// The contributor's whitelist entry, consulted when the sale has a whitelist.
    pub whitelist_entry: AccountRef,
    /// This program's identity, under which records are derived.
    pub program_id: Address,
    pub now: i64,
}

/// What is left under the hard cap.
pub open spec fn headroom(p: PresaleState) -> int {
    if p.total_raised >= p.hard_cap {
        0
    } else {
        p.hard_cap - p.total_raised
    }
}

/// Whether the sale window is open at `now`.
pub open spec fn in_window(p: PresaleState, now: i64) -> bool {
    p.start_time <= now <= p.end_time
}

/// The admission rules of a contribution of `amount`, checked in this order:
/// whitelist, mint, window, not ended, not canceled, then the limits of the
/// sale model. A hard-capped sale takes at most what is left under the cap
/// and prices it in tokens; a fair launch takes the whole amount and prices
/// nothing until the claim. The result is the amount taken and the tokens
/// bought.
pub open spec fn admission(
    p: PresaleState,
    c: ContributionState,
    vault: Vault,
    ctx: ContributeContext,
    amount: u64,
) -> Result<(u64, u64), PresaleError> {
    let listed = if p.whitelist_enabled {
        whitelist_check(ctx.whitelist_entry, ctx.user@, ctx.presale_key@, ctx.program_id@)
    } else {
        Ok(())
    };
    if listed is Err {
        Err(listed->Err_0)
    } else if p.token@ != ctx.token_key@ {
        Err(PresaleError::Invalid)
    } else if !in_window(p, ctx.now) {
        Err(PresaleError::PresaleNotActive)
    } else if p.presale_ended {
        Err(PresaleError::PresaleEnded)
    } else if p.presale_canceled {
        Err(PresaleError::PresaleCanceled)
    } else if p.presale_type == PresaleType::HardCapped {
        let accepted = if amount > headroom(p) {
            headroom(p)
        } else {
            amount as int
        };
        if !(amount >= p.min_contribution && c.amount + amount <= p.max_contribution) {
            Err(PresaleError::ContributionNotWithinLimits)
        } else if accepted == 0 {
            Err(PresaleError::ContributionNotWithinLimits)
        } else if pow10(ctx.token_decimals as nat) > u64::MAX {
            Err(PresaleError::ArithmeticOverflow)
        } else {
            let tokens = purchase_tokens(
                accepted,
                pow10(ctx.token_decimals as nat) as int,
                price_scale(p.launchpad_type == LaunchpadType::Degen),
                p.token_price as int,
            );
            if tokens is None {
                Err(PresaleError::ArithmeticOverflow)
            } else if p.total_raised + accepted > u64::MAX || p.total_tokens_sold + tokens->0
                > u64::MAX || c.amount + accepted > u64::MAX || c.tokens_purchased + tokens->0
                > u64::MAX || vault.lamports + accepted > u64::MAX {
                Err(PresaleError::ArithmeticOverflow)
            } else {
                Ok((accepted as u64, tokens->0 as u64))
            }
        }
    } else {
        if !(amount >= p.min_contribution && (c.amount + amount <= p.max_contribution
            || p.max_contribution == 0)) {
            Err(PresaleError::ContributionNotWithinLimits)
        } else if p.total_raised + amount > u64::MAX || c.amount + amount > u64::MAX
            || vault.lamports + amount > u64::MAX {
            Err(PresaleError::ArithmeticOverflow)
        } else {
            Ok((amount, 0u64))
        }
    }
}

/// The sale after it took `accepted` and sold `tokens`.
pub open spec fn presale_after_contribution(p: PresaleState, accepted: u64, tokens: u64) -> PresaleState {
    PresaleState {
        total_raised: (p.total_raised + accepted) as u64,
        total_tokens_sold: (p.total_tokens_sold + tokens) as u64,
        ..p
    }
}

/// The contributor's record after `accepted` was taken from `user` for `tokens`.
pub open spec fn contribution_after(c: ContributionState, user: Address, accepted: u64, tokens: u64) -> ContributionState {
    ContributionState {
        contributor: user,
        amount: (c.amount + accepted) as u64,
        tokens_purchased: (c.tokens_purchased + tokens) as u64,
    }
}

/// Decides `admission` without changing anything.
fn admission_check(
    presale: &PresaleState,
    contribution: &ContributionState,
    vault: &Vault,
    ctx: &ContributeContext,
    amount: u64,
) -> (r: Result<(u64, u64), PresaleError>)
    ensures
        r == admission(*presale, *contribution, *vault, *ctx, amount),
{
    if presale.whitelist_enabled {
        match check_if_user_is_whitelisted(
            &ctx.whitelist_entry,
            &ctx.user,
            &ctx.presale_key,
            &ctx.program_id,
        ) {
            Ok(()) => {},
            Err(e) => {
                return Err(e);
            },
        }
    }
    if !presale.token.same_as(&ctx.token_key) {
        return Err(PresaleError::Invalid);
    }
    if !(ctx.now >= presale.start_time && ctx.now <= presale.end_time) {
        return Err(PresaleError::PresaleNotActive);
    }
    if presale.presale_ended {
        return Err(PresaleError::PresaleEnded);
    }
    if presale.presale_canceled {
        return Err(PresaleError::PresaleCanceled);
    }
    if presale.presale_type == PresaleType::HardCapped {
        if !(amount >= presale.min_contribution && (contribution.amount as u128) + (amount as u128)
            <= (presale.max_contribution as u128)) {
            return Err(PresaleError::ContributionNotWithinLimits);
        }
        let room: u64 = if presale.total_raised >= presale.hard_cap {
            0
        } else {
            presale.hard_cap - presale.total_raised
        };
        let accepted = if amount > room {
            room
        } else {
            amount
        };
        if accepted == 0 {
            return Err(PresaleError::ContributionNotWithinLimits);
        }
        let factor = match decimals_factor(ctx.token_decimals) {
            Some(f) => f,
            None => {
                return Err(PresaleError::ArithmeticOverflow);
            },
        };
        let tokens = match tokens_for_amount(
            accepted,
            factor,
            presale.launchpad_type == LaunchpadType::Degen,
            presale.token_price,
        ) {
            Some(t) => t,
            None => {
                return Err(PresaleError::ArithmeticOverflow);
            },
        };
        if presale.total_raised.checked_add(accepted).is_none()
            || presale.total_tokens_sold.checked_add(tokens).is_none()
            || contribution.amount.checked_add(accepted).is_none()
            || contribution.tokens_purchased.checked_add(tokens).is_none()
            || vault.lamports.checked_add(accepted).is_none() {
            return Err(PresaleError::ArithmeticOverflow);
        }
        Ok((accepted, tokens))
    } else {
        if !(amount >= presale.min_contribution && ((contribution.amount as u128) + (
        amount as u128) <= (presale.max_contribution as u128) || presale.max_contribution == 0)) {
            return Err(PresaleError::ContributionNotWithinLimits);
        }
        if presale.total_raised.checked_add(amount).is_none()
            || contribution.amount.checked_add(amount).is_none()
            || vault.lamports.checked_add(amount).is_none() {
            return Err(PresaleError::ArithmeticOverflow);
        }
        Ok((amount, 0u64))
    }
}

/// Applies an admitted contribution.
fn apply_contribution(
    presale: &mut PresaleState,
    contribution: &mut ContributionState,
    vault: &mut Vault,
    user: Address,
    accepted: u64,
    tokens: u64,
)
    requires
        old(presale).total_raised + accepted <= u64::MAX,
        old(presale).total_tokens_sold + tokens <= u64::MAX,
        old(contribution).amount + accepted <= u64::MAX,
        old(contribution).tokens_purchased + tokens <= u64::MAX,
        old(vault).lamports + accepted <= u64::MAX,
    ensures
        *final(presale) == presale_after_contribution(*old(presale), accepted, tokens),
        *final(contribution) == contribution_after(*old(contribution), user, accepted, tokens),
        final(vault).lamports == old(vault).lamports + accepted,
{
    presale.total_raised = presale.total_raised + accepted;
    presale.total_tokens_sold = presale.total_tokens_sold + tokens;
    contribution.contributor = user;
    contribution.amount = contribution.amount + accepted;
    contribution.tokens_purchased = contribution.tokens_purchased + tokens;
    vault.lamports = vault.lamports + accepted;
}

/// Takes a contribution of `amount` into the sale, as `admission` rules,
/// and returns what was taken: moved into the vault and credited to the
/// sale and the contributor. A hard-capped sale never takes more than is
/// left under its cap. On error nothing changes.
pub fn contribute(
    presale: &mut PresaleState,
    contribution: &mut ContributionState,
    vault: &mut Vault,
    ctx: &ContributeContext,
    amount: u64,
) -> (r: Result<u64, PresaleError>)
    ensures
        match admission(*old(presale), *old(contribution), *old(vault), *ctx, amount) {
            Ok((accepted, tokens)) => {
                &&& r == Ok::<u64, PresaleError>(accepted)
                &&& *final(presale) == presale_after_contribution(*old(presale), accepted, tokens)
                &&& *final(contribution) == contribution_after(
                    *old(contribution),
                    ctx.user,
                    accepted,
                    tokens,
                )
                &&& final(vault).lamports == old(vault).lamports + accepted
            },
            Err(e) => {
                &&& r == Err::<u64, PresaleError>(e)
                &&& *final(presale) == *old(presale)
                &&& *final(contribution) == *old(contribution)
                &&& *final(vault) == *old(vault)
            },
        },
        r matches Ok(accepted) ==> accepted <= amount,
        old(presale).presale_type == PresaleType::HardCapped && r is Ok
            ==> final(presale).total_raised <= final(presale).hard_cap,
        old(presale).presale_type == PresaleType::HardCapped && r is Ok ==> r->Ok_0 == (if amount
            > headroom(*old(presale)) {
            headroom(*old(presale))
        } else {
            amount as int
        }),
{
    let (accepted, tokens) = match admission_check(presale, contribution, vault, ctx, amount) {
        Ok(t) => t,
        Err(e) => {
            return Err(e);
        },
    };
    apply_contribution(presale, contribution, vault, ctx.user, accepted, tokens);
    Ok(accepted)
}

/// The referrer's record and the sale after a sale of `amount` is attributed:
/// a referrer's first attributed sale counts one more referrer.
pub open spec fn attribution(r: AffiliateReferrerState, p: PresaleState, amount: u64) -> Option<
    (AffiliateReferrerState, PresaleState),
> {
    let count = if r.total_sale == 0 {
        p.total_ref_count + 1
    } else {
        p.total_ref_count as int
    };
    if count > u64::MAX || r.total_sale + amount > u64::MAX || p.total_ref_amount + amount
        > u64::MAX {
        None
    } else {
        Some(
            (
                AffiliateReferrerState { total_sale: (r.total_sale + amount) as u64, ..r },
                PresaleState {
                    total_ref_count: count as u64,
                    total_ref_amount: (p.total_ref_amount + amount) as u64,
                    ..p
                },
            ),
        )
    }
}

/// Attributes a sale of `amount` to a referrer, as `attribution` says. On
/// error nothing changes.
pub fn record_contribution(
    referrer_state: &mut AffiliateReferrerState,
    presale: &mut PresaleState,
    amount: u64,
) -> (r: Result<(), PresaleError>)
    ensures
        match attribution(*old(referrer_state), *old(presale), amount) {
            Some((rs, p)) => r is Ok && *final(referrer_state) == rs && *final(presale) == p,
            None => r == Err::<(), _>(PresaleError::ArithmeticOverflow) && *final(referrer_state)
                == *old(referrer_state) && *final(presale) == *old(presale),
        },
{
    let count = if referrer_state.total_sale == 0 {
        match presale.total_ref_count.checked_add(1) {
            Some(c) => c,
            None => {
                return Err(PresaleError::ArithmeticOverflow);
            },
        }
    } else {
        presale.total_ref_count
    };
    let total_sale = match referrer_state.total_sale.checked_add(amount) {
        Some(t) => t,
        None => {
            return Err(PresaleError::ArithmeticOverflow);
        },
    };
    let total_ref_amount = match presale.total_ref_amount.checked_add(amount) {
        Some(t) => t,
        None => {
            return Err(PresaleError::ArithmeticOverflow);
        },
    };
    presale.total_ref_count = count;
    presale.total_ref_amount = total_ref_amount;
    referrer_state.total_sale = total_sale;
    Ok(())
}

/// The outcome of a referred contribution: the admission of `contribute`,
/// then, when the sale runs an affiliate program, the attribution of what was
/// taken to the referrer, whose identity is set on its first sale.
pub open spec fn referred_admission(
    p: PresaleState,
    c: ContributionState,
    vault: Vault,
    rs: AffiliateReferrerState,
    ctx: ContributeContext,
    referrer: Address,
    amount: u64,
) -> Result<(u64, PresaleState, ContributionState, AffiliateReferrerState), PresaleError> {
    match admission(p, c, vault, ctx, amount) {
        Err(e) => Err(e),
        Ok((accepted, tokens)) => {
            let p1 = presale_after_contribution(p, accepted, tokens);
            let c1 = contribution_after(c, ctx.user, accepted, tokens);
            if !p.affiliate_enabled {
                Ok((accepted, p1, c1, rs))
            } else {
                match attribution(rs, p1, accepted) {
                    None => Err(PresaleError::ArithmeticOverflow),
                    Some((rs1, p2)) => {
                        let rs2 = if rs1.referrer@ == zero_address() {
                            AffiliateReferrerState { referrer: referrer, ..rs1 }
                        } else {
                            rs1
                        };
                        Ok((accepted, p2, c1, rs2))
                    },
                }
            }
        },
    }
}

/// Takes a contribution as `contribute` does and attributes what was taken
/// to `referrer`, as `referred_admission` says. On error nothing changes.
pub fn contribute_affiliate(
    presale: &mut PresaleState,
    contribution: &mut ContributionState,
    vault: &mut Vault,
    referrer_state: &mut AffiliateReferrerState,
    ctx: &ContributeContext,
    referrer: &Address,
    amount: u64,
) -> (r: Result<u64, PresaleError>)
    ensures
        match referred_admission(
            *old(presale),
            *old(contribution),
            *old(vault),
            *old(referrer_state),
            *ctx,
            *referrer,
            amount,
        ) {
            Ok((accepted, p, c, rs)) => {
                &&& r == Ok::<u64, PresaleError>(accepted)
                &&& *final(presale) == p
                &&& *final(contribution) == c
                &&& *final(referrer_state) == rs
                &&& final(vault).lamports == old(vault).lamports + accepted
            },
            Err(e) => {
                &&& r == Err::<u64, PresaleError>(e)
                &&& *final(presale) == *old(presale)
                &&& *final(contribution) == *old(contribution)
                &&& *final(vault) == *old(vault)
                &&& *final(referrer_state) == *old(referrer_state)
            },
        },
        r matches Ok(accepted) ==> accepted <= amount,
        old(presale).presale_type == PresaleType::HardCapped && r is Ok
            ==> final(presale).total_raised <= final(presale).hard_cap,
        old(presale).presale_type == PresaleType::HardCapped && r is Ok ==> r->Ok_0 == (if amount
            > headroom(*old(presale)) {
            headroom(*old(presale))
        } else {
            amount as int
        }),
{
    let (accepted, tokens) = match admission_check(presale, contribution, vault, ctx, amount) {
        Ok(t) => t,
        Err(e) => {
            return Err(e);
        },
    };
    if presale.affiliate_enabled {
        if referrer_state.total_sale == 0 && presale.total_ref_count == u64::MAX {
            return Err(PresaleError::ArithmeticOverflow);
        }
        if referrer_state.total_sale.checked_add(accepted).is_none()
            || presale.total_ref_amount.checked_add(accepted).is_none() {
            return Err(PresaleError::ArithmeticOverflow);
        }
    }
    apply_contribution(presale, contribution, vault, ctx.user, accepted, tokens);
    if presale.affiliate_enabled {
        let recorded = record_contribution(referrer_state, presale, accepted);
        assert(recorded is Ok);
        if referrer_state.referrer.same_as(&Address::zero()) {
            referrer_state.referrer = *referrer;
        }
    }
    Ok(accepted)
}

} // verus!

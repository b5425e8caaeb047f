use vstd::prelude::*;

use crate::contribution::{
    admission,
    contribution_after,
    presale_after_contribution,
    referred_admission,
    ContributeContext,
};
use crate::error::PresaleError;
use crate::fees::{bp_part, fund_split};
use crate::lifecycle::{
    cancellation,
    finalization,
    FinalizeOutcome,
    owner_withdrawal,
    refund,
    split_of,
    FinalizeContext,
    OwnerContext,
};
use crate::setup::migrated;
use crate::state::{
    PresaleType,
    RefundType,
    AffiliateReferrerState,
    ContributionState,
    LaunchpadType,
    PresaleState,
    PresaleStateV0,
    Vault,
};
use crate::address::Address;

verus! {

/// The sum of what a set of contribution records holds.
pub open spec fn sum_amounts(cs: Seq<ContributionState>) -> int
    decreases cs.len(),
{
    if cs.len() == 0 {
        0
    } else {
        sum_amounts(cs.drop_last()) + cs.last().amount
    }
}

proof fn lemma_sum_update(cs: Seq<ContributionState>, i: int, c: ContributionState)
    requires
        0 <= i < cs.len(),
    ensures
        sum_amounts(cs.update(i, c)) == sum_amounts(cs) - cs[i].amount + c.amount,
    decreases cs.len(),
{
    let u = cs.update(i, c);
    if i == cs.len() - 1 {
        assert(u.drop_last() =~= cs.drop_last());
    } else {
        lemma_sum_update(cs.drop_last(), i, c);
        assert(u.drop_last() =~= cs.drop_last().update(i, c));
    }
}

/// Contributions keep the ledger balanced: when the records of a sale sum to
/// what it raised, taking a contribution into any one of them keeps the sum
/// equal to the new amount raised.
pub proof fn lemma_contribution_keeps_ledger_balanced(
    p: PresaleState,
    cs: Seq<ContributionState>,
    i: int,
    vault: Vault,
    ctx: ContributeContext,
    amount: u64,
)
    requires
        sum_amounts(cs) == p.total_raised,
        0 <= i < cs.len(),
        admission(p, cs[i], vault, ctx, amount) is Ok,
    ensures
        ({
            let (accepted, tokens) = admission(p, cs[i], vault, ctx, amount)->Ok_0;
            sum_amounts(cs.update(i, contribution_after(cs[i], ctx.user, accepted, tokens)))
                == presale_after_contribution(p, accepted, tokens).total_raised
        }),
{
    let (accepted, tokens) = admission(p, cs[i], vault, ctx, amount)->Ok_0;
    lemma_sum_update(cs, i, contribution_after(cs[i], ctx.user, accepted, tokens));
}

/// Referred contributions keep the ledger balanced in the same way.
pub proof fn lemma_referred_contribution_keeps_ledger_balanced(
    p: PresaleState,
    cs: Seq<ContributionState>,
    i: int,
    vault: Vault,
    rs: AffiliateReferrerState,
    ctx: ContributeContext,
    referrer: Address,
    amount: u64,
)
    requires
        sum_amounts(cs) == p.total_raised,
        0 <= i < cs.len(),
        referred_admission(p, cs[i], vault, rs, ctx, referrer, amount) is Ok,
    ensures
        ({
            let (_, p1, c1, _) = referred_admission(p, cs[i], vault, rs, ctx, referrer, amount)->Ok_0;
            sum_amounts(cs.update(i, c1)) == p1.total_raised
        }),
{
    let (_, p1, c1, _) = referred_admission(p, cs[i], vault, rs, ctx, referrer, amount)->Ok_0;
    lemma_sum_update(cs, i, c1);
}

/// The split accounts for everything raised: the service fee, the owner
/// reward, the liquidity and affiliate reserves and what the owner already
/// claimed add up to the amount raised.
pub proof fn lemma_split_sums_to_total(
    total: u64,
    fee_bp: u16,
    affiliate_enabled: bool,
    commission_bp: u16,
    liquidity_bp: u16,
    claimed: u64,
)
    requires
        fund_split(
            total as int,
            fee_bp as int,
            affiliate_enabled,
            commission_bp as int,
            liquidity_bp as int,
            claimed as int,
        ) is Some,
    ensures
        ({
            let s = fund_split(
                total as int,
                fee_bp as int,
                affiliate_enabled,
                commission_bp as int,
                liquidity_bp as int,
                claimed as int,
            )->0;
            s.service_fee + s.owner_reward + s.liquidity_reserve + s.affiliate_reserve + claimed
                == total
        }),
{
}

proof fn lemma_bp_part_bounds(x: int, bp: int)
    requires
        x >= 0,
        0 <= bp <= 10000,
    ensures
        0 <= bp_part(x, bp) <= x,
        bp_part(x, bp) * 10000 <= x * bp,
{
    assert(0 <= x * bp <= x * 10000) by (nonlinear_arith)
        requires
            x >= 0,
            0 <= bp <= 10000,
    ;
    vstd::arithmetic::div_mod::lemma_fundamental_div_mod(x * bp, 10000);
    vstd::arithmetic::div_mod::lemma_div_pos_is_pos(x * bp, 10000);
    vstd::arithmetic::div_mod::lemma_div_is_ordered(x * bp, x * 10000, 10000);
    vstd::arithmetic::div_mod::lemma_div_by_multiple(x, 10000);
    vstd::arithmetic::div_mod::lemma_mod_pos_bound(x * bp, 10000);
}

/// With every rate within the whole and the affiliate and liquidity shares
/// together within the whole, the split of any amount raised is defined
/// before the owner has claimed anything.
pub proof fn lemma_split_defined(
    total: u64,
    fee_bp: u16,
    affiliate_enabled: bool,
    commission_bp: u16,
    liquidity_bp: u16,
)
    requires
        fee_bp <= 10000,
        commission_bp <= 10000,
        liquidity_bp <= 10000,
        (if affiliate_enabled {
            commission_bp as int
        } else {
            0
        }) + liquidity_bp <= 10000,
    ensures
        fund_split(
            total as int,
            fee_bp as int,
            affiliate_enabled,
            commission_bp as int,
            liquidity_bp as int,
            0,
        ) is Some,
{
    let fee = bp_part(total as int, fee_bp as int);
    lemma_bp_part_bounds(total as int, fee_bp as int);
    let net = total - fee;
    let c = if affiliate_enabled {
        commission_bp as int
    } else {
        0
    };
    lemma_bp_part_bounds(net, c);
    lemma_bp_part_bounds(net, liquidity_bp as int);
    let a = bp_part(net, c);
    let l = bp_part(net, liquidity_bp as int);
    assert(net * c + net * (liquidity_bp as int) <= net * 10000) by (nonlinear_arith)
        requires
            net >= 0,
            c + liquidity_bp <= 10000,
            c >= 0,
            liquidity_bp >= 0,
    ;
    assert(a + l <= net) by (nonlinear_arith)
        requires
            a * 10000 <= net * c,
            l * 10000 <= net * (liquidity_bp as int),
            net * c + net * (liquidity_bp as int) <= net * 10000,
    ;
    if affiliate_enabled {
        assert(a == bp_part(net, commission_bp as int));
    } else {
        assert(bp_part(net, 0) == 0);
    }
}

/// Finalizing a successful sale pays exactly the split's service fee and
/// owner reward, and together with the reserves and what the owner already
/// claimed these account for everything raised.
pub proof fn lemma_finalize_accounts_for_total(p: PresaleState, vault: Vault, ctx: FinalizeContext)
    requires
        finalization(p, vault, ctx) is Ok,
        finalization(p, vault, ctx)->Ok_0.2.success,
    ensures
        split_of(p) is Some,
        ({
            let s = split_of(p)->0;
            let out = finalization(p, vault, ctx)->Ok_0.2;
            &&& out.service_fee == s.service_fee
            &&& out.owner_reward == s.owner_reward
            &&& s.service_fee + s.owner_reward + s.liquidity_reserve + s.affiliate_reserve
                + p.tokens_claimed_by_owner == p.total_raised
        }),
{
}

/// Finalization never overflows when every rate is within the whole, the
/// affiliate and liquidity shares together are within the whole, nothing
/// was claimed before, and a sale that burns its unsold tokens holds at
/// least the tokens it sold.
pub proof fn lemma_finalize_never_overflows(p: PresaleState, vault: Vault, ctx: FinalizeContext)
    requires
        p.service_fee <= 10000,
        p.commission_rate <= 10000,
        p.liquidity_bp <= 10000,
        (if p.affiliate_enabled {
            p.commission_rate as int
        } else {
            0
        }) + p.liquidity_bp <= 10000,
        p.tokens_claimed_by_owner == 0,
        p.presale_type == PresaleType::HardCapped && p.refund_type == RefundType::Burn
            ==> ctx.token_vault_amount >= p.total_tokens_sold,
    ensures
        finalization(p, vault, ctx) != Err::<(PresaleState, Vault, FinalizeOutcome), PresaleError>(
            PresaleError::ArithmeticOverflow,
        ),
{
    lemma_split_defined(
        p.total_raised,
        p.service_fee,
        p.affiliate_enabled,
        p.commission_rate,
        p.liquidity_bp,
    );
}

/// Withdrawing the owner reward twice in a row: the second attempt is
/// refused as already withdrawn, and what the split still owes the owner
/// after the first is zero.
pub proof fn lemma_owner_reward_paid_once(p: PresaleState, vault: Vault, ctx: OwnerContext)
    requires
        owner_withdrawal(p, vault, ctx) is Ok,
    ensures
        ({
            let (p1, v1, _) = owner_withdrawal(p, vault, ctx)->Ok_0;
            &&& owner_withdrawal(p1, v1, ctx) == Err::<(PresaleState, Vault, u64), PresaleError>(
                PresaleError::OwnerRewardWithdrawn,
            )
            &&& split_of(p1) is Some
            &&& split_of(p1)->0.owner_reward == 0
        }),
{
}

/// A current record that holds the same values as an old one, with the
/// migration's version and launchpad type and the factory's manager and admin.
pub open spec fn same_as_migrated(
    direct: PresaleState,
    old: PresaleStateV0,
    manager: Address,
    admin: Address,
) -> bool {
    &&& direct.version == 1
    &&& direct.owner == old.owner
    &&& direct.token == old.token
    &&& direct.token_price == old.token_price
    &&& direct.hard_cap == old.hard_cap
    &&& direct.soft_cap == old.soft_cap
    &&& direct.min_contribution == old.min_contribution
    &&& direct.max_contribution == old.max_contribution
    &&& direct.total_raised == old.total_raised
    &&& direct.start_time == old.start_time
    &&& direct.end_time == old.end_time
    &&& direct.presale_ended == old.presale_ended
    &&& direct.presale_canceled == old.presale_canceled
    &&& direct.presale_refund == old.presale_refund
    &&& direct.is_init == old.is_init
    &&& direct.listing_rate == old.listing_rate
    &&& direct.liquidity_lock_time == old.liquidity_lock_time
    &&& direct.liquidity_bp == old.liquidity_bp
    &&& direct.service_fee == old.service_fee
    &&& direct.refund_type == old.refund_type
    &&& direct.listing_opt == old.listing_opt
    &&& direct.liquidity_type == old.liquidity_type
    &&& direct.listing_platform == old.listing_platform
    &&& direct.fee_collector == old.fee_collector
    &&& direct.identifier == old.identifier
    &&& direct.affiliate_enabled == old.affiliate_enabled
    &&& direct.total_ref_amount == old.total_ref_amount
    &&& direct.commission_rate == old.commission_rate
    &&& direct.total_ref_count == old.total_ref_count
    &&& direct.total_tokens_sold == old.total_tokens_sold
    &&& direct.whitelist_enabled == old.whitelist_enabled
    &&& direct.presale_type == old.presale_type
    &&& direct.tokens_claimed_by_owner == old.tokens_claimed_by_owner
    &&& direct.owner_reward_withdrawn == old.owner_reward_withdrawn
    &&& direct.sol_pool_reserve == old.sol_pool_reserve
    &&& direct.token_pool_reserve == old.token_pool_reserve
    &&& direct.launchpad_type == LaunchpadType::Pro
    &&& direct.manager == manager
    &&& direct.admin == admin
}

/// Migration loses nothing: the migrated record holds every value of the
/// old one, and it finalizes exactly as a record created in the current
/// layout with the same values does.
pub proof fn lemma_migration_is_transparent(
    old: PresaleStateV0,
    manager: Address,
    admin: Address,
    direct: PresaleState,
    vault: Vault,
    ctx: FinalizeContext,
)
    requires
        same_as_migrated(direct, old, manager, admin),
    ensures
        same_as_migrated(migrated(old, manager, admin), old, manager, admin),
        migrated(old, manager, admin) == direct,
        finalization(migrated(old, manager, admin), vault, ctx) == finalization(direct, vault, ctx),
{
}

/// A sale is never both ended and canceled.
pub open spec fn phase_consistent(p: PresaleState) -> bool {
    !(p.presale_ended && p.presale_canceled)
}

/// No lifecycle flag that was set is unset.
pub open spec fn flags_kept(before: PresaleState, after: PresaleState) -> bool {
    &&& before.presale_ended ==> after.presale_ended
    &&& before.presale_canceled ==> after.presale_canceled
    &&& before.presale_refund ==> after.presale_refund
    &&& before.owner_reward_withdrawn ==> after.owner_reward_withdrawn
}

/// The lifecycle only moves forward: contributing, finalizing, canceling,
/// refunding and withdrawing the owner reward never unset a flag, and none
/// of them makes a sale both ended and canceled.
pub proof fn lemma_lifecycle_moves_forward(
    p: PresaleState,
    c: ContributionState,
    vault: Vault,
    contribute_ctx: ContributeContext,
    amount: u64,
    finalize_ctx: FinalizeContext,
    owner_ctx: OwnerContext,
    signer: Seq<u8>,
    user: Seq<u8>,
    now: i64,
)
    requires
        phase_consistent(p),
    ensures
        admission(p, c, vault, contribute_ctx, amount) matches Ok((accepted, tokens)) ==> ({
            let p1 = presale_after_contribution(p, accepted, tokens);
            flags_kept(p, p1) && phase_consistent(p1)
        }),
        finalization(p, vault, finalize_ctx) matches Ok((p1, _, _)) ==> flags_kept(p, p1)
            && phase_consistent(p1),
        cancellation(p, signer) matches Ok(p1) ==> flags_kept(p, p1) && phase_consistent(p1),
        refund(p, c, vault, user, now) matches Ok((p1, _, _, _)) ==> flags_kept(p, p1)
            && phase_consistent(p1),
        owner_withdrawal(p, vault, owner_ctx) matches Ok((p1, _, _)) ==> flags_kept(p, p1)
            && phase_consistent(p1),
{
}

} // verus!

use solana_program::pubkey::Pubkey;

use token_launchpad::access::{
    check_if_user_is_whitelisted,
    is_authorized_to_finalize_presale,
    validate_presale_pda,
    AccountRef,
};
use token_launchpad::address::Address;
use token_launchpad::claims::{
    claim_tokens,
    withdraw_affiliate_commission,
    withdraw_commission,
    withdraw_unsold_tokens,
    ClaimContext,
    UnsoldContext,
};
use token_launchpad::contribution::{
    contribute,
    contribute_affiliate,
    record_contribution,
    ContributeContext,
};
use token_launchpad::error::PresaleError;
use token_launchpad::fees::{
    bp_share,
    calculate_presale_data,
    calculate_presale_data_degen,
    compute_fund_split,
    decimals_factor,
    fair_launch_tokens_for_pool,
    tokens_for_amount,
    FundSplit,
};
use token_launchpad::lifecycle::{
    cancel_presale,
    finalize_presale,
    refund_contributors,
    withdraw_owner_reward,
    wrapped_sol_mint,
    FinalizeContext,
    FinalizeOutcome,
    OwnerContext,
    PoolCheck,
};
use token_launchpad::liquidity::{
    distribute_fee_meteora,
    finalize_lp_lock_burn,
    finalize_presale_init_vault_meteora,
    finalize_presale_meteora_pool,
    finalize_presale_raydium_pool,
    finalize_transfer,
    finalize_wrap_sol,
    withdraw_locked_lp_tokens,
    LpDisposition,
    RaydiumSeed,
    TransferContext,
    UnlockContext,
};
use token_launchpad::setup::{
    configure_presale,
    factory_program_id,
    init_presale,
    decode_stored,
    init_vaults,
    presale_token_deposit,
    InitContext,
    StoredPresale,
    DISCRIMINATOR_LEN,
};
use token_launchpad::codec::{decode_presale_state, encode_presale_state_v0};
use token_launchpad::state::{
    AffiliateReferrerState,
    ContributionState,
    LaunchpadType,
    LiquidityLock,
    LiquidityType,
    ListingOpt,
    ListingPlatform,
    PresaleParams,
    PresaleState,
    PresaleStateV0,
    PresaleType,
    RefundType,
    Vault,
};
use token_launchpad::transfer_fee::{get_transfer_inverse_fee, EpochTransferFee, MintFeeInfo};

const SOL: u64 = 1_000_000_000;
const RENT: u64 = 890_880;
const START: i64 = 1_000;
const END: i64 = 2_000;

fn addr(b: u8) -> Address {
    Address::new([b; 32])
}

fn program() -> Address {
    addr(7)
}

fn mint() -> Address {
    addr(9)
}

fn owner() -> Address {
    addr(1)
}

fn fee_collector() -> Address {
    addr(2)
}

fn identifier() -> Vec<u8> {
    b"sale-1".to_vec()
}

fn pk(a: &Address) -> Pubkey {
    Pubkey::new_from_array(a.bytes)
}

fn presale_key() -> Address {
    let token = pk(&mint());
    let id = identifier();
    let (key, _) = Pubkey::find_program_address(&[b"presale", token.as_ref(), &id], &pk(&program()));
    Address::new(key.to_bytes())
}

fn params(presale_type: PresaleType) -> PresaleParams {
    PresaleParams {
        token_price: 1_000,
        hard_cap: 100 * SOL,
        soft_cap: 10 * SOL,
        min_contribution: SOL / 10,
        max_contribution: 100 * SOL,
        start_time: START,
        end_time: END,
        listing_rate: 2_000,
        liquidity_lock_time: 3_600,
        liquidity_bp: 2000,
        service_fee: 500,
        refund_type: RefundType::Refund,
        listing_opt: ListingOpt::Auto,
        liquidity_type: LiquidityType::Lock,
        listing_platform: ListingPlatform::Meteora,
        identifier: identifier(),
        affiliate_enabled: true,
        whitelist_enabled: false,
        commission_rate: 1000,
        presale_type,
        tokens_allocated: 1_000_000,
        launchpad_type: LaunchpadType::Pro,
        manager: addr(3),
        admin: addr(4),
    }
}

fn sale(presale_type: PresaleType) -> PresaleState {
    configure_presale(params(presale_type), fee_collector(), owner(), mint())
}

fn ctx(user: u8, now: i64) -> ContributeContext {
    ContributeContext {
        user: addr(user),
        presale_key: presale_key(),
        token_key: mint(),
        token_decimals: 6,
        whitelist_entry: AccountRef { key: addr(0), owner: addr(0), lamports: 0 },
        program_id: program(),
        now,
    }
}

fn pool_for(token: &Address) -> PoolCheck {
    let pool_program = addr(5);
    let amm_config = addr(6);
    let wsol = pk(&wrapped_sol_mint());
    let tok = pk(token);
    let (t0, t1) = if wsol >= tok { (wsol, tok) } else { (tok, wsol) };
    let (state, _) = Pubkey::find_program_address(
        &[t0.as_ref(), t1.as_ref(), pk(&amm_config).as_ref()],
        &pk(&pool_program),
    );
    PoolCheck {
        pool_program,
        raydium_cp_swap: addr(8),
        raydium_pool_seed: b"pool".to_vec(),
        amm_config,
        pool_state: Address::new(state.to_bytes()),
        pool_state_lamports: 1,
    }
}

fn finalize_ctx(signer: Address, now: i64) -> FinalizeContext {
    FinalizeContext {
        signer,
        owner: owner(),
        fee_collector: fee_collector(),
        token_mint: mint(),
        token_vault_amount: 0,
        pool: pool_for(&mint()),
        now,
    }
}

fn owner_ctx(now: i64) -> OwnerContext {
    OwnerContext { signer: owner(), presale_key: presale_key(), token_mint: mint(), program_id: program(), now }
}

#[test]
fn finalize_splits_full_raise() {
    let mut p = sale(PresaleType::HardCapped);
    p.total_raised = 100 * SOL;
    let mut vault = Vault { lamports: 100 * SOL + RENT };
    let out = finalize_presale(&mut p, &mut vault, &finalize_ctx(owner(), END + 1)).unwrap();
    assert_eq!(
        out,
        FinalizeOutcome {
            success: true,
            service_fee: 5 * SOL,
            owner_reward: 66_500_000_000,
            tokens_to_burn: 0,
        }
    );
    let split = compute_fund_split(100 * SOL, 500, true, 1000, 2000, 0).unwrap();
    assert_eq!(
        split,
        FundSplit {
            service_fee: 5 * SOL,
            net: 95 * SOL,
            affiliate_reserve: 9_500_000_000,
            liquidity_reserve: 19 * SOL,
            owner_reward: 66_500_000_000,
        }
    );
    assert_eq!(
        split.service_fee + split.owner_reward + split.liquidity_reserve + split.affiliate_reserve,
        100 * SOL
    );
    assert!(p.presale_ended);
    assert!(!p.presale_refund);
    assert_eq!(vault.lamports, 100 * SOL + RENT - 5 * SOL - 66_500_000_000);
    assert_eq!(p.tokens_claimed_by_owner, 66_500_000_000);
    assert!(p.owner_reward_withdrawn);
}

#[test]
fn owner_reward_paid_by_finalize_is_not_paid_again() {
    let mut p = sale(PresaleType::HardCapped);
    p.total_raised = 100 * SOL;
    let mut vault = Vault { lamports: 100 * SOL + RENT };
    let out = finalize_presale(&mut p, &mut vault, &finalize_ctx(owner(), END + 1)).unwrap();
    let after = vault.lamports;
    assert_eq!(
        withdraw_owner_reward(&mut p, &mut vault, &owner_ctx(END + 2)),
        Err(PresaleError::OwnerRewardWithdrawn)
    );
    assert_eq!(vault.lamports, after);
    let still_owed = compute_fund_split(100 * SOL, 500, true, 1000, 2000, p.tokens_claimed_by_owner)
        .unwrap()
        .owner_reward;
    assert_eq!(still_owed, 0);
    assert_eq!(out.owner_reward + still_owed, 95 * SOL - 9_500_000_000 - 19 * SOL);
}

#[test]
fn finalize_below_soft_cap_then_refunds_exactly() {
    let mut p = sale(PresaleType::HardCapped);
    let mut vault = Vault { lamports: RENT };
    let mut a = ContributionState::empty(addr(20));
    let mut b = ContributionState::empty(addr(21));
    assert_eq!(contribute(&mut p, &mut a, &mut vault, &ctx(20, START), 3 * SOL), Ok(3 * SOL));
    assert_eq!(contribute(&mut p, &mut b, &mut vault, &ctx(21, END), 2 * SOL), Ok(2 * SOL));
    assert_eq!(p.total_raised, 5 * SOL);
    let out = finalize_presale(&mut p, &mut vault, &finalize_ctx(owner(), END + 1)).unwrap();
    assert!(!out.success);
    assert_eq!(out.service_fee, 0);
    assert_eq!(out.owner_reward, 0);
    assert!(p.presale_ended && p.presale_refund);
    assert_eq!(vault.lamports, RENT + 5 * SOL);
    assert_eq!(refund_contributors(&mut p, &mut a, &mut vault, &addr(20), END + 2), Ok(3 * SOL));
    assert_eq!(refund_contributors(&mut p, &mut b, &mut vault, &addr(21), END + 2), Ok(2 * SOL));
    assert_eq!((a.amount, a.tokens_purchased, b.amount), (0, 0, 0));
    assert_eq!(vault.lamports, RENT);
    assert_eq!(refund_contributors(&mut p, &mut a, &mut vault, &addr(20), END + 3), Ok(0));
}

#[test]
fn refund_of_another_contributor_is_refused() {
    let mut p = sale(PresaleType::HardCapped);
    p.presale_refund = true;
    let mut c = ContributionState { contributor: addr(20), amount: SOL, tokens_purchased: 5 };
    let mut vault = Vault { lamports: 2 * SOL };
    assert_eq!(
        refund_contributors(&mut p, &mut c, &mut vault, &addr(21), END),
        Err(PresaleError::Unauthorized)
    );
    assert_eq!(c.amount, SOL);
    assert_eq!(vault.lamports, 2 * SOL);
}

#[test]
fn refund_promotes_closed_sale_below_soft_cap() {
    let mut p = sale(PresaleType::FairLaunch);
    p.total_raised = SOL;
    let mut c = ContributionState { contributor: addr(20), amount: SOL, tokens_purchased: 0 };
    let mut vault = Vault { lamports: SOL + RENT };
    assert_eq!(
        refund_contributors(&mut p, &mut c, &mut vault, &addr(20), END),
        Err(PresaleError::PresaleNotRefunded)
    );
    assert!(!p.presale_refund);
    assert_eq!(refund_contributors(&mut p, &mut c, &mut vault, &addr(20), END + 1), Ok(SOL));
    assert!(p.presale_refund);
}

#[test]
fn contributions_sum_to_total_raised() {
    let mut p = sale(PresaleType::HardCapped);
    let mut vault = Vault { lamports: RENT };
    let mut records = vec![
        ContributionState::empty(addr(20)),
        ContributionState::empty(addr(21)),
        ContributionState::empty(addr(22)),
    ];
    let amounts = [SOL, 7 * SOL / 2, 12 * SOL];
    for (i, amount) in amounts.iter().enumerate() {
        let user = 20 + i as u8;
        contribute(&mut p, &mut records[i], &mut vault, &ctx(user, START + 10), *amount).unwrap();
    }
    contribute(&mut p, &mut records[1], &mut vault, &ctx(21, START + 20), SOL).unwrap();
    let sum: u64 = records.iter().map(|c| c.amount).sum();
    assert_eq!(sum, p.total_raised);
    assert_eq!(p.total_raised, SOL + 7 * SOL / 2 + 12 * SOL + SOL);
    assert_eq!(vault.lamports, RENT + p.total_raised);
}

#[test]
fn hard_cap_clamps_contribution() {
    let mut p = sale(PresaleType::HardCapped);
    p.hard_cap = 10 * SOL;
    p.total_raised = 8 * SOL;
    let mut c = ContributionState::empty(addr(20));
    let mut vault = Vault { lamports: RENT };
    assert_eq!(contribute(&mut p, &mut c, &mut vault, &ctx(20, START), 5 * SOL), Ok(2 * SOL));
    assert_eq!(p.total_raised, 10 * SOL);
    assert_eq!(c.amount, 2 * SOL);
    assert_eq!(vault.lamports, RENT + 2 * SOL);
    assert_eq!(
        contribute(&mut p, &mut c, &mut vault, &ctx(20, START), SOL),
        Err(PresaleError::ContributionNotWithinLimits)
    );
    assert_eq!(p.total_raised, 10 * SOL);
}

#[test]
fn hard_capped_contribution_buys_tokens() {
    let mut p = sale(PresaleType::HardCapped);
    let mut c = ContributionState::empty(addr(20));
    let mut vault = Vault { lamports: 0 };
    assert_eq!(contribute(&mut p, &mut c, &mut vault, &ctx(20, START), SOL), Ok(SOL));
    // 1e9 lamports * 1e6 base units / price 1000
    assert_eq!(c.tokens_purchased, 1_000_000_000_000);
    assert_eq!(p.total_tokens_sold, 1_000_000_000_000);
    assert_eq!(c.contributor, addr(20));
}

#[test]
fn degen_contribution_scales_price() {
    let mut p = sale(PresaleType::HardCapped);
    p.launchpad_type = LaunchpadType::Degen;
    p.token_price = 100_000_000_000;
    let mut c = ContributionState::empty(addr(20));
    let mut vault = Vault { lamports: 0 };
    contribute(&mut p, &mut c, &mut vault, &ctx(20, START), SOL).unwrap();
    assert_eq!(c.tokens_purchased, 1_000_000_000_000);
}

#[test]
fn contribution_errors_leave_records_unchanged() {
    let mut p = sale(PresaleType::HardCapped);
    let mut c = ContributionState::empty(addr(20));
    let mut vault = Vault { lamports: 0 };
    assert_eq!(
        contribute(&mut p, &mut c, &mut vault, &ctx(20, START - 1), SOL),
        Err(PresaleError::PresaleNotActive)
    );
    assert_eq!(
        contribute(&mut p, &mut c, &mut vault, &ctx(20, END + 1), SOL),
        Err(PresaleError::PresaleNotActive)
    );
    assert_eq!(
        contribute(&mut p, &mut c, &mut vault, &ctx(20, START), SOL / 100),
        Err(PresaleError::ContributionNotWithinLimits)
    );
    assert_eq!(
        contribute(&mut p, &mut c, &mut vault, &ctx(20, START), 101 * SOL),
        Err(PresaleError::ContributionNotWithinLimits)
    );
    let mut wrong_mint = ctx(20, START);
    wrong_mint.token_key = addr(10);
    assert_eq!(contribute(&mut p, &mut c, &mut vault, &wrong_mint, SOL), Err(PresaleError::Invalid));
    let mut big_decimals = ctx(20, START);
    big_decimals.token_decimals = 20;
    assert_eq!(
        contribute(&mut p, &mut c, &mut vault, &big_decimals, SOL),
        Err(PresaleError::ArithmeticOverflow)
    );
    p.presale_ended = true;
    assert_eq!(
        contribute(&mut p, &mut c, &mut vault, &ctx(20, START), SOL),
        Err(PresaleError::PresaleEnded)
    );
    p.presale_ended = false;
    p.presale_canceled = true;
    assert_eq!(
        contribute(&mut p, &mut c, &mut vault, &ctx(20, START), SOL),
        Err(PresaleError::PresaleCanceled)
    );
    assert_eq!(p.total_raised, 0);
    assert_eq!(c.amount, 0);
    assert_eq!(vault.lamports, 0);
}

#[test]
fn fair_launch_without_ceiling_takes_whole_amount() {
    let mut p = sale(PresaleType::FairLaunch);
    p.max_contribution = 0;
    let mut c = ContributionState::empty(addr(20));
    let mut vault = Vault { lamports: 0 };
    assert_eq!(contribute(&mut p, &mut c, &mut vault, &ctx(20, START), 500 * SOL), Ok(500 * SOL));
    assert_eq!(c.tokens_purchased, 0);
    assert_eq!(p.total_tokens_sold, 1_000_000);
}

#[test]
fn whitelist_gates_contributions() {
    let mut p = sale(PresaleType::HardCapped);
    p.whitelist_enabled = true;
    let mut c = ContributionState::empty(addr(20));
    let mut vault = Vault { lamports: 0 };
    let (entry, _) = Pubkey::find_program_address(
        &[b"whitelist", pk(&presale_key()).as_ref(), pk(&addr(20)).as_ref()],
        &pk(&program()),
    );
    let entry = Address::new(entry.to_bytes());
    let mut call = ctx(20, START);
    call.whitelist_entry = AccountRef { key: addr(30), owner: program(), lamports: 1 };
    assert_eq!(
        contribute(&mut p, &mut c, &mut vault, &call, SOL),
        Err(PresaleError::InvalidWhitelistEntry)
    );
    call.whitelist_entry = AccountRef { key: entry, owner: addr(31), lamports: 1 };
    assert_eq!(
        contribute(&mut p, &mut c, &mut vault, &call, SOL),
        Err(PresaleError::InvalidWhitelistEntry)
    );
    call.whitelist_entry = AccountRef { key: entry, owner: program(), lamports: 0 };
    assert_eq!(
        contribute(&mut p, &mut c, &mut vault, &call, SOL),
        Err(PresaleError::UninitializedWhitelistEntry)
    );
    call.whitelist_entry = AccountRef { key: entry, owner: program(), lamports: 1 };
    assert_eq!(contribute(&mut p, &mut c, &mut vault, &call, SOL), Ok(SOL));
    assert_eq!(
        check_if_user_is_whitelisted(&call.whitelist_entry, &addr(20), &presale_key(), &program()),
        Ok(())
    );
}

#[test]
fn referred_contribution_is_attributed() {
    let mut p = sale(PresaleType::HardCapped);
    let mut c = ContributionState::empty(addr(20));
    let mut vault = Vault { lamports: 0 };
    let mut rs = AffiliateReferrerState::empty();
    let referrer = addr(40);
    assert_eq!(
        contribute_affiliate(&mut p, &mut c, &mut vault, &mut rs, &ctx(20, START), &referrer, 2 * SOL),
        Ok(2 * SOL)
    );
    assert_eq!(rs.referrer, referrer);
    assert_eq!(rs.total_sale, 2 * SOL);
    assert_eq!(p.total_ref_count, 1);
    assert_eq!(p.total_ref_amount, 2 * SOL);
    let mut c2 = ContributionState::empty(addr(21));
    contribute_affiliate(&mut p, &mut c2, &mut vault, &mut rs, &ctx(21, START), &addr(41), SOL).unwrap();
    assert_eq!(rs.referrer, referrer);
    assert_eq!(rs.total_sale, 3 * SOL);
    assert_eq!(p.total_ref_count, 1);
    assert_eq!(p.total_raised, c.amount + c2.amount);
}

#[test]
fn referred_contribution_without_program_is_not_attributed() {
    let mut p = sale(PresaleType::FairLaunch);
    p.affiliate_enabled = false;
    let mut c = ContributionState::empty(addr(20));
    let mut vault = Vault { lamports: 0 };
    let mut rs = AffiliateReferrerState::empty();
    contribute_affiliate(&mut p, &mut c, &mut vault, &mut rs, &ctx(20, START), &addr(40), SOL).unwrap();
    assert_eq!(rs.total_sale, 0);
    assert_eq!(p.total_ref_count, 0);
    assert_eq!(p.total_raised, SOL);
}

#[test]
fn record_contribution_overflow_is_refused() {
    let mut p = sale(PresaleType::HardCapped);
    let mut rs = AffiliateReferrerState::empty();
    rs.total_sale = u64::MAX;
    assert_eq!(record_contribution(&mut rs, &mut p, 1), Err(PresaleError::ArithmeticOverflow));
    assert_eq!(p.total_ref_amount, 0);
    rs.total_sale = 0;
    assert_eq!(record_contribution(&mut rs, &mut p, 5), Ok(()));
    assert_eq!((rs.total_sale, p.total_ref_amount, p.total_ref_count), (5, 5, 1));
}

#[test]
fn split_with_prior_claims_sums_to_total() {
    let claimed = 3 * SOL;
    let s = compute_fund_split(40 * SOL, 250, true, 700, 3000, claimed).unwrap();
    assert_eq!(s.service_fee, SOL);
    assert_eq!(s.net, 39 * SOL);
    assert_eq!(s.affiliate_reserve, 2_730_000_000);
    assert_eq!(s.liquidity_reserve, 11_700_000_000);
    assert_eq!(
        s.service_fee + s.owner_reward + s.liquidity_reserve + s.affiliate_reserve + claimed,
        40 * SOL
    );
    assert_eq!(
        compute_fund_split(40 * SOL, 250, true, 10000, 10000, 0),
        Err(PresaleError::ArithmeticOverflow)
    );
    let no_affiliate = compute_fund_split(40 * SOL, 250, false, 10000, 2000, 0).unwrap();
    assert_eq!(no_affiliate.affiliate_reserve, 0);
}

#[test]
fn split_of_whole_fee_leaves_nothing() {
    let s = compute_fund_split(7, 10000, true, 10000, 0, 0).unwrap();
    assert_eq!((s.service_fee, s.net, s.owner_reward), (7, 0, 0));
    assert_eq!(compute_fund_split(10_000, 10001, false, 0, 0, 0), Err(PresaleError::ArithmeticOverflow));
    assert_eq!(compute_fund_split(7, 10001, false, 0, 0, 0).unwrap().net, 0);
}

#[test]
fn owner_reward_is_paid_once() {
    let mut p = sale(PresaleType::HardCapped);
    p.total_raised = 100 * SOL;
    p.presale_ended = true;
    let mut vault = Vault { lamports: 100 * SOL + RENT };
    assert_eq!(withdraw_owner_reward(&mut p, &mut vault, &owner_ctx(END + 1)), Ok(66_500_000_000));
    assert!(p.owner_reward_withdrawn);
    assert_eq!(p.tokens_claimed_by_owner, 66_500_000_000);
    let after = vault.lamports;
    assert_eq!(
        withdraw_owner_reward(&mut p, &mut vault, &owner_ctx(END + 2)),
        Err(PresaleError::OwnerRewardWithdrawn)
    );
    assert_eq!(vault.lamports, after);
    assert_eq!(compute_fund_split(100 * SOL, 500, true, 1000, 2000, p.tokens_claimed_by_owner).unwrap().owner_reward, 0);
    assert_eq!(cancel_presale(&mut p, &owner()), Err(PresaleError::PresaleEnded));
}

#[test]
fn owner_reward_errors() {
    let mut p = sale(PresaleType::HardCapped);
    p.total_raised = 20 * SOL;
    let mut vault = Vault { lamports: SOL };
    assert_eq!(
        withdraw_owner_reward(&mut p, &mut vault, &owner_ctx(END)),
        Err(PresaleError::PresaleNotEnded)
    );
    let mut stranger = owner_ctx(END + 1);
    stranger.signer = addr(50);
    assert_eq!(withdraw_owner_reward(&mut p, &mut vault, &stranger), Err(PresaleError::Unauthorized));
    let mut wrong_key = owner_ctx(END + 1);
    wrong_key.presale_key = addr(51);
    assert_eq!(withdraw_owner_reward(&mut p, &mut vault, &wrong_key), Err(PresaleError::Invalid));
    assert_eq!(
        withdraw_owner_reward(&mut p, &mut vault, &owner_ctx(END + 1)),
        Err(PresaleError::InsufficientFunds)
    );
    p.presale_refund = true;
    assert_eq!(
        withdraw_owner_reward(&mut p, &mut vault, &owner_ctx(END + 1)),
        Err(PresaleError::PresaleFinalizationPreconditionsNotMet)
    );
    assert_eq!(p.tokens_claimed_by_owner, 0);
}

#[test]
fn cancel_rules() {
    let mut p = sale(PresaleType::HardCapped);
    assert_eq!(cancel_presale(&mut p, &addr(50)), Err(PresaleError::Unauthorized));
    p.owner_reward_withdrawn = true;
    assert_eq!(cancel_presale(&mut p, &owner()), Err(PresaleError::OwnerRewardWithdrawn));
    p.owner_reward_withdrawn = false;
    assert_eq!(cancel_presale(&mut p, &owner()), Ok(()));
    assert!(p.presale_canceled && p.presale_refund);
}

#[test]
fn finalize_errors() {
    let mut p = sale(PresaleType::HardCapped);
    p.total_raised = 20 * SOL;
    let mut vault = Vault { lamports: 20 * SOL + RENT };
    let mut c = finalize_ctx(addr(50), END + 1);
    assert_eq!(finalize_presale(&mut p, &mut vault, &c), Err(PresaleError::Unauthorized));
    c.signer = owner();
    c.now = END;
    assert_eq!(finalize_presale(&mut p, &mut vault, &c), Err(PresaleError::PresaleNotEnded));
    c.now = END + 1;
    c.fee_collector = addr(52);
    assert_eq!(finalize_presale(&mut p, &mut vault, &c), Err(PresaleError::InvalidFeeCollector));
    c.fee_collector = fee_collector();
    c.token_mint = addr(53);
    assert_eq!(finalize_presale(&mut p, &mut vault, &c), Err(PresaleError::InvalidTokenMint));
    c.token_mint = mint();
    c.owner = addr(54);
    assert_eq!(finalize_presale(&mut p, &mut vault, &c), Err(PresaleError::Unauthorized));
    c.owner = owner();
    c.pool.pool_state = addr(55);
    assert_eq!(finalize_presale(&mut p, &mut vault, &c), Err(PresaleError::InvalidRaydiumPoolState));
    c.pool = pool_for(&mint());
    c.pool.pool_state_lamports = 0;
    assert_eq!(finalize_presale(&mut p, &mut vault, &c), Err(PresaleError::InvalidRaydiumAmmConfig));
    c.pool.pool_state_lamports = 1;
    let mut poor = Vault { lamports: SOL };
    assert_eq!(finalize_presale(&mut p, &mut poor, &c), Err(PresaleError::InsufficientFunds));
    assert!(!p.presale_ended);
    p.presale_canceled = true;
    assert_eq!(
        finalize_presale(&mut p, &mut vault, &c),
        Err(PresaleError::PresaleFinalizationPreconditionsNotMet)
    );
}

#[test]
fn finalize_burns_unsold_tokens() {
    let mut p = sale(PresaleType::HardCapped);
    p.refund_type = RefundType::Burn;
    p.total_raised = 100 * SOL;
    p.total_tokens_sold = 700;
    let mut vault = Vault { lamports: 100 * SOL + RENT };
    let mut c = finalize_ctx(owner(), END);
    c.token_vault_amount = 1_000;
    let out = finalize_presale(&mut p, &mut vault, &c).unwrap();
    assert_eq!(out.tokens_to_burn, 300);
}

#[test]
fn admin_may_finalize_only_within_grace_window() {
    let p = sale(PresaleType::HardCapped);
    assert!(is_authorized_to_finalize_presale(&p, &owner(), i64::MAX));
    assert!(is_authorized_to_finalize_presale(&p, &addr(4), END + 259_199));
    assert!(!is_authorized_to_finalize_presale(&p, &addr(4), END + 259_200));
    assert!(!is_authorized_to_finalize_presale(&p, &addr(3), END));
    let mut degen = sale(PresaleType::HardCapped);
    degen.launchpad_type = LaunchpadType::Degen;
    assert!(is_authorized_to_finalize_presale(&degen, &addr(3), i64::MAX));
}

#[test]
fn presale_address_matches_ledger_derivation() {
    let p = sale(PresaleType::HardCapped);
    let (key, bump) = Pubkey::find_program_address(
        &[b"presale", pk(&mint()).as_ref(), &identifier()],
        &pk(&program()),
    );
    assert_eq!(validate_presale_pda(&p, &Address::new(key.to_bytes()), &mint(), &program()), Ok(bump));
    assert_eq!(validate_presale_pda(&p, &mint(), &mint(), &program()), Err(PresaleError::Invalid));
    let mut long = p.clone();
    long.identifier = vec![1u8; 40];
    assert_eq!(
        validate_presale_pda(&long, &presale_key(), &mint(), &program()),
        Err(PresaleError::UnableToCreateProgramAddress)
    );
}

#[test]
fn claim_hard_capped_tokens_once() {
    let mut p = sale(PresaleType::HardCapped);
    p.presale_ended = true;
    let mut c = ContributionState { contributor: addr(20), amount: SOL, tokens_purchased: 42 };
    let claim = ClaimContext { user: addr(20), presale_key: presale_key(), token_mint: mint(), program_id: program() };
    assert_eq!(claim_tokens(&p, &mut c, &claim), Ok(42));
    assert_eq!((c.amount, c.tokens_purchased), (0, 0));
    assert_eq!(claim_tokens(&p, &mut c, &claim), Err(PresaleError::NoTokensToClaim));
}

#[test]
fn claim_fair_launch_share() {
    let mut p = sale(PresaleType::FairLaunch);
    p.presale_ended = true;
    p.total_raised = 10 * SOL;
    p.total_tokens_sold = 1_000;
    let mut c = ContributionState { contributor: addr(20), amount: 3 * SOL, tokens_purchased: 0 };
    let claim = ClaimContext { user: addr(20), presale_key: presale_key(), token_mint: mint(), program_id: program() };
    assert_eq!(claim_tokens(&p, &mut c, &claim), Ok(300));
    let mut odd = ContributionState { contributor: addr(20), amount: 1, tokens_purchased: 0 };
    p.total_raised = 3;
    assert_eq!(claim_tokens(&p, &mut odd, &claim), Ok(333));
}

#[test]
fn claim_errors() {
    let mut p = sale(PresaleType::HardCapped);
    let mut c = ContributionState { contributor: addr(20), amount: SOL, tokens_purchased: 1 };
    let claim = ClaimContext { user: addr(20), presale_key: presale_key(), token_mint: mint(), program_id: program() };
    assert_eq!(claim_tokens(&p, &mut c, &claim), Err(PresaleError::PresaleNotFinalized));
    p.presale_ended = true;
    p.presale_refund = true;
    assert_eq!(claim_tokens(&p, &mut c, &claim), Err(PresaleError::PresaleRefund));
    p.presale_refund = false;
    p.presale_canceled = true;
    assert_eq!(claim_tokens(&p, &mut c, &claim), Err(PresaleError::PresaleCanceled));
    p.presale_canceled = false;
    let other = ClaimContext { user: addr(21), ..claim };
    assert_eq!(claim_tokens(&p, &mut c, &other), Err(PresaleError::Invalid));
    assert_eq!(c.amount, SOL);
}

#[test]
fn affiliate_commission_paid_once() {
    let mut p = sale(PresaleType::HardCapped);
    p.total_raised = 100 * SOL;
    let mut rs = AffiliateReferrerState { referrer: addr(40), total_sale: 10 * SOL, is_reward_claimed: false };
    let mut vault = Vault { lamports: 100 * SOL };
    assert_eq!(withdraw_affiliate_commission(&p, &mut rs, &mut vault), Err(PresaleError::Invalid));
    p.presale_ended = true;
    // pool 9.5 SOL; share 9.5/95 = 1000 bp; 9.5 SOL * 1000 / 10000
    assert_eq!(withdraw_affiliate_commission(&p, &mut rs, &mut vault), Ok(950_000_000));
    assert!(rs.is_reward_claimed);
    assert_eq!(vault.lamports, 100 * SOL - 950_000_000);
    assert_eq!(withdraw_commission(&p, &mut rs, &mut vault), Err(PresaleError::Invalid));
    let mut nobody = AffiliateReferrerState::empty();
    assert_eq!(withdraw_commission(&p, &mut nobody, &mut vault), Err(PresaleError::Invalid));
}

#[test]
fn no_commission_from_unsuccessful_sale() {
    let mut p = sale(PresaleType::HardCapped);
    p.total_raised = 5 * SOL;
    p.presale_ended = true;
    p.presale_refund = true;
    let mut rs = AffiliateReferrerState { referrer: addr(40), total_sale: SOL, is_reward_claimed: false };
    let mut vault = Vault { lamports: 10 * SOL };
    assert_eq!(withdraw_affiliate_commission(&p, &mut rs, &mut vault), Err(PresaleError::PresaleRefund));
    p.presale_canceled = true;
    assert_eq!(withdraw_affiliate_commission(&p, &mut rs, &mut vault), Err(PresaleError::PresaleCanceled));
    assert!(!rs.is_reward_claimed);
    assert_eq!(vault.lamports, 10 * SOL);
}

#[test]
fn unsold_tokens_of_hard_capped_sale() {
    let mut p = sale(PresaleType::HardCapped);
    p.total_raised = 50 * SOL;
    let unsold = UnsoldContext {
        signer: owner(),
        presale_key: presale_key(),
        token_mint: mint(),
        token_decimals: 6,
        program_id: program(),
        token_vault_balance: 777,
    };
    assert_eq!(withdraw_unsold_tokens(&p, &unsold), Err(PresaleError::PresaleEndedOrCanceled));
    p.presale_ended = true;
    let full = calculate_presale_data(100 * SOL as u128, 500, 2000, 1_000_000, 1_000, 2_000).unwrap().3;
    let actual = calculate_presale_data(50 * SOL as u128, 500, 2000, 1_000_000, 1_000, 2_000).unwrap().3;
    assert_eq!(withdraw_unsold_tokens(&p, &unsold), Ok(full - actual));
    p.presale_ended = false;
    p.presale_canceled = true;
    assert_eq!(withdraw_unsold_tokens(&p, &unsold), Ok(777));
    let stranger = UnsoldContext { signer: addr(50), ..unsold };
    assert_eq!(withdraw_unsold_tokens(&p, &stranger), Err(PresaleError::Unauthorized));
}

#[test]
fn unsold_tokens_of_fair_launch() {
    let mut p = sale(PresaleType::FairLaunch);
    let unsold = UnsoldContext {
        signer: owner(),
        presale_key: presale_key(),
        token_mint: mint(),
        token_decimals: 6,
        program_id: program(),
        token_vault_balance: 0,
    };
    assert_eq!(withdraw_unsold_tokens(&p, &unsold), Err(PresaleError::PresaleNotCancelled));
    p.presale_canceled = true;
    // 1_000_000 allocated; net 95%; 20% of that to the pool
    assert_eq!(withdraw_unsold_tokens(&p, &unsold), Ok(1_000_000 + 190_000));
}

#[test]
fn presale_data_exact() {
    // cap 100 SOL, fee 5%, liquidity 20% of net, 6 decimals, price 1000, listing rate 2000
    let (liq, sold, paired, total) =
        calculate_presale_data(100 * SOL as u128, 500, 2000, 1_000_000, 1_000, 2_000).unwrap();
    assert_eq!(liq, 19 * SOL);
    assert_eq!(sold, 100_000_000_000_000);
    assert_eq!(paired, 9_500_000_000_000);
    assert_eq!(total, sold + paired);
    let degen = calculate_presale_data_degen(100 * SOL as u128, 500, 2000, 1_000_000, 100_000_000_000, 200_000_000_000)
        .unwrap();
    assert_eq!(degen, (liq, sold, paired, total));
    assert_eq!(
        calculate_presale_data(100 * SOL as u128, 500, 2000, 1_000_000, 0, 2_000),
        Err(PresaleError::ArithmeticOverflow)
    );
    assert_eq!(
        calculate_presale_data(10_000, 10001, 0, 1, 1, 1),
        Err(PresaleError::ArithmeticOverflow)
    );
}

#[test]
fn small_calculators() {
    assert_eq!(bp_share(10_000, 1), Some(1));
    assert_eq!(bp_share(9_999, 1), Some(0));
    assert_eq!(bp_share(u64::MAX, 20000), None);
    assert_eq!(decimals_factor(0), Some(1));
    assert_eq!(decimals_factor(19), Some(10_000_000_000_000_000_000));
    assert_eq!(decimals_factor(20), None);
    assert_eq!(tokens_for_amount(3, 10, false, 4), Some(7));
    assert_eq!(tokens_for_amount(3, 10, true, 4), Some(750_000_000));
    assert_eq!(tokens_for_amount(3, 10, false, 0), None);
    assert_eq!(fair_launch_tokens_for_pool(1_000_000, 500, 2000), Some(190_000));
    assert_eq!(fair_launch_tokens_for_pool(1_000_000, 10001, 2000), None);
}

#[test]
fn inverse_transfer_fee_cases() {
    let legacy = MintFeeInfo { legacy_token_program: true, epoch_fee: None };
    assert_eq!(get_transfer_inverse_fee(&legacy, 0), Ok(0));
    let plain = MintFeeInfo { legacy_token_program: false, epoch_fee: None };
    assert_eq!(get_transfer_inverse_fee(&plain, 0), Err(PresaleError::Invalid));
    assert_eq!(get_transfer_inverse_fee(&plain, 5), Ok(0));
    let whole = MintFeeInfo {
        legacy_token_program: false,
        epoch_fee: Some(EpochTransferFee { basis_points: 10000, maximum_fee: 77 }),
    };
    assert_eq!(get_transfer_inverse_fee(&whole, 5), Ok(77));
    let one_percent = MintFeeInfo {
        legacy_token_program: false,
        epoch_fee: Some(EpochTransferFee { basis_points: 100, maximum_fee: 1_000_000_000 }),
    };
    assert_eq!(get_transfer_inverse_fee(&one_percent, 10_000), Ok(102));
    let capped = MintFeeInfo {
        legacy_token_program: false,
        epoch_fee: Some(EpochTransferFee { basis_points: 100, maximum_fee: 50 }),
    };
    assert_eq!(get_transfer_inverse_fee(&capped, 10_000), Ok(50));
    let quarter = MintFeeInfo {
        legacy_token_program: false,
        epoch_fee: Some(EpochTransferFee { basis_points: 250, maximum_fee: 1_000_000_000_000 }),
    };
    assert_eq!(get_transfer_inverse_fee(&quarter, 1_000_000), Ok(25_642));
}

#[test]
fn finalize_transfer_records_reserves() {
    let mut p = sale(PresaleType::HardCapped);
    p.total_raised = 100 * SOL;
    let mut vault = Vault { lamports: 100 * SOL };
    let t = TransferContext {
        signer: owner(),
        presale_key: presale_key(),
        token_mint: mint(),
        token_decimals: 6,
        program_id: program(),
        now: END + 1,
    };
    assert_eq!(finalize_transfer(&mut p, &mut vault, &t), Err(PresaleError::PresaleNotFinalized));
    p.presale_ended = true;
    p.presale_refund = true;
    assert_eq!(finalize_transfer(&mut p, &mut vault, &t), Err(PresaleError::PresaleRefund));
    assert_eq!((p.sol_pool_reserve, vault.lamports), (0, 100 * SOL));
    p.presale_refund = false;
    assert_eq!(finalize_transfer(&mut p, &mut vault, &t), Ok(19 * SOL));
    assert_eq!(p.sol_pool_reserve, 19 * SOL);
    assert_eq!(p.token_pool_reserve, 9_500_000_000_000);
    assert_eq!(vault.lamports, 81 * SOL);
    let mut poor = Vault { lamports: 19 * SOL };
    assert_eq!(finalize_transfer(&mut p, &mut poor, &t), Err(PresaleError::InsufficientFunds));
    let mut fair = sale(PresaleType::FairLaunch);
    fair.total_raised = 100 * SOL;
    fair.presale_ended = true;
    let mut vault = Vault { lamports: 100 * SOL };
    assert_eq!(finalize_transfer(&mut fair, &mut vault, &t), Ok(19 * SOL));
    assert_eq!(fair.token_pool_reserve, 190_000);
}

#[test]
fn pool_seeding_amounts() {
    let mut p = sale(PresaleType::HardCapped);
    p.sol_pool_reserve = 19 * SOL;
    p.token_pool_reserve = 10_000;
    assert_eq!(
        finalize_presale_meteora_pool(&p, &owner(), END + 1),
        Err(PresaleError::PresaleNotFinalized)
    );
    p.presale_ended = true;
    assert_eq!(
        finalize_presale_meteora_pool(&p, &owner(), END + 1),
        Ok((10_000, 19 * SOL))
    );
    assert_eq!(finalize_presale_init_vault_meteora(&p, &owner(), END + 1), Ok(()));
    assert_eq!(finalize_wrap_sol(&p, &addr(50), END + 1), Err(PresaleError::Unauthorized));
    let mint_fee = MintFeeInfo {
        legacy_token_program: false,
        epoch_fee: Some(EpochTransferFee { basis_points: 100, maximum_fee: 1_000_000_000 }),
    };
    assert_eq!(
        finalize_presale_raydium_pool(&p, &owner(), END + 1, &mint_fee, &wrapped_sol_mint()),
        Err(PresaleError::InvalidListingPlatform)
    );
    p.listing_platform = ListingPlatform::Raydium;
    assert_eq!(
        finalize_presale_raydium_pool(&p, &owner(), END + 1, &mint_fee, &wrapped_sol_mint()),
        Ok(RaydiumSeed {
            sol_amount: 19 * SOL,
            token_amount: 10_102,
            token_0_amount: 19 * SOL,
            token_1_amount: 10_000,
        })
    );
    let flipped = finalize_presale_raydium_pool(&p, &owner(), END + 1, &mint_fee, &mint()).unwrap();
    assert_eq!((flipped.token_0_amount, flipped.token_1_amount), (10_000, 19 * SOL));
    assert_eq!(
        finalize_presale_meteora_pool(&p, &owner(), END + 1),
        Err(PresaleError::InvalidListingPlatform)
    );
}

#[test]
fn liquidity_lock_and_release() {
    let mut p = sale(PresaleType::HardCapped);
    let mut lock = LiquidityLock { owner: addr(0), unlock_time: 0, locked_amount: 0 };
    assert_eq!(finalize_lp_lock_burn(&p, &mut lock, &owner(), END, 500), Err(PresaleError::PresaleNotEnded));
    assert_eq!(
        finalize_lp_lock_burn(&p, &mut lock, &owner(), END + 10, 500),
        Err(PresaleError::PresaleNotFinalized)
    );
    p.presale_ended = true;
    assert_eq!(finalize_lp_lock_burn(&p, &mut lock, &owner(), END + 10, 500), Ok(LpDisposition::Lock(500)));
    assert_eq!(lock.owner, owner());
    assert_eq!(lock.unlock_time, END + 10 + 3_600);
    let unlock = UnlockContext {
        signer: owner(),
        presale_key: presale_key(),
        token_mint: mint(),
        program_id: program(),
        now: END + 10 + 3_600,
    };
    assert_eq!(withdraw_locked_lp_tokens(&p, &mut lock, &unlock), Err(PresaleError::LiquidityLocked));
    let later = UnlockContext { now: END + 10 + 3_601, ..unlock };
    assert_eq!(withdraw_locked_lp_tokens(&p, &mut lock, &later), Ok(500));
    assert_eq!(lock.locked_amount, 0);
    let stranger = UnlockContext { signer: addr(50), ..later };
    assert_eq!(withdraw_locked_lp_tokens(&p, &mut lock, &stranger), Err(PresaleError::Unauthorized));
    let mut burner = sale(PresaleType::HardCapped);
    burner.liquidity_type = LiquidityType::Burn;
    burner.presale_ended = true;
    let mut untouched = LiquidityLock { owner: addr(0), unlock_time: 0, locked_amount: 0 };
    assert_eq!(
        finalize_lp_lock_burn(&burner, &mut untouched, &owner(), END + 10, 500),
        Ok(LpDisposition::Burn(500))
    );
    assert_eq!(untouched.locked_amount, 0);
}

#[test]
fn meteora_fee_distribution() {
    let p = sale(PresaleType::HardCapped);
    assert_eq!(distribute_fee_meteora(&p, &fee_collector(), &owner(), 1_001, 100), Ok((500, 501)));
    assert_eq!(
        distribute_fee_meteora(&p, &fee_collector(), &owner(), 1_000, 500),
        Err(PresaleError::PlatformProfitTooLow)
    );
    assert_eq!(
        distribute_fee_meteora(&p, &owner(), &owner(), 1_000, 0),
        Err(PresaleError::InvalidFeeCollector)
    );
    assert_eq!(
        distribute_fee_meteora(&p, &fee_collector(), &addr(50), 1_000, 0),
        Err(PresaleError::InvalidFeeCollector)
    );
    assert_eq!(
        distribute_fee_meteora(&p, &fee_collector(), &owner(), u64::MAX, 0),
        Err(PresaleError::ArithmeticOverflow)
    );
}

#[test]
fn creation_requires_factory_signature() {
    let mut p = sale(PresaleType::FairLaunch);
    p.is_init = false;
    let init = InitContext {
        factory_owner: addr(60),
        factory_signed: true,
        fee_collector: fee_collector(),
        owner: owner(),
        mint: mint(),
    };
    assert_eq!(init_presale(&mut p, params(PresaleType::FairLaunch), &init), Err(PresaleError::Unauthorized));
    let unsigned = InitContext { factory_owner: factory_program_id(), factory_signed: false, ..init };
    assert_eq!(init_presale(&mut p, params(PresaleType::FairLaunch), &unsigned), Err(PresaleError::Unauthorized));
    let good = InitContext { factory_owner: factory_program_id(), ..init };
    let mut too_high = params(PresaleType::FairLaunch);
    too_high.commission_rate = 10001;
    assert_eq!(init_presale(&mut p, too_high, &good), Err(PresaleError::Invalid));
    assert!(!p.is_init);
    assert_eq!(init_presale(&mut p, params(PresaleType::FairLaunch), &good), Ok(()));
    assert!(p.is_init);
    assert_eq!(p.total_tokens_sold, 1_000_000);
    assert_eq!(p.liquidity_lock_time, 3_600);
    assert_eq!(init_presale(&mut p, params(PresaleType::FairLaunch), &good), Err(PresaleError::Invalid));
    let mut burn = params(PresaleType::HardCapped);
    burn.liquidity_type = LiquidityType::Burn;
    let q = configure_presale(burn, fee_collector(), owner(), mint());
    assert_eq!(q.liquidity_lock_time, 0);
    assert_eq!(q.total_tokens_sold, 0);
    assert_eq!(q.version, 1);
}

fn old_record() -> PresaleStateV0 {
    let p = sale(PresaleType::HardCapped);
    PresaleStateV0 {
        owner: p.owner,
        token: p.token,
        token_price: p.token_price,
        hard_cap: p.hard_cap,
        soft_cap: p.soft_cap,
        min_contribution: p.min_contribution,
        max_contribution: p.max_contribution,
        total_raised: 100 * SOL,
        start_time: p.start_time,
        end_time: p.end_time,
        presale_ended: false,
        presale_canceled: false,
        presale_refund: false,
        is_init: true,
        listing_rate: p.listing_rate,
        liquidity_lock_time: p.liquidity_lock_time,
        liquidity_bp: p.liquidity_bp,
        service_fee: p.service_fee,
        refund_type: p.refund_type,
        listing_opt: p.listing_opt,
        liquidity_type: p.liquidity_type,
        listing_platform: p.listing_platform,
        fee_collector: p.fee_collector,
        identifier: p.identifier.clone(),
        affiliate_enabled: p.affiliate_enabled,
        total_ref_amount: 11,
        commission_rate: p.commission_rate,
        total_ref_count: 2,
        total_tokens_sold: 12_345,
        whitelist_enabled: p.whitelist_enabled,
        presale_type: p.presale_type,
        tokens_claimed_by_owner: 0,
        owner_reward_withdrawn: false,
        sol_pool_reserve: 13,
        token_pool_reserve: 14,
    }
}

#[test]
fn migration_keeps_every_field() {
    let old = old_record();
    let manager = addr(3);
    let admin = addr(4);
    let (m, top_up) = PresaleState::migrate_to_v1(old.clone(), &manager, &admin, 1_000, 1_500);
    assert_eq!(top_up, 500);
    assert_eq!(m.version, 1);
    assert_eq!(m.manager, manager);
    assert_eq!(m.admin, admin);
    assert_eq!(m.launchpad_type, LaunchpadType::Pro);
    // the caller who pays for the migration gains no authority over the sale
    assert!(!is_authorized_to_finalize_presale(&m, &addr(70), END));
    assert_eq!(m.total_raised, old.total_raised);
    assert_eq!(m.total_ref_amount, 11);
    assert_eq!(m.total_ref_count, 2);
    assert_eq!(m.total_tokens_sold, 12_345);
    assert_eq!((m.sol_pool_reserve, m.token_pool_reserve), (13, 14));
    assert_eq!(m.identifier, old.identifier);
    let (_, none) = PresaleState::migrate_to_v1(old.clone(), &manager, &admin, 1_500, 1_000);
    assert_eq!(none, 0);

    let mut direct = sale(PresaleType::HardCapped);
    direct.total_raised = 100 * SOL;
    direct.total_ref_amount = 11;
    direct.total_ref_count = 2;
    direct.total_tokens_sold = 12_345;
    direct.sol_pool_reserve = 13;
    direct.token_pool_reserve = 14;
    let (mut migrated, _) =
        PresaleState::deserialize_data(StoredPresale::V0(old), &manager, &admin, 1_000, 1_000);
    let mut v1 = Vault { lamports: 100 * SOL + RENT };
    let mut v2 = Vault { lamports: 100 * SOL + RENT };
    let a = finalize_presale(&mut migrated, &mut v1, &finalize_ctx(owner(), END + 1));
    let b = finalize_presale(&mut direct, &mut v2, &finalize_ctx(owner(), END + 1));
    assert_eq!(a, b);
    assert_eq!(v1.lamports, v2.lamports);
    assert_eq!(migrated.presale_ended, direct.presale_ended);

    let current = sale(PresaleType::FairLaunch);
    let (same, nothing) =
        PresaleState::deserialize_data(StoredPresale::V1(current.clone()), &addr(70), &addr(71), 0, 9);
    assert_eq!(nothing, 0);
    assert_eq!(same.launchpad_type, current.launchpad_type);
    assert_eq!(same.manager, current.manager);
}

#[test]
fn address_order_is_bytewise() {
    let a = Address::new([0u8; 32]);
    let mut high = [0u8; 32];
    high[31] = 1;
    let b = Address::new(high);
    assert!(a.le(&b));
    assert!(!b.le(&a));
    assert!(a.le(&a));
    assert!(a.same_as(&Address::zero()));
    assert!(!a.same_as(&b));
    assert_eq!(b.to_vec().len(), 32);
    assert_eq!(pk(&wrapped_sol_mint()).to_string(), "So11111111111111111111111111111111111111112");
    assert_eq!(pk(&factory_program_id()).to_string(), "2e52Hn9bP9B1wJ6Ehy6T9y9Fmzd33poU3tSoCySYyqmj");
}

#[test]
fn vault_keeps_more_than_it_pays() {
    let mut v = Vault { lamports: 10 };
    assert_eq!(v.debit(10), Err(PresaleError::InsufficientFunds));
    assert_eq!(v.lamports, 10);
    assert_eq!(v.debit(9), Ok(()));
    assert_eq!(v.lamports, 1);
    assert_eq!(PresaleError::Unauthorized.message(), "not authorized");
}

#[test]
fn vault_setup_requires_factory_signature() {
    assert_eq!(init_vaults(&addr(60), true, &owner()), Err(PresaleError::Unauthorized));
    assert_eq!(init_vaults(&factory_program_id(), false, &owner()), Err(PresaleError::Unauthorized));
    assert_eq!(init_vaults(&factory_program_id(), true, &owner()), Ok(owner()));
}

#[test]
fn stored_record_round_trips() {
    let mut p = sale(PresaleType::FairLaunch);
    p.start_time = -5;
    p.total_raised = 0x0102_0304_0506_0708;
    p.presale_refund = true;
    let body = p.serialize_data();
    // every field at its width, the identifier with its four-byte length
    assert_eq!(body.len(), 337 - (25 - identifier().len()));
    assert_eq!(body[0], 1);
    assert_eq!(&body[1..33], &owner().bytes[..]);
    let raised_at = 1 + 32 + 32 + 8 * 5;
    assert_eq!(&body[raised_at..raised_at + 8], &[8, 7, 6, 5, 4, 3, 2, 1]);
    assert_eq!(&body[raised_at + 8..raised_at + 16], &(-5i64).to_le_bytes());
    let mut data = vec![0xAAu8; DISCRIMINATOR_LEN];
    data.extend_from_slice(&body);
    data.extend_from_slice(&[0u8; 19]);
    match decode_stored(&data, 313) {
        Some(StoredPresale::V1(q)) => assert_eq!(format!("{:?}", q), format!("{:?}", p)),
        _ => panic!("a current record must decode"),
    }
    let (q, end) = decode_presale_state(&data, DISCRIMINATOR_LEN).unwrap();
    assert_eq!(end, DISCRIMINATOR_LEN + body.len());
    assert_eq!(q.identifier, identifier());
    assert!(decode_stored(&data[..7].to_vec(), 313).is_none());
    let mut bad = data.clone();
    bad[DISCRIMINATOR_LEN + 1 + 32 + 32 + 8 * 6 + 16] = 2;
    assert!(decode_stored(&bad, 313).is_none());
    assert!(decode_stored(&data[..DISCRIMINATOR_LEN + 100].to_vec(), 313).is_none());
}

#[test]
fn old_record_is_read_by_its_length_and_migrated() {
    let old = old_record();
    let body = encode_presale_state_v0(&old);
    let mut data = vec![0u8; DISCRIMINATOR_LEN];
    data.extend_from_slice(&body);
    let v0_len = data.len() + 10;
    data.resize(v0_len, 0);
    let stored = decode_stored(&data, v0_len).unwrap();
    assert!(matches!(stored, StoredPresale::V0(_)));
    let (m, top_up) = PresaleState::deserialize_data(stored, &addr(3), &addr(4), 100, 250);
    assert_eq!(top_up, 150);
    assert_eq!(m.total_ref_count, 2);
    assert_eq!(m.total_tokens_sold, 12_345);
    assert_eq!(m.manager, addr(3));
    assert_eq!(m.admin, addr(4));
    assert_eq!(m.identifier, identifier());
}

#[test]
fn owner_deposit_covers_allocation_and_fees() {
    let legacy = MintFeeInfo { legacy_token_program: true, epoch_fee: None };
    assert_eq!(
        presale_token_deposit(
            PresaleType::HardCapped,
            LaunchpadType::Pro,
            100 * SOL,
            500,
            2000,
            6,
            1_000,
            2_000,
            0,
            &legacy,
        ),
        Ok(109_500_000_000_000)
    );
    assert_eq!(
        presale_token_deposit(
            PresaleType::FairLaunch,
            LaunchpadType::Pro,
            0,
            500,
            2000,
            6,
            0,
            0,
            1_000_000,
            &legacy,
        ),
        Ok(1_190_000_000_000)
    );
    let one_percent = MintFeeInfo {
        legacy_token_program: false,
        epoch_fee: Some(EpochTransferFee { basis_points: 100, maximum_fee: 1_000_000_000_000_000 }),
    };
    assert_eq!(
        presale_token_deposit(
            PresaleType::FairLaunch,
            LaunchpadType::Degen,
            0,
            500,
            2000,
            6,
            0,
            0,
            1_000_000,
            &one_percent,
        ),
        Ok(1_203_958_779_718)
    );
    assert_eq!(
        presale_token_deposit(
            PresaleType::FairLaunch,
            LaunchpadType::Pro,
            0,
            500,
            2000,
            19,
            0,
            0,
            u64::MAX,
            &legacy,
        ),
        Err(PresaleError::ArithmeticOverflow)
    );
    assert_eq!(
        presale_token_deposit(
            PresaleType::FairLaunch,
            LaunchpadType::Pro,
            0,
            500,
            0,
            6,
            0,
            0,
            5,
            &one_percent,
        ),
        Err(PresaleError::Invalid)
    );
}

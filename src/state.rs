use vstd::prelude::*;

use crate::address::Address;

verus! {

/// The version tag written into every record created or migrated by this library.
pub const PRESALE_VERSION: u8 = 1;

/// How the sale prices its tokens.
#[derive(Clone, Copy, Debug, PartialEq, Eq, Structural)]
pub enum PresaleType {
    /// Fixed price per token, with a hard cap on what can be raised.
    HardCapped,
    /// A fixed allocation shared pro rata among contributors.
    FairLaunch,
}

/// What happens to unsold tokens of a successful hard-capped sale.
#[derive(Clone, Copy, Debug, PartialEq, Eq, Structural)]
pub enum RefundType {
    Burn,
    Refund,
}

#[derive(Clone, Copy, Debug, PartialEq, Eq, Structural)]
pub enum ListingOpt {
    Auto,
    Manual,
}

/// What becomes of the liquidity-pool share once the pool is seeded.
#[derive(Clone, Copy, Debug, PartialEq, Eq, Structural)]
pub enum LiquidityType {
    Burn,
    Lock,
}

#[derive(Clone, Copy, Debug, PartialEq, Eq, Structural)]
pub enum ListingPlatform {
    Raydium,
    Meteora,
}

/// `Degen` sales scale prices by an extra factor of 1e8 and may be finalized
/// by the designated manager at any time.
#[derive(Clone, Copy, Debug, PartialEq, Eq, Structural)]
pub enum LaunchpadType {
    Pro,
    Degen,
}

/// The central record of one sale.
#[derive(Clone, Debug)]
pub struct PresaleState {
    pub version: u8,
    pub owner: Address,
    pub token: Address,
    pub token_price: u64,
    pub hard_cap: u64,
    pub soft_cap: u64,
    pub min_contribution: u64,
    pub max_contribution: u64,
    pub total_raised: u64,
    pub start_time: i64,
    pub end_time: i64,
    pub presale_ended: bool,
    pub presale_canceled: bool,
    pub presale_refund: bool,
    pub is_init: bool,
    pub listing_rate: u64,
    pub liquidity_lock_time: i64,
    pub liquidity_bp: u16,
    pub service_fee: u16,
    pub refund_type: RefundType,
    pub listing_opt: ListingOpt,
    pub liquidity_type: LiquidityType,
    pub listing_platform: ListingPlatform,
    pub fee_collector: Address,
    /// The sale's identifier, as the bytes that enter its address derivation.
    pub identifier: Vec<u8>,
    pub affiliate_enabled: bool,
    pub total_ref_amount: u64,
    pub commission_rate: u16,
    pub total_ref_count: u64,
    pub total_tokens_sold: u64,
    pub whitelist_enabled: bool,
    pub presale_type: PresaleType,
    pub tokens_claimed_by_owner: u64,
    pub owner_reward_withdrawn: bool,
    pub sol_pool_reserve: u64,
    pub token_pool_reserve: u64,
    pub launchpad_type: LaunchpadType,
    pub manager: Address,
    pub admin: Address,
}

/// The record layout written before the manager and admin identities and
/// the launchpad type existed.
#[derive(Clone, Debug)]
pub struct PresaleStateV0 {
    pub owner: Address,
    pub token: Address,
    pub token_price: u64,
    pub hard_cap: u64,
    pub soft_cap: u64,
    pub min_contribution: u64,
    pub max_contribution: u64,
    pub total_raised: u64,
    pub start_time: i64,
    pub end_time: i64,
    pub presale_ended: bool,
    pub presale_canceled: bool,
    pub presale_refund: bool,
    pub is_init: bool,
    pub listing_rate: u64,
    pub liquidity_lock_time: i64,
    pub liquidity_bp: u16,
    pub service_fee: u16,
    pub refund_type: RefundType,
    pub listing_opt: ListingOpt,
    pub liquidity_type: LiquidityType,
    pub listing_platform: ListingPlatform,
    pub fee_collector: Address,
    pub identifier: Vec<u8>,
    pub affiliate_enabled: bool,
    pub total_ref_amount: u64,
    pub commission_rate: u16,
    pub total_ref_count: u64,
    pub total_tokens_sold: u64,
    pub whitelist_enabled: bool,
    pub presale_type: PresaleType,
    pub tokens_claimed_by_owner: u64,
    pub owner_reward_withdrawn: bool,
    pub sol_pool_reserve: u64,
    pub token_pool_reserve: u64,
}

/// What the creator of a sale chooses; see `init_presale`.
#[derive(Clone, Debug)]
pub struct PresaleParams {
    pub token_price: u64,
    pub hard_cap: u64,
    pub soft_cap: u64,
    pub min_contribution: u64,
    pub max_contribution: u64,
    pub start_time: i64,
    pub end_time: i64,
    pub listing_rate: u64,
    pub liquidity_lock_time: i64,
    pub liquidity_bp: u16,
    pub service_fee: u16,
    pub refund_type: RefundType,
    pub listing_opt: ListingOpt,
    pub liquidity_type: LiquidityType,
    pub listing_platform: ListingPlatform,
    pub identifier: Vec<u8>,
    pub affiliate_enabled: bool,
    pub whitelist_enabled: bool,
    pub commission_rate: u16,
    pub presale_type: PresaleType,
    pub tokens_allocated: u64,
    pub launchpad_type: LaunchpadType,
    pub manager: Address,
    pub admin: Address,
}

/// One contributor's running account in one sale.
#[derive(Clone, Copy, Debug)]
pub struct ContributionState {
    pub contributor: Address,
    pub amount: u64,
    pub tokens_purchased: u64,
}

/// One referrer's running account in one sale.
#[derive(Clone, Copy, Debug)]
pub struct AffiliateReferrerState {
    pub referrer: Address,
    pub total_sale: u64,
    pub is_reward_claimed: bool,
}

/// A time-locked share of the liquidity pool.
#[derive(Clone, Copy, Debug)]
pub struct LiquidityLock {
    pub owner: Address,
    pub unlock_time: i64,
    pub locked_amount: u64,
}

/// The custody account holding the native currency raised by a sale.
#[derive(Clone, Copy, Debug)]
pub struct Vault {
    pub lamports: u64,
}

impl Vault {
    /// Pays `amount` out of the vault. The vault must keep more than it pays:
    /// a debit that would leave it empty, or that it cannot cover, is refused.
    pub fn debit(&mut self, amount: u64) -> (r: Result<(), crate::error::PresaleError>)
        ensures
            r is Ok <==> old(self).lamports > amount,
            r is Ok ==> final(self).lamports == old(self).lamports - amount,
            r is Err ==> r == Err::<(), _>(crate::error::PresaleError::InsufficientFunds)
                && *final(self) == *old(self),
    {
        if self.lamports > amount {
            self.lamports = self.lamports - amount;
            Ok(())
        } else {
            Err(crate::error::PresaleError::InsufficientFunds)
        }
    }
}

impl ContributionState {
    /// A record that has not yet received anything.
    pub fn empty(contributor: Address) -> (r: ContributionState)
        ensures
            r.contributor == contributor,
            r.amount == 0,
            r.tokens_purchased == 0,
    {
        ContributionState { contributor, amount: 0, tokens_purchased: 0 }
    }
}

impl AffiliateReferrerState {
    /// A referrer record that has not yet been attributed a sale.
    pub fn empty() -> (r: AffiliateReferrerState)
        ensures
            r.referrer@ == crate::address::zero_address(),
            r.total_sale == 0,
            !r.is_reward_claimed,
    {
        AffiliateReferrerState { referrer: Address::zero(), total_sale: 0, is_reward_claimed: false }
    }
}

} // verus!

use vstd::prelude::*;

use crate::address::Address;
use crate::codec::{
    decode_presale_state,
    decode_presale_state_v0,
    encode_presale,
    encode_presale_state,
    encode_presale_v0,
    holds_at,
};
use crate::error::PresaleError;
use crate::fees::{
    calculate_presale_data,
    calculate_presale_data_degen,
    decimals_factor,
    fair_launch_pool_tokens,
    fair_launch_tokens_for_pool,
    pow10,
    presale_data,
    price_scale,
};
use crate::transfer_fee::{get_transfer_inverse_fee, transfer_inverse_fee, MintFeeInfo};
use crate::state::{
    LaunchpadType,
    LiquidityType,
    PresaleParams,
    PresaleState,
    PresaleStateV0,
    PresaleType,
    PRESALE_VERSION,
};

verus! {

/// The factory program, the only creator of sales.
pub open spec fn factory_program_bytes() -> Seq<u8> {
    seq![
        24u8, 90u8, 185u8, 141u8, 54u8, 88u8, 214u8, 250u8, 138u8, 213u8, 77u8, 225u8, 43u8, 195u8,
        150u8, 51u8, 36u8, 8u8, 123u8, 153u8, 135u8, 1u8, 177u8, 4u8, 201u8, 109u8, 227u8, 52u8,
        66u8, 33u8, 32u8, 178u8,
    ]
}

/// The factory program's identity.
pub fn factory_program_id() -> (r: Address)
    ensures
        r@ == factory_program_bytes(),
{
    let r = Address {
        bytes: [
            24u8, 90, 185, 141, 54, 88, 214, 250, 138, 213, 77, 225, 43, 195, 150, 51, 36, 8, 123,
            153, 135, 1, 177, 4, 201, 109, 227, 52, 66, 33, 32, 178,
        ],
    };
    assert(r@ =~= factory_program_bytes());
    r
}

/// A new sale from its parameters: every running total zero, no flag set,
/// the lock time kept only when liquidity is locked, and a fair launch's
/// allocation recorded as its tokens sold.
pub open spec fn configured(params: PresaleParams, fee_collector: Address, owner: Address, mint: Address) -> PresaleState {
    PresaleState {
        version: PRESALE_VERSION,
        owner,
        token: mint,
        token_price: params.token_price,
        hard_cap: params.hard_cap,
        soft_cap: params.soft_cap,
        min_contribution: params.min_contribution,
        max_contribution: params.max_contribution,
        total_raised: 0,
        start_time: params.start_time,
        end_time: params.end_time,
        presale_ended: false,
        presale_canceled: false,
        presale_refund: false,
        is_init: true,
        listing_rate: params.listing_rate,
        liquidity_lock_time: if params.liquidity_type == LiquidityType::Lock {
            params.liquidity_lock_time
        } else {
            0
        },
        liquidity_bp: params.liquidity_bp,
        service_fee: params.service_fee,
        refund_type: params.refund_type,
        listing_opt: params.listing_opt,
        liquidity_type: params.liquidity_type,
        listing_platform: params.listing_platform,
        fee_collector,
        identifier: params.identifier,
        affiliate_enabled: params.affiliate_enabled,
        total_ref_amount: 0,
        commission_rate: params.commission_rate,
        total_ref_count: 0,
        total_tokens_sold: if params.presale_type == PresaleType::FairLaunch {
            params.tokens_allocated
        } else {
            0
        },
        whitelist_enabled: params.whitelist_enabled,
        presale_type: params.presale_type,
        tokens_claimed_by_owner: 0,
        owner_reward_withdrawn: false,
        sol_pool_reserve: 0,
        token_pool_reserve: 0,
        launchpad_type: params.launchpad_type,
        manager: params.manager,
        admin: params.admin,
    }
}

/// Builds a new sale as `configured` says.
pub fn configure_presale(params: PresaleParams, fee_collector: Address, owner: Address, mint: Address) -> (r:
    PresaleState)
    ensures
        r == configured(params, fee_collector, owner, mint),
{
    let liquidity_lock_time = if params.liquidity_type == LiquidityType::Lock {
        params.liquidity_lock_time
    } else {
        0
    };
    let total_tokens_sold = if params.presale_type == PresaleType::FairLaunch {
        params.tokens_allocated
    } else {
        0
    };
    PresaleState {
        version: PRESALE_VERSION,
        owner,
        token: mint,
        token_price: params.token_price,
        hard_cap: params.hard_cap,
        soft_cap: params.soft_cap,
        min_contribution: params.min_contribution,
        max_contribution: params.max_contribution,
        total_raised: 0,
        start_time: params.start_time,
        end_time: params.end_time,
        presale_ended: false,
        presale_canceled: false,
        presale_refund: false,
        is_init: true,
        listing_rate: params.listing_rate,
        liquidity_lock_time,
        liquidity_bp: params.liquidity_bp,
        service_fee: params.service_fee,
        refund_type: params.refund_type,
        listing_opt: params.listing_opt,
        liquidity_type: params.liquidity_type,
        listing_platform: params.listing_platform,
        fee_collector,
        identifier: params.identifier,
        affiliate_enabled: params.affiliate_enabled,
        total_ref_amount: 0,
        commission_rate: params.commission_rate,
        total_ref_count: 0,
        total_tokens_sold,
        whitelist_enabled: params.whitelist_enabled,
        presale_type: params.presale_type,
        tokens_claimed_by_owner: 0,
        owner_reward_withdrawn: false,
        sol_pool_reserve: 0,
        token_pool_reserve: 0,
        launchpad_type: params.launchpad_type,
        manager: params.manager,
        admin: params.admin,
    }
}

/// The accounts that creating a sale names.
#[derive(Clone, Copy, Debug)]
pub struct InitContext {
    /// The program that owns the signing factory record.
    pub factory_owner: Address,
    /// Whether the factory record signed.
    pub factory_signed: bool,
    pub fee_collector: Address,
    pub owner: Address,
    pub mint: Address,
}

/// Creating a sale: the record must not be initialized yet, the factory
/// program must have signed through its own record, and the liquidity,
/// service-fee and commission rates are each at most the whole.
pub open spec fn creation_check(existing: PresaleState, params: PresaleParams, ctx: InitContext) -> Result<
    (),
    PresaleError,
> {
    if existing.is_init {
        Err(PresaleError::Invalid)
    } else if ctx.factory_owner@ != factory_program_bytes() {
        Err(PresaleError::Unauthorized)
    } else if !ctx.factory_signed {
        Err(PresaleError::Unauthorized)
    } else if params.liquidity_bp > 10000 || params.service_fee > 10000 || params.commission_rate
        > 10000 {
        Err(PresaleError::Invalid)
    } else {
        Ok(())
    }
}

/// Creates the sale in `presale` as `creation_check` allows and `configured`
/// builds it. On error nothing changes.
pub fn init_presale(presale: &mut PresaleState, presale_config: PresaleParams, ctx: &InitContext) -> (r:
    Result<(), PresaleError>)
    ensures
        match creation_check(*old(presale), presale_config, *ctx) {
            Ok(()) => r is Ok && *final(presale) == configured(
                presale_config,
                ctx.fee_collector,
                ctx.owner,
                ctx.mint,
            ),
            Err(e) => r == Err::<(), PresaleError>(e) && *final(presale) == *old(presale),
        },
{
    if presale.is_init {
        return Err(PresaleError::Invalid);
    }
    if !ctx.factory_owner.same_as(&factory_program_id()) {
        return Err(PresaleError::Unauthorized);
    }
    if !ctx.factory_signed {
        return Err(PresaleError::Unauthorized);
    }
    if presale_config.liquidity_bp > 10000 || presale_config.service_fee > 10000
        || presale_config.commission_rate > 10000 {
        return Err(PresaleError::Invalid);
    }
    *presale = configure_presale(presale_config, ctx.fee_collector, ctx.owner, ctx.mint);
    Ok(())
}

/// Setting up a sale's vaults: the factory program must have signed
/// through its own record; the vault then belongs to the sale's owner.
pub fn init_vaults(factory_owner: &Address, factory_signed: bool, owner: &Address) -> (r: Result<
    Address,
    PresaleError,
>)
    ensures
        factory_owner@ != factory_program_bytes() ==> r == Err::<Address, PresaleError>(
            PresaleError::Unauthorized,
        ),
        factory_owner@ == factory_program_bytes() && !factory_signed ==> r == Err::<
            Address,
            PresaleError,
        >(PresaleError::Unauthorized),
        factory_owner@ == factory_program_bytes() && factory_signed ==> r == Ok::<
            Address,
            PresaleError,
        >(*owner),
{
    if !factory_owner.same_as(&factory_program_id()) {
        return Err(PresaleError::Unauthorized);
    }
    if !factory_signed {
        return Err(PresaleError::Unauthorized);
    }
    Ok(*owner)
}

/// What a new sale's owner deposits so that the sale can deliver every
/// token it may owe: for a hard-capped sale, the allocation for its hard cap
/// (`presale_data`); for a fair launch, its allocation and the pool's share
/// of it. The transfer fee of what the pool receives is added, then the
/// transfer fee of the whole deposit, so that the sale receives it net.
/// The allocation is given in whole tokens and must fit in base units.
pub open spec fn token_deposit(
    presale_type: PresaleType,
    degen: bool,
    hard_cap: u64,
    service_fee: u16,
    liquidity_bp: u16,
    decimals: u8,
    token_price: u64,
    listing_rate: u64,
    tokens_allocated: u64,
    mint: MintFeeInfo,
) -> Result<u64, PresaleError> {
    let factor = pow10(decimals as nat);
    if factor > u64::MAX || factor * tokens_allocated > u64::MAX {
        Err(PresaleError::ArithmeticOverflow)
    } else {
        let allocated = (factor * tokens_allocated) as u64;
        let parts: Option<(u64, int)> = if presale_type == PresaleType::HardCapped {
            match presale_data(
                hard_cap as int,
                service_fee as int,
                liquidity_bp as int,
                factor as int,
                token_price as int,
                listing_rate as int,
                price_scale(degen),
            ) {
                Some(t) => Some((t.2 as u64, t.3)),
                None => None,
            }
        } else {
            match fair_launch_pool_tokens(allocated as int, service_fee as int, liquidity_bp as int) {
                Some(pool) => Some((pool as u64, allocated + pool)),
                None => None,
            }
        };
        match parts {
            None => Err(PresaleError::ArithmeticOverflow),
            Some((pool, base)) => match transfer_inverse_fee(mint, pool) {
                Err(e) => Err(e),
                Ok(pool_fee) => if base + pool_fee > u64::MAX {
                    Err(PresaleError::ArithmeticOverflow)
                } else {
                    match transfer_inverse_fee(mint, (base + pool_fee) as u64) {
                        Err(e) => Err(e),
                        Ok(fee) => if base + pool_fee + fee > u64::MAX {
                            Err(PresaleError::ArithmeticOverflow)
                        } else {
                            Ok((base + pool_fee + fee) as u64)
                        },
                    }
                },
            },
        }
    }
}

/// Computes `token_deposit`.
pub fn presale_token_deposit(
    presale_type: PresaleType,
    launchpad_type: LaunchpadType,
    hard_cap: u64,
    service_fee: u16,
    liquidity_bp: u16,
    decimals: u8,
    token_price: u64,
    listing_rate: u64,
    tokens_allocated: u64,
    mint: &MintFeeInfo,
) -> (r: Result<u64, PresaleError>)
    ensures
        r == token_deposit(
            presale_type,
            launchpad_type == LaunchpadType::Degen,
            hard_cap,
            service_fee,
            liquidity_bp,
            decimals,
            token_price,
            listing_rate,
            tokens_allocated,
            *mint,
        ),
{
    let factor = match decimals_factor(decimals) {
        Some(f) => f,
        None => {
            return Err(PresaleError::ArithmeticOverflow);
        },
    };
    let allocated = match factor.checked_mul(tokens_allocated) {
        Some(a) => a,
        None => {
            return Err(PresaleError::ArithmeticOverflow);
        },
    };
    let (pool, base) = if presale_type == PresaleType::HardCapped {
        let data = match launchpad_type {
            LaunchpadType::Pro => calculate_presale_data(
                hard_cap as u128,
                service_fee as u128,
                liquidity_bp as u128,
                factor as u128,
                token_price as u128,
                listing_rate as u128,
            ),
            LaunchpadType::Degen => calculate_presale_data_degen(
                hard_cap as u128,
                service_fee as u128,
                liquidity_bp as u128,
                factor as u128,
                token_price as u128,
                listing_rate as u128,
            ),
        };
        match data {
            Ok(t) => (t.2, t.3 as u128),
            Err(e) => {
                return Err(e);
            },
        }
    } else {
        let pool = match fair_launch_tokens_for_pool(allocated, service_fee, liquidity_bp) {
            Some(p) => p,
            None => {
                return Err(PresaleError::ArithmeticOverflow);
            },
        };
        (pool, allocated as u128 + pool as u128)
    };
    let pool_fee = match get_transfer_inverse_fee(mint, pool) {
        Ok(f) => f,
        Err(e) => {
            return Err(e);
        },
    };
    if base + pool_fee as u128 > u64::MAX as u128 {
        return Err(PresaleError::ArithmeticOverflow);
    }
    let gross = (base + pool_fee as u128) as u64;
    let fee = match get_transfer_inverse_fee(mint, gross) {
        Ok(f) => f,
        Err(e) => {
            return Err(e);
        },
    };
    match gross.checked_add(fee) {
        Some(d) => Ok(d),
        None => Err(PresaleError::ArithmeticOverflow),
    }
}

/// A record as it is found in storage.
#[derive(Clone, Debug)]
pub enum StoredPresale {
    /// In the layout before the manager, admin and launchpad type.
    V0(PresaleStateV0),
    /// In the current layout.
    V1(PresaleState),
}

/// The current record carrying every field of `old` unchanged: a migrated
/// sale keeps the unscaled (`Pro`) pricing its prices were set in, and its
/// manager and admin are the identities the factory supplies.
pub open spec fn migrated(old: PresaleStateV0, manager: Address, admin: Address) -> PresaleState {
    PresaleState {
        version: 1,
        owner: old.owner,
        token: old.token,
        token_price: old.token_price,
        hard_cap: old.hard_cap,
        soft_cap: old.soft_cap,
        min_contribution: old.min_contribution,
        max_contribution: old.max_contribution,
        total_raised: old.total_raised,
        start_time: old.start_time,
        end_time: old.end_time,
        presale_ended: old.presale_ended,
        presale_canceled: old.presale_canceled,
        presale_refund: old.presale_refund,
        is_init: old.is_init,
        listing_rate: old.listing_rate,
        liquidity_lock_time: old.liquidity_lock_time,
        liquidity_bp: old.liquidity_bp,
        service_fee: old.service_fee,
        refund_type: old.refund_type,
        listing_opt: old.listing_opt,
        liquidity_type: old.liquidity_type,
        listing_platform: old.listing_platform,
        fee_collector: old.fee_collector,
        identifier: old.identifier,
        affiliate_enabled: old.affiliate_enabled,
        total_ref_amount: old.total_ref_amount,
        commission_rate: old.commission_rate,
        total_ref_count: old.total_ref_count,
        total_tokens_sold: old.total_tokens_sold,
        whitelist_enabled: old.whitelist_enabled,
        presale_type: old.presale_type,
        tokens_claimed_by_owner: old.tokens_claimed_by_owner,
        owner_reward_withdrawn: old.owner_reward_withdrawn,
        sol_pool_reserve: old.sol_pool_reserve,
        token_pool_reserve: old.token_pool_reserve,
        launchpad_type: LaunchpadType::Pro,
        manager,
        admin,
    }
}

/// What the migrating caller pays so that the larger record stays
/// rent-exempt: the rise in the minimum balance, if any.
pub open spec fn rent_top_up(old_rent: u64, new_rent: u64) -> u64 {
    if new_rent > old_rent {
        (new_rent - old_rent) as u64
    } else {
        0
    }
}

/// The length of the tag in front of every stored record.
pub const DISCRIMINATOR_LEN: usize = 8;

/// Reads the record stored in an account's `data`: an account of exactly
/// `v0_len` bytes holds a record in the old layout, any other one in the
/// current layout, each after the tag. Whenever the bytes after the tag
/// hold the encoding of a record of the expected layout, a record is read;
/// the record returned encodes to exactly the bytes it was read from.
pub fn decode_stored(data: &Vec<u8>, v0_len: usize) -> (r: Option<StoredPresale>)
    ensures
        data@.len() < DISCRIMINATOR_LEN ==> r is None,
        r matches Some(StoredPresale::V0(old)) ==> data@.len() == v0_len && exists|next: int|
            holds_at(data@, DISCRIMINATOR_LEN as int, next, encode_presale_v0(old)),
        r matches Some(StoredPresale::V1(p)) ==> data@.len() != v0_len && exists|next: int|
            holds_at(data@, DISCRIMINATOR_LEN as int, next, encode_presale(p)),
        data@.len() == v0_len ==> forall|old: PresaleStateV0|
            old.identifier@.len() <= u32::MAX && #[trigger] holds_at(
                data@,
                DISCRIMINATOR_LEN as int,
                DISCRIMINATOR_LEN + encode_presale_v0(old).len(),
                encode_presale_v0(old),
            ) ==> r matches Some(StoredPresale::V0(_)),
        data@.len() != v0_len ==> forall|p: PresaleState|
            p.identifier@.len() <= u32::MAX && #[trigger] holds_at(
                data@,
                DISCRIMINATOR_LEN as int,
                DISCRIMINATOR_LEN + encode_presale(p).len(),
                encode_presale(p),
            ) ==> r matches Some(StoredPresale::V1(_)),
{
    if data.len() < DISCRIMINATOR_LEN {
        proof {
            reveal(holds_at);
        }
        return None;
    }
    if data.len() == v0_len {
        match decode_presale_state_v0(data, DISCRIMINATOR_LEN) {
            Some((old, _)) => Some(StoredPresale::V0(old)),
            None => None,
        }
    } else {
        match decode_presale_state(data, DISCRIMINATOR_LEN) {
            Some((p, _)) => Some(StoredPresale::V1(p)),
            None => None,
        }
    }
}

impl PresaleState {
    /// The record's stored form, written after the account's tag.
    pub fn serialize_data(&self) -> (r: Vec<u8>)
        requires
            self.identifier@.len() <= u32::MAX,
        ensures
            r@ == encode_presale(*self),
    {
        encode_presale_state(self)
    }

    /// Upgrades an old record as `migrated` says; also returns the
    /// `rent_top_up` the migrating caller owes for the larger record, given the
    /// minimum balances of the old and the new layout.
    pub fn migrate_to_v1(
        old: PresaleStateV0,
        manager: &Address,
        admin: &Address,
        old_rent: u64,
        new_rent: u64,
    ) -> (r: (
        PresaleState,
        u64,
    ))
        ensures
            r.0 == migrated(old, *manager, *admin),
            r.1 == rent_top_up(old_rent, new_rent),
    {
        let top_up = if new_rent > old_rent {
            new_rent - old_rent
        } else {
            0
        };
        let state = PresaleState {
            version: 1,
            owner: old.owner,
            token: old.token,
            token_price: old.token_price,
            hard_cap: old.hard_cap,
            soft_cap: old.soft_cap,
            min_contribution: old.min_contribution,
            max_contribution: old.max_contribution,
            total_raised: old.total_raised,
            start_time: old.start_time,
            end_time: old.end_time,
            presale_ended: old.presale_ended,
            presale_canceled: old.presale_canceled,
            presale_refund: old.presale_refund,
            is_init: old.is_init,
            listing_rate: old.listing_rate,
            liquidity_lock_time: old.liquidity_lock_time,
            liquidity_bp: old.liquidity_bp,
            service_fee: old.service_fee,
            refund_type: old.refund_type,
            listing_opt: old.listing_opt,
            liquidity_type: old.liquidity_type,
            listing_platform: old.listing_platform,
            fee_collector: old.fee_collector,
            identifier: old.identifier,
            affiliate_enabled: old.affiliate_enabled,
            total_ref_amount: old.total_ref_amount,
            commission_rate: old.commission_rate,
            total_ref_count: old.total_ref_count,
            total_tokens_sold: old.total_tokens_sold,
            whitelist_enabled: old.whitelist_enabled,
            presale_type: old.presale_type,
            tokens_claimed_by_owner: old.tokens_claimed_by_owner,
            owner_reward_withdrawn: old.owner_reward_withdrawn,
            sol_pool_reserve: old.sol_pool_reserve,
            token_pool_reserve: old.token_pool_reserve,
            launchpad_type: LaunchpadType::Pro,
            manager: *manager,
            admin: *admin,
        };
        (state, top_up)
    }

    /// Loads a stored record: an old one is migrated on the way (see
    /// `migrate_to_v1`), a current one is returned as it is with nothing to pay.
    pub fn deserialize_data(
        stored: StoredPresale,
        manager: &Address,
        admin: &Address,
        old_rent: u64,
        new_rent: u64,
    ) -> (r: (
        PresaleState,
        u64,
    ))
        ensures
            match stored {
                StoredPresale::V0(old) => r.0 == migrated(old, *manager, *admin) && r.1 == rent_top_up(
                    old_rent,
                    new_rent,
                ),
                StoredPresale::V1(p) => r.0 == p && r.1 == 0,
            },
    {
        match stored {
            StoredPresale::V0(old) => PresaleState::migrate_to_v1(old, manager, admin, old_rent, new_rent),
            StoredPresale::V1(p) => (p, 0),
        }
    }
}

} // verus!

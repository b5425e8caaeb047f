use vstd::prelude::*;

use crate::error::PresaleError;

verus! {

/// One whole in basis points.
pub const BASIS_POINTS: u64 = 10000;

/// The extra price scale of `Degen` sales.
pub const DEGEN_PRICE_SCALE: u64 = 100000000;

/// `bp` basis points of `amount`, rounded down.
pub open spec fn bp_part(amount: int, bp: int) -> int {
    amount * bp / 10000
}

/// `10^d`.
pub open spec fn pow10(d: nat) -> nat
    decreases d,
{
    if d == 0 {
        1
    } else {
        10 * pow10((d - 1) as nat)
    }
}

/// The four quantities of a sale's token allocation, in this order: the
/// native currency set aside for liquidity, the tokens sold at `price`, the
/// tokens paired with that liquidity at `listing_rate`, and their sum.
/// `scale` is 1, or the extra price scale of `Degen` sales. `None` when a
/// step overflows 128 bits, a result does not fit 64 bits, the fee exceeds
/// the cap, or a price is zero.
pub open spec fn presale_data(
    cap: int,
    fee_bp: int,
    liquidity_bp: int,
    decimals: int,
    price: int,
    listing_rate: int,
    scale: int,
) -> Option<(int, int, int, int)> {
    let fee = cap * fee_bp / 10000;
    let net = cap - fee;
    let liquidity = net * liquidity_bp / 10000;
    let sold = cap * decimals * scale;
    let paired = liquidity * decimals * scale;
    if cap * fee_bp > u128::MAX || net < 0 || net * liquidity_bp > u128::MAX || sold > u128::MAX
        || price == 0 || paired > u128::MAX || listing_rate == 0 || liquidity > u64::MAX || sold
        / price > u64::MAX || paired / listing_rate > u64::MAX || sold / price + paired
        / listing_rate > u64::MAX {
        None
    } else {
        Some((liquidity, sold / price, paired / listing_rate, sold / price + paired / listing_rate))
    }
}

/// `bp` basis points of `amount`, or `None` when that does not fit 64 bits.
pub fn bp_share(amount: u64, bp: u16) -> (r: Option<u64>)
    ensures
        r is Some <==> bp_part(amount as int, bp as int) <= u64::MAX,
        r is Some ==> r->0 == bp_part(amount as int, bp as int),
{
    assert((amount as int) * (bp as int) <= u64::MAX * 65535) by (nonlinear_arith)
        requires
            amount <= u64::MAX,
            bp <= 65535,
    ;
    let product = (amount as u128) * (bp as u128);
    let part = product / 10000;
    if part <= u64::MAX as u128 {
        Some(part as u64)
    } else {
        None
    }
}

/// `10^decimals`, the number of base units in one whole token, or `None`
/// when it does not fit 64 bits.
pub fn decimals_factor(decimals: u8) -> (r: Option<u64>)
    ensures
        r is Some <==> pow10(decimals as nat) <= u64::MAX,
        r is Some ==> r->0 == pow10(decimals as nat),
{
    let mut factor: u64 = 1;
    let mut i: u8 = 0;
    while i < decimals
        invariant
            i <= decimals,
            factor == pow10(i as nat),
        decreases decimals - i,
    {
        match factor.checked_mul(10) {
            Some(f) => {
                factor = f;
            },
            None => {
                proof {
                    lemma_pow10_monotone(i as nat + 1, decimals as nat);
                }
                return None;
            },
        }
        i = i + 1;
    }
    Some(factor)
}

proof fn lemma_pow10_monotone(a: nat, b: nat)
    requires
        a <= b,
    ensures
        pow10(a) <= pow10(b),
    decreases b - a,
{
    if a < b {
        lemma_pow10_monotone(a, (b - 1) as nat);
    }
}

fn presale_data_scaled(
    cap: u128,
    fee_bp: u128,
    liquidity_bp: u128,
    decimals: u128,
    price: u128,
    listing_rate: u128,
    scale: u128,
) -> (r: Result<(u64, u64, u64, u64), PresaleError>)
    requires
        scale >= 1,
    ensures
        r is Ok <==> presale_data(
            cap as int,
            fee_bp as int,
            liquidity_bp as int,
            decimals as int,
            price as int,
            listing_rate as int,
            scale as int,
        ) is Some,
        r matches Ok(t) ==> presale_data(
            cap as int,
            fee_bp as int,
            liquidity_bp as int,
            decimals as int,
            price as int,
            listing_rate as int,
            scale as int,
        ) == Some((t.0 as int, t.1 as int, t.2 as int, t.3 as int)),
        r is Err ==> r == Err::<(u64, u64, u64, u64), _>(PresaleError::ArithmeticOverflow),
{
    let ghost spec_r = presale_data(
        cap as int,
        fee_bp as int,
        liquidity_bp as int,
        decimals as int,
        price as int,
        listing_rate as int,
        scale as int,
    );
    let fee = match cap.checked_mul(fee_bp) {
        Some(f) => f / 10000,
        None => {
            return Err(PresaleError::ArithmeticOverflow);
        },
    };
    let net = match cap.checked_sub(fee) {
        Some(n) => n,
        None => {
            return Err(PresaleError::ArithmeticOverflow);
        },
    };
    let liquidity = match net.checked_mul(liquidity_bp) {
        Some(l) => l / 10000,
        None => {
            return Err(PresaleError::ArithmeticOverflow);
        },
    };
    let sold = match cap.checked_mul(decimals) {
        Some(s) => s,
        None => {
            assert((cap as int) * (decimals as int) * (scale as int) >= (cap as int) * (
            decimals as int)) by (nonlinear_arith)
                requires
                    scale >= 1,
                    cap >= 0,
                    decimals >= 0,
            ;
            return Err(PresaleError::ArithmeticOverflow);
        },
    };
    let sold = match sold.checked_mul(scale) {
        Some(s) => s,
        None => {
            return Err(PresaleError::ArithmeticOverflow);
        },
    };
    if price == 0 {
        return Err(PresaleError::ArithmeticOverflow);
    }
    let for_sale = sold / price;
    let paired = match liquidity.checked_mul(decimals) {
        Some(p) => p,
        None => {
            assert((liquidity as int) * (decimals as int) * (scale as int) >= (liquidity as int) * (
            decimals as int)) by (nonlinear_arith)
                requires
                    scale >= 1,
                    liquidity >= 0,
                    decimals >= 0,
            ;
            return Err(PresaleError::ArithmeticOverflow);
        },
    };
    let paired = match paired.checked_mul(scale) {
        Some(p) => p,
        None => {
            return Err(PresaleError::ArithmeticOverflow);
        },
    };
    if listing_rate == 0 {
        return Err(PresaleError::ArithmeticOverflow);
    }
    let for_liquidity = paired / listing_rate;
    if liquidity > u64::MAX as u128 || for_sale > u64::MAX as u128 || for_liquidity > u64::MAX as u128 {
        return Err(PresaleError::ArithmeticOverflow);
    }
    let total = for_sale + for_liquidity;
    if total > u64::MAX as u128 {
        return Err(PresaleError::ArithmeticOverflow);
    }
    Ok((liquidity as u64, for_sale as u64, for_liquidity as u64, total as u64))
}

/// The token allocation of a `Pro` sale raising `hard_cap`: see `presale_data`.
pub fn calculate_presale_data(
    hard_cap: u128,
    service_fee: u128,
    liquidity_bp: u128,
    decimals_result: u128,
    token_price: u128,
    listing_rate: u128,
) -> (r: Result<(u64, u64, u64, u64), PresaleError>)
    ensures
        r is Ok <==> presale_data(
            hard_cap as int,
            service_fee as int,
            liquidity_bp as int,
            decimals_result as int,
            token_price as int,
            listing_rate as int,
            1,
        ) is Some,
        r matches Ok(t) ==> presale_data(
            hard_cap as int,
            service_fee as int,
            liquidity_bp as int,
            decimals_result as int,
            token_price as int,
            listing_rate as int,
            1,
        ) == Some((t.0 as int, t.1 as int, t.2 as int, t.3 as int)),
        r is Err ==> r == Err::<(u64, u64, u64, u64), _>(PresaleError::ArithmeticOverflow),
{
    presale_data_scaled(hard_cap, service_fee, liquidity_bp, decimals_result, token_price, listing_rate, 1)
}

/// The token allocation of a `Degen` sale raising `hard_cap`, whose prices
/// carry the extra scale of 1e8: see `presale_data`.
pub fn calculate_presale_data_degen(
    hard_cap: u128,
    service_fee: u128,
    liquidity_bp: u128,
    decimals_result: u128,
    token_price: u128,
    listing_rate: u128,
) -> (r: Result<(u64, u64, u64, u64), PresaleError>)
    ensures
        r is Ok <==> presale_data(
            hard_cap as int,
            service_fee as int,
            liquidity_bp as int,
            decimals_result as int,
            token_price as int,
            listing_rate as int,
            DEGEN_PRICE_SCALE as int,
        ) is Some,
        r matches Ok(t) ==> presale_data(
            hard_cap as int,
            service_fee as int,
            liquidity_bp as int,
            decimals_result as int,
            token_price as int,
            listing_rate as int,
            DEGEN_PRICE_SCALE as int,
        ) == Some((t.0 as int, t.1 as int, t.2 as int, t.3 as int)),
        r is Err ==> r == Err::<(u64, u64, u64, u64), _>(PresaleError::ArithmeticOverflow),
{
    presale_data_scaled(
        hard_cap,
        service_fee,
        liquidity_bp,
        decimals_result,
        token_price,
        listing_rate,
        DEGEN_PRICE_SCALE as u128,
    )
}


/// How the amount raised by a successful sale is split.
#[derive(Clone, Copy, Debug, PartialEq, Eq, Structural)]
pub struct FundSplit {
    /// Paid to the fee collector.
    pub service_fee: u64,
    /// What is raised less the service fee.
    pub net: u64,
    /// Reserved for referrers' commissions.
    pub affiliate_reserve: u64,
    /// Reserved for seeding the liquidity pool.
    pub liquidity_reserve: u64,
    /// What the owner is still owed after `claimed` was already paid.
    pub owner_reward: u64,
}

/// The split of `total` raised: the service fee is `fee_bp` of the total;
/// the affiliate reserve (zero unless the program is enabled) and the
/// liquidity reserve are their basis points of the net; the owner gets the
/// rest of the net less what was `claimed` before. `None` when a part does
/// not fit 64 bits or the parts exceed what they are taken from.
pub open spec fn fund_split(
    total: int,
    fee_bp: int,
    affiliate_enabled: bool,
    commission_bp: int,
    liquidity_bp: int,
    claimed: int,
) -> Option<FundSplit> {
    let fee = bp_part(total, fee_bp);
    let net = total - fee;
    let affiliate = if affiliate_enabled {
        bp_part(net, commission_bp)
    } else {
        0
    };
    let liquidity = bp_part(net, liquidity_bp);
    let owner = net - affiliate - liquidity - claimed;
    if fee > u64::MAX || net < 0 || affiliate > u64::MAX || liquidity > u64::MAX || owner < 0 {
        None
    } else {
        Some(
            FundSplit {
                service_fee: fee as u64,
                net: net as u64,
                affiliate_reserve: affiliate as u64,
                liquidity_reserve: liquidity as u64,
                owner_reward: owner as u64,
            },
        )
    }
}

/// Computes `fund_split`.
pub fn compute_fund_split(
    total: u64,
    fee_bp: u16,
    affiliate_enabled: bool,
    commission_bp: u16,
    liquidity_bp: u16,
    claimed: u64,
) -> (r: Result<FundSplit, PresaleError>)
    ensures
        r is Ok <==> fund_split(
            total as int,
            fee_bp as int,
            affiliate_enabled,
            commission_bp as int,
            liquidity_bp as int,
            claimed as int,
        ) is Some,
        r is Ok ==> r->Ok_0 == fund_split(
            total as int,
            fee_bp as int,
            affiliate_enabled,
            commission_bp as int,
            liquidity_bp as int,
            claimed as int,
        )->0,
        r is Err ==> r == Err::<FundSplit, _>(PresaleError::ArithmeticOverflow),
{
    let fee = match bp_share(total, fee_bp) {
        Some(f) => f,
        None => {
            return Err(PresaleError::ArithmeticOverflow);
        },
    };
    let net = match total.checked_sub(fee) {
        Some(n) => n,
        None => {
            return Err(PresaleError::ArithmeticOverflow);
        },
    };
    let affiliate = if affiliate_enabled {
        match bp_share(net, commission_bp) {
            Some(a) => a,
            None => {
                return Err(PresaleError::ArithmeticOverflow);
            },
        }
    } else {
        0u64
    };
    let liquidity = match bp_share(net, liquidity_bp) {
        Some(l) => l,
        None => {
            return Err(PresaleError::ArithmeticOverflow);
        },
    };
    let owner = match net.checked_sub(affiliate) {
        Some(o) => match o.checked_sub(liquidity) {
            Some(o) => match o.checked_sub(claimed) {
                Some(o) => o,
                None => {
                    return Err(PresaleError::ArithmeticOverflow);
                },
            },
            None => {
                return Err(PresaleError::ArithmeticOverflow);
            },
        },
        None => {
            return Err(PresaleError::ArithmeticOverflow);
        },
    };
    Ok(
        FundSplit {
            service_fee: fee,
            net,
            affiliate_reserve: affiliate,
            liquidity_reserve: liquidity,
            owner_reward: owner,
        },
    )
}

/// Tokens bought with `amount` at `price`, where one whole token is `factor`
/// base units and `scale` is the extra price scale (1 unless `Degen`).
/// `None` when the product overflows 128 bits, the price is zero, or the
/// result does not fit 64 bits.
pub open spec fn purchase_tokens(amount: int, factor: int, scale: int, price: int) -> Option<int> {
    let scaled = amount * factor * scale;
    if scaled > u128::MAX || price == 0 || scaled / price > u64::MAX {
        None
    } else {
        Some(scaled / price)
    }
}

/// The extra price scale of a launchpad type.
pub open spec fn price_scale(degen: bool) -> int {
    if degen {
        DEGEN_PRICE_SCALE as int
    } else {
        1
    }
}

/// Computes `purchase_tokens` with the scale of `degen`.
pub fn tokens_for_amount(amount: u64, factor: u64, degen: bool, price: u64) -> (r: Option<u64>)
    ensures
        r is Some <==> purchase_tokens(amount as int, factor as int, price_scale(degen), price as int)
            is Some,
        r is Some ==> r->0 == purchase_tokens(
            amount as int,
            factor as int,
            price_scale(degen),
            price as int,
        )->0,
{
    assert((amount as int) * (factor as int) <= u64::MAX * u64::MAX) by (nonlinear_arith)
        requires
            amount <= u64::MAX,
            factor <= u64::MAX,
    ;
    let base = (amount as u128) * (factor as u128);
    let scaled = if degen {
        match base.checked_mul(DEGEN_PRICE_SCALE as u128) {
            Some(s) => s,
            None => {
                return None;
            },
        }
    } else {
        base
    };
    if price == 0 {
        return None;
    }
    let tokens = scaled / (price as u128);
    if tokens > u64::MAX as u128 {
        None
    } else {
        Some(tokens as u64)
    }
}

/// The pool's token side for a fair launch: the liquidity basis points of the
/// allocation left after the service fee. `None` when the fee exceeds the
/// whole or the result does not fit 64 bits.
pub open spec fn fair_launch_pool_tokens(allocated: int, fee_bp: int, liquidity_bp: int) -> Option<
    int,
> {
    let net_tokens = allocated * (10000 - fee_bp) / 10000;
    let pool = net_tokens * liquidity_bp / 10000;
    if fee_bp > 10000 || pool > u64::MAX {
        None
    } else {
        Some(pool)
    }
}

/// Computes `fair_launch_pool_tokens`.
pub fn fair_launch_tokens_for_pool(allocated: u64, fee_bp: u16, liquidity_bp: u16) -> (r: Option<
    u64,
>)
    ensures
        r is Some <==> fair_launch_pool_tokens(allocated as int, fee_bp as int, liquidity_bp as int)
            is Some,
        r is Some ==> r->0 == fair_launch_pool_tokens(
            allocated as int,
            fee_bp as int,
            liquidity_bp as int,
        )->0,
{
    if fee_bp > 10000 {
        return None;
    }
    let net_rate: u16 = 10000 - fee_bp;
    assert((allocated as int) * (net_rate as int) <= u64::MAX * 10000) by (nonlinear_arith)
        requires
            allocated <= u64::MAX,
            net_rate <= 10000,
    ;
    let net_tokens = (allocated as u128) * (net_rate as u128) / 10000;
    assert(net_tokens <= allocated) by (nonlinear_arith)
        requires
            net_tokens == (allocated as int) * (net_rate as int) / 10000,
            net_rate <= 10000,
            allocated >= 0,
    ;
    assert((net_tokens as int) * (liquidity_bp as int) <= u64::MAX * 65535) by (nonlinear_arith)
        requires
            net_tokens <= u64::MAX,
            liquidity_bp <= 65535,
    ;
    let pool = net_tokens * (liquidity_bp as u128) / 10000;
    if pool > u64::MAX as u128 {
        None
    } else {
        Some(pool as u64)
    }
}

} // verus!

//! The profitability metric: what an option would be worth if it were
//! exercised at the current price of the stock, less the premium paid for
//! it, as a percentage of that premium. This is a screening figure. It is
//! no pricing model: time value, volatility and interest play no part.

use crate::models::decimal::Decimal;
use crate::models::option_chain::OptionType;
use vstd::prelude::*;

verus! {

/// A gain of `gain` on a premium of `premium`, as a percentage of the
/// premium in ten-thousandths of a percent: `100 * gain / premium`, rounded
/// down to the last place that a `Decimal` holds and capped at the largest
/// `Decimal`. A loss counts as zero.
pub open spec fn premium_return(gain: int, premium: int) -> int
    recommends
        premium > 0,
{
    if gain <= 0 {
        0
    } else if gain * 1_000_000 / premium > i64::MAX {
        i64::MAX as int
    } else {
        gain * 1_000_000 / premium
    }
}

/// The return of a call: nothing for an unusable quote (a strike or a
/// premium that is not positive) and nothing unless the stock stands above
/// the strike; otherwise the return on the premium of what the stock stands
/// above strike and premium together.
pub open spec fn call_profit(strike: int, option_price: int, stock_price: int) -> int {
    if strike <= 0 || option_price <= 0 {
        0
    } else if stock_price > strike {
        premium_return(stock_price - strike - option_price, option_price)
    } else {
        0
    }
}

/// The return of a put: nothing for an unusable quote and nothing unless the
/// stock stands below the strike; otherwise the return on the premium of
/// what the strike stands above stock price and premium together.
pub open spec fn put_profit(strike: int, option_price: int, stock_price: int) -> int {
    if strike <= 0 || option_price <= 0 {
        0
    } else if strike > stock_price {
        premium_return(strike - stock_price - option_price, option_price)
    } else {
        0
    }
}

/// The return of an option of the given kind.
pub open spec fn profit_percent(
    strike: int,
    option_price: int,
    stock_price: int,
    option_type: OptionType,
) -> int {
    match option_type {
        OptionType::Call => call_profit(strike, option_price, stock_price),
        OptionType::Put => put_profit(strike, option_price, stock_price),
    }
}

fn return_on_premium(gain: i128, premium: i64) -> (r: i64)
    requires
        premium > 0,
        -3 * 0x8000_0000_0000_0000 <= gain <= 3 * 0x8000_0000_0000_0000,
    ensures
        r == premium_return(gain as int, premium as int),
{
    if gain <= 0 {
        0
    } else {
        let exact: i128 = gain * 1_000_000 / (premium as i128);
        if exact > i64::MAX as i128 {
            i64::MAX
        } else {
            exact as i64
        }
    }
}

/// The profit percentage of a call; see [`call_profit`].
pub fn calculate_call_profit(strike: Decimal, option_price: Decimal, stock_price: Decimal) -> (r:
    Decimal)
    ensures
        r@ == call_profit(strike@, option_price@, stock_price@),
{
    if strike.units <= 0 || option_price.units <= 0 {
        return Decimal::zero();
    }
    if stock_price.units > strike.units {
        let gain: i128 = stock_price.units as i128 - strike.units as i128
            - option_price.units as i128;
        Decimal::from_units(return_on_premium(gain, option_price.units))
    } else {
        Decimal::zero()
    }
}

/// The profit percentage of a put; see [`put_profit`].
pub fn calculate_put_profit(strike: Decimal, option_price: Decimal, stock_price: Decimal) -> (r:
    Decimal)
    ensures
        r@ == put_profit(strike@, option_price@, stock_price@),
{
    if strike.units <= 0 || option_price.units <= 0 {
        return Decimal::zero();
    }
    if strike.units > stock_price.units {
        let gain: i128 = strike.units as i128 - stock_price.units as i128
            - option_price.units as i128;
        Decimal::from_units(return_on_premium(gain, option_price.units))
    } else {
        Decimal::zero()
    }
}

/// The profit percentage of an option of the given kind. Never fails: an
/// unusable quote earns zero.
pub fn calculate_profit_percent(
    strike: Decimal,
    option_price: Decimal,
    stock_price: Decimal,
    option_type: &OptionType,
) -> (r: Decimal)
    ensures
        r@ == profit_percent(strike@, option_price@, stock_price@, *option_type),
{
    match option_type {
        OptionType::Call => calculate_call_profit(strike, option_price, stock_price),
        OptionType::Put => calculate_put_profit(strike, option_price, stock_price),
    }
}

/// A larger gain on the same premium earns no less.
pub proof fn lemma_premium_return_grows(lower: int, higher: int, premium: int)
    requires
        premium > 0,
        lower <= higher,
    ensures
        0 <= premium_return(lower, premium) <= premium_return(higher, premium),
{
    if lower > 0 {
        vstd::arithmetic::div_mod::lemma_div_is_ordered(
            lower * 1_000_000,
            higher * 1_000_000,
            premium,
        );
    }
    if higher > 0 {
        vstd::arithmetic::div_mod::lemma_div_pos_is_pos(higher * 1_000_000, premium);
    }
}

/// An unusable quote earns nothing: with a strike or a premium that is not
/// positive the profit is zero, whatever the kind and wherever the stock
/// stands.
pub proof fn unusable_quote_earns_nothing(
    strike: Decimal,
    option_price: Decimal,
    stock_price: Decimal,
    option_type: OptionType,
)
    requires
        strike@ <= 0 || option_price@ <= 0,
    ensures
        profit_percent(strike@, option_price@, stock_price@, option_type) == 0,
{
}

/// A profit is never negative and never more than a `Decimal` can hold.
pub proof fn profit_fits_a_decimal(
    strike: Decimal,
    option_price: Decimal,
    stock_price: Decimal,
    option_type: OptionType,
)
    ensures
        0 <= profit_percent(strike@, option_price@, stock_price@, option_type) <= i64::MAX,
{
    if option_price@ > 0 {
        lemma_premium_return_grows(
            stock_price@ - strike@ - option_price@,
            stock_price@ - strike@ - option_price@,
            option_price@,
        );
        lemma_premium_return_grows(
            strike@ - stock_price@ - option_price@,
            strike@ - stock_price@ - option_price@,
            option_price@,
        );
    }
}

/// For a given strike and premium, the profit of a call does not fall as
/// the stock rises.
pub proof fn call_profit_rises_with_stock(
    strike: Decimal,
    option_price: Decimal,
    lower: Decimal,
    higher: Decimal,
)
    requires
        lower@ <= higher@,
    ensures
        call_profit(strike@, option_price@, lower@) <= call_profit(
            strike@,
            option_price@,
            higher@,
        ),
{
    if strike@ > 0 && option_price@ > 0 && higher@ > strike@ {
        lemma_premium_return_grows(
            lower@ - strike@ - option_price@,
            higher@ - strike@ - option_price@,
            option_price@,
        );
    }
}

/// A call earns nothing while the stock stands at or below the strike.
pub proof fn call_out_of_the_money_earns_nothing(
    strike: Decimal,
    option_price: Decimal,
    stock_price: Decimal,
)
    requires
        stock_price@ <= strike@,
    ensures
        call_profit(strike@, option_price@, stock_price@) == 0,
{
}

/// For a given strike and premium, the profit of a put does not fall as the
/// stock falls.
pub proof fn put_profit_rises_as_stock_falls(
    strike: Decimal,
    option_price: Decimal,
    higher: Decimal,
    lower: Decimal,
)
    requires
        lower@ <= higher@,
    ensures
        put_profit(strike@, option_price@, higher@) <= put_profit(
            strike@,
            option_price@,
            lower@,
        ),
{
    if strike@ > 0 && option_price@ > 0 && strike@ > lower@ {
        lemma_premium_return_grows(
            strike@ - higher@ - option_price@,
            strike@ - lower@ - option_price@,
            option_price@,
        );
    }
}

/// A put earns nothing while the stock stands at or above the strike.
pub proof fn put_out_of_the_money_earns_nothing(
    strike: Decimal,
    option_price: Decimal,
    stock_price: Decimal,
)
    requires
        stock_price@ >= strike@,
    ensures
        put_profit(strike@, option_price@, stock_price@) == 0,
{
}

/// The return on a premium is the exact ratio rounded down: unless the cap
/// was reached, `100 * gain / premium` lies between the return and the next
/// ten-thousandth of a percent above it.
pub proof fn premium_return_is_the_ratio_rounded_down(gain: int, premium: int)
    requires
        premium > 0,
        gain > 0,
    ensures
        premium_return(gain, premium) * premium <= gain * 1_000_000,
        premium_return(gain, premium) < i64::MAX ==> gain * 1_000_000 < (premium_return(
            gain,
            premium,
        ) + 1) * premium,
{
    let n = gain * 1_000_000;
    let q = n / premium;
    vstd::arithmetic::div_mod::lemma_fundamental_div_mod(n, premium);
    vstd::arithmetic::div_mod::lemma_mod_bound(n, premium);
    vstd::arithmetic::div_mod::lemma_div_pos_is_pos(n, premium);
    assert(n == premium * q + n % premium);
    assert(q * premium == premium * q) by (nonlinear_arith);
    assert((q + 1) * premium == premium * q + premium) by (nonlinear_arith);
    if q > i64::MAX {
        assert(i64::MAX * premium <= q * premium) by (nonlinear_arith)
            requires
                i64::MAX <= q,
                premium > 0,
        ;
    }
}

/// Rounding down to the last place of a `Decimal` moves no profit across a
/// threshold: the profit reaches `threshold` exactly when the exact ratio
/// `100 * gain / premium` does.
pub proof fn threshold_is_exact(gain: int, premium: int, threshold: Decimal)
    requires
        premium > 0,
        gain > 0,
    ensures
        premium_return(gain, premium) >= threshold@ <==> gain * 1_000_000 >= threshold@ * premium,
{
    let n = gain * 1_000_000;
    let q = n / premium;
    vstd::arithmetic::div_mod::lemma_fundamental_div_mod(n, premium);
    vstd::arithmetic::div_mod::lemma_mod_bound(n, premium);
    assert(n == premium * q + n % premium);
    let t = threshold@;
    if q >= t {
        assert(premium * q >= premium * t) by (nonlinear_arith)
            requires
                q >= t,
                premium > 0,
        ;
        assert(t * premium == premium * t) by (nonlinear_arith);
    } else {
        assert(premium * (q + 1) <= premium * t) by (nonlinear_arith)
            requires
                q + 1 <= t,
                premium > 0,
        ;
        assert(premium * (q + 1) == premium * q + premium) by (nonlinear_arith);
        assert(t * premium == premium * t) by (nonlinear_arith);
    }
}

} // verus!

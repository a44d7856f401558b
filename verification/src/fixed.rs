//! Exact fixed-point arithmetic for prices, sizes and fractions.
//!
//! Every market quantity in this crate is an integer count of `SCALE`-ths:
//! a price of `1.5` is stored as `1_500_000`. All arithmetic is performed
//! in 128-bit intermediates and specified exactly, so there is no rounding
//! beyond what each contract states.

use vstd::prelude::*;
use vstd::arithmetic::div_mod::{
    lemma_div_is_ordered, lemma_div_is_ordered_by_denominator, lemma_div_multiples_vanish,
    lemma_fundamental_div_mod,
};
use vstd::arithmetic::mul::{lemma_mul_inequality, lemma_mul_nonnegative};

verus! {

/// Number of fixed-point units in one whole unit (six decimal digits).
pub const SCALE: u64 = 1_000_000;

/// Largest admitted market price, in fixed-point units (ten million whole units).
pub const MAX_PRICE: u64 = 10_000_000_000_000;

/// Smallest admitted market price, in fixed-point units (one hundredth).
pub const MIN_PRICE: u64 = 10_000;

/// Largest admitted position size, in fixed-point units.
pub const MAX_SIZE: u64 = 2_000_000_000_000_000_000;

/// Largest admitted notional value (capital times leverage), in fixed-point units.
pub const MAX_NOTIONAL: u64 = 10_000_000_000_000_000;

/// Fixed-point product `a * b / SCALE`, truncated toward zero.
pub fn mul_fp(a: u64, b: u64) -> (r: u64)
    requires
        a * b / (SCALE as int) <= u64::MAX,
    ensures
        r == a * b / (SCALE as int),
{
    (((a as u128) * (b as u128)) / (SCALE as u128)) as u64
}

/// The fraction `frac` (in `SCALE`-ths) of `price`, truncated:
/// the absolute offset that a percentage-style parameter takes off or onto a price.
pub open spec fn frac_of(price: int, frac: int) -> int {
    price * frac / (SCALE as int)
}

/// A fraction of at most one leaves a value no larger than the value itself.
pub proof fn lemma_frac_of_le(price: int, frac: int)
    requires
        0 <= price,
        0 <= frac <= SCALE,
    ensures
        0 <= frac_of(price, frac) <= price,
{
    lemma_mul_nonnegative(price, frac);
    lemma_div_is_ordered(0, price * frac, SCALE as int);
    lemma_mul_inequality(frac, SCALE as int, price);
    lemma_div_is_ordered(price * frac, (SCALE as int) * price, SCALE as int);
    lemma_div_multiples_vanish(price, SCALE as int);
}

/// `price` rounded to the nearest multiple of `tick_size`, half away from zero.
pub open spec fn spec_round_to_tick(price: int, tick_size: int) -> int {
    (2 * price + tick_size) / (2 * tick_size) * tick_size
}

/// Rounding to a tick moves a price by at most half a tick upward.
pub proof fn lemma_round_to_tick_bound(price: int, tick_size: int)
    requires
        0 <= price,
        1 <= tick_size,
    ensures
        0 <= spec_round_to_tick(price, tick_size) <= price + tick_size,
{
    let q = (2 * price + tick_size) / (2 * tick_size);
    lemma_fundamental_div_mod(2 * price + tick_size, 2 * tick_size);
    assert(0 <= q) by {
        lemma_div_is_ordered(0, 2 * price + tick_size, 2 * tick_size);
    };
    assert(q * tick_size >= 0) by (nonlinear_arith)
        requires
            q >= 0 && tick_size >= 1,
    ;
    assert(2 * (q * tick_size) <= 2 * price + tick_size) by (nonlinear_arith)
        requires
            2 * tick_size * q <= 2 * price + tick_size && tick_size >= 1,
    ;
}

/// Rounds `price` to the nearest multiple of `tick_size`, half away from zero.
/// This is the tick-size alignment applied to every price sent to the gateway.
pub fn get_price(price: u64, tick_size: u64) -> (r: u64)
    requires
        1 <= tick_size,
        price + tick_size <= u64::MAX,
    ensures
        r == spec_round_to_tick(price as int, tick_size as int),
{
    proof {
        lemma_round_to_tick_bound(price as int, tick_size as int);
    }
    let num: u128 = 2 * (price as u128) + (tick_size as u128);
    let q: u128 = num / (2 * (tick_size as u128));
    (q * (tick_size as u128)) as u64
}

/// The order size bought with `amount` at `price`, rounded to two decimal
/// places (half away from zero): the nearest multiple of `SCALE / 100`.
pub open spec fn spec_size_for(amount: int, price: int) -> int {
    10_000 * ((200 * amount + price) / (2 * price))
}

/// The rounded size is within one rounding step of `100 * amount / price`
/// hundredths, so it is bounded whenever the inputs are.
pub proof fn lemma_size_for_bound(amount: int, price: int)
    requires
        0 <= amount,
        1 <= price,
    ensures
        0 <= spec_size_for(amount, price) <= 10_000 * (100 * amount / price) + 10_000,
{
    let a: int = amount;
    let p: int = price;
    let q: int = (200 * a + p) / (2 * p);
    let q0: int = 100 * a / p;
    lemma_fundamental_div_mod(100 * a, p);
    lemma_fundamental_div_mod(200 * a + p, 2 * p);
    assert(0 <= q) by {
        lemma_div_is_ordered(0, 200 * a + p, 2 * p);
    };
    // 200 * a + p < 2 * p * (q0 + 2), hence q <= q0 + 1.
    assert(q <= q0 + 1) by (nonlinear_arith)
        requires
            200 * a + p == 2 * p * q + (200 * a + p) % (2 * p) && 0 <= (200 * a + p) % (2 * p) && 100
                * a == p * q0 + (100 * a) % p && 0 <= (100 * a) % p < p && p >= 1,
    ;
}

/// Within the admitted notional and price ranges, a rounded size always
/// fits in the admitted size range.
pub proof fn lemma_size_for_range(amount: int, price: int)
    requires
        0 <= amount <= MAX_NOTIONAL,
        MIN_PRICE <= price,
    ensures
        0 <= spec_size_for(amount, price) <= MAX_SIZE,
{
    lemma_size_for_bound(amount, price);
    lemma_div_is_ordered(100 * amount, 100 * (MAX_NOTIONAL as int), price);
    lemma_div_is_ordered_by_denominator(100 * (MAX_NOTIONAL as int), MIN_PRICE as int, price);
}

/// Size of the order that spends `amount` (a notional value, in fixed-point
/// units) at `price`: the quotient rounded to two decimal places, half up.
pub fn get_size(amount: u64, price: u64) -> (r: u64)
    requires
        1 <= price,
        spec_size_for(amount as int, price as int) <= u64::MAX,
    ensures
        r == spec_size_for(amount as int, price as int),
{
    let num: u128 = 200 * (amount as u128) + (price as u128);
    let q: u128 = num / (2 * (price as u128));
    proof {
        lemma_size_for_bound(amount as int, price as int);
    }
    (10_000 * q) as u64
}

/// Compares the rationals `a1 / b1` and `a2 / b2` exactly, without overflow:
/// true exactly when `a1 / b1 > a2 / b2`.
pub fn ratio_gt(a1: u128, b1: u128, a2: u128, b2: u128) -> (r: bool)
    requires
        1 <= b1 <= u64::MAX,
        1 <= b2 <= u64::MAX,
    ensures
        r == (a1 * b2 > a2 * b1),
{
    let d1: u128 = a1 / b1;
    let r1: u128 = a1 % b1;
    let d2: u128 = a2 / b2;
    let r2: u128 = a2 % b2;
    proof {
        lemma_fundamental_div_mod(a1 as int, b1 as int);
        lemma_fundamental_div_mod(a2 as int, b2 as int);
        assert(r1 < b1 && r2 < b2);
        assert(r1 * b2 <= u128::MAX && r2 * b1 <= u128::MAX) by (nonlinear_arith)
            requires
                0 <= r1 < b1 <= u64::MAX && 0 <= r2 < b2 <= u64::MAX,
        ;
        if d1 > d2 {
            assert(a1 * b2 > a2 * b1) by (nonlinear_arith)
                requires
                    a1 == b1 * d1 + r1 && a2 == b2 * d2 + r2 && 0 <= r1 < b1 && 0 <= r2 < b2 && d1
                        > d2 && b1 >= 1 && b2 >= 1,
            ;
        } else if d1 < d2 {
            assert(a1 * b2 < a2 * b1) by (nonlinear_arith)
                requires
                    a1 == b1 * d1 + r1 && a2 == b2 * d2 + r2 && 0 <= r1 < b1 && 0 <= r2 < b2 && d1
                        < d2 && b1 >= 1 && b2 >= 1,
            ;
        } else {
            assert((a1 * b2 > a2 * b1) == (r1 * b2 > r2 * b1)) by (nonlinear_arith)
                requires
                    a1 == b1 * d1 + r1 && a2 == b2 * d2 + r2 && 0 <= r1 < b1 && 0 <= r2 < b2 && d1
                        == d2 && b1 >= 1 && b2 >= 1,
            ;
        }
    }
    if d1 != d2 {
        d1 > d2
    } else {
        r1 * b2 > r2 * b1
    }
}

} // verus!

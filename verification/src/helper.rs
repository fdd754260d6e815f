//! Price accumulators kept in 18-decimal fixed point, as the helpers of the
//! earlier pair contract keep them.
use crate::u256::{
    two_pow_128, two_pow_256, u256_from_u128, u256_saturating_add, u256_saturating_mul, u256_value,
    WrappedU256, U256,
};
use sp_arithmetic::FixedPointNumber;
use vstd::prelude::*;

verus! {

/// One in 18-decimal fixed point.
pub open spec fn fixed_one() -> nat {
    1_000_000_000_000_000_000nat
}

/// The inner value of `n / d` in 18-decimal fixed point, rounded down, when
/// `d` is not zero and it fits in 128 bits.
pub open spec fn fixed_ratio(n: u128, d: u128) -> Option<u128> {
    if d == 0 || (n as nat) * fixed_one() / (d as nat) >= two_pow_128() {
        None
    } else {
        Some(((n as nat) * fixed_one() / (d as nat)) as u128)
    }
}

/// `sp_arithmetic::FixedU128::checked_from_rational(n, d)`, taken by its
/// inner value: `n * 10^18 / d` rounded down, or `None` when `d` is zero or
/// the quotient does not fit in 128 bits.
#[verifier::external_body]
fn fixed_from_rational(n: u128, d: u128) -> (r: Option<u128>)
    ensures
        r == fixed_ratio(n, d),
{
    match sp_arithmetic::FixedU128::checked_from_rational(n, d) {
        Some(f) => Some(f.into_inner()),
        None => None,
    }
}

/// `a * b` in 256 bits, saturating.
pub open spec fn sat_mul(a: nat, b: nat) -> nat {
    if a * b < two_pow_256() {
        a * b
    } else {
        (two_pow_256() - 1) as nat
    }
}

/// `a + b` in 256 bits, saturating.
pub open spec fn sat_add(a: nat, b: nat) -> nat {
    if a + b < two_pow_256() {
        a + b
    } else {
        (two_pow_256() - 1) as nat
    }
}

/// The accumulator `last` after `elapsed` more time at the price
/// `numerator / denominator` (counted as 0 when it has no fixed-point value).
pub open spec fn cumulative(last: nat, elapsed: nat, numerator: u128, denominator: u128) -> nat {
    let price: nat = match fixed_ratio(numerator, denominator) {
        Some(p) => p as nat,
        None => 0,
    };
    sat_add(sat_mul(price, elapsed), last)
}

/// Both price accumulators after `time_elapsed` more time at the reserves
/// `(reserve_0, reserve_1)`: the first accumulates `reserve_1 / reserve_0`,
/// the second `reserve_0 / reserve_1`, each saturating at 2^256 - 1.
pub fn update_cumulative(
    price_0_cumulative_last: WrappedU256,
    price_1_cumulative_last: WrappedU256,
    time_elapsed: U256,
    reserve_0: u128,
    reserve_1: u128,
) -> (r: (WrappedU256, WrappedU256))
    ensures
        u256_value(r.0.0) == cumulative(
            u256_value(price_0_cumulative_last.0),
            u256_value(time_elapsed),
            reserve_1,
            reserve_0,
        ),
        u256_value(r.1.0) == cumulative(
            u256_value(price_1_cumulative_last.0),
            u256_value(time_elapsed),
            reserve_0,
            reserve_1,
        ),
{
    let price_0 = match fixed_from_rational(reserve_1, reserve_0) {
        Some(p) => p,
        None => 0,
    };
    let price_1 = match fixed_from_rational(reserve_0, reserve_1) {
        Some(p) => p,
        None => 0,
    };
    let cumulative_0 = u256_saturating_add(
        u256_saturating_mul(u256_from_u128(price_0), time_elapsed),
        price_0_cumulative_last.0,
    );
    let cumulative_1 = u256_saturating_add(
        u256_saturating_mul(u256_from_u128(price_1), time_elapsed),
        price_1_cumulative_last.0,
    );
    (WrappedU256(cumulative_0), WrappedU256(cumulative_1))
}

/// The accumulators never go down: each update adds a non-negative amount,
/// saturating at 2^256 - 1.
pub proof fn law_cumulative_never_decreases(last: nat, elapsed: nat, numerator: u128, denominator: u128)
    requires
        last < two_pow_256(),
    ensures
        cumulative(last, elapsed, numerator, denominator) >= last,
        elapsed == 0 ==> cumulative(last, elapsed, numerator, denominator) == last,
{
    let price: nat = match fixed_ratio(numerator, denominator) {
        Some(p) => p as nat,
        None => 0,
    };
    if elapsed == 0 {
        assert(price * elapsed == 0) by (nonlinear_arith)
            requires
                elapsed == 0,
        ;
    }
}

} // verus!

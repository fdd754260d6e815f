//! The constant-product pricing formulas shared by the routers: what a
//! trade against reserves `(r_in, r_out)` yields, or costs, when the pool
//! keeps `1000 - fee_num` per mille of the input as fee.
use crate::errors::MathError;
use crate::u256::{
    casted_mul, lemma_u256_value_bound, two_pow_128, two_pow_256,
    u256_checked_add, u256_checked_div, u256_checked_mul, u256_from_u128, u256_try_into_u128,
    u256_value,
};
use vstd::prelude::*;

verus! {

/// The output of a trade of `amount_in` against reserves `(r_in, r_out)`
/// when `fee_num / 1000` of the input counts.
pub open spec fn amount_out_formula(amount_in: nat, r_in: nat, r_out: nat, fee_num: nat) -> nat {
    amount_in * fee_num * r_out / (r_in * 1000 + amount_in * fee_num)
}

/// The input that a trade for `amount_out` against reserves `(r_in, r_out)`
/// costs when `fee_num / 1000` of the input counts: the least one, rounded
/// up by one.
pub open spec fn amount_in_formula(amount_out: nat, r_in: nat, r_out: nat, fee_num: nat) -> nat {
    r_in * amount_out * 1000 / ((r_out - amount_out) as nat * fee_num) + 1
}

/// The amount of the second token worth `amount` of the first at the ratio
/// of the reserves.
pub open spec fn quote_formula(amount: nat, r0: nat, r1: nat) -> nat {
    amount * r1 / r0
}

proof fn lemma_mul_bound(a: nat, b: nat, ba: nat, bb: nat)
    requires
        a < ba,
        b <= bb,
    ensures
        a * b <= ba * bb,
{
    assert(a * b <= ba * bb) by (nonlinear_arith)
        requires
            a < ba,
            b <= bb,
    ;
}

/// `amount_out_formula`, or `MulOverflow(13)` when `amount_in * fee_num * r_out`
/// does not fit in 256 bits.
pub fn amount_out_core(amount_in: u128, r_in: u128, r_out: u128, fee_num: u128) -> (r: Result<
    u128,
    MathError,
>)
    requires
        amount_in > 0,
        r_in > 0,
        r_out > 0,
        0 < fee_num <= 1000,
    ensures
        r is Ok <==> amount_in * fee_num * r_out < two_pow_256(),
        r is Err ==> r == Err::<u128, MathError>(MathError::MulOverflow(13)),
        r is Ok ==> r.unwrap() == amount_out_formula(
            amount_in as nat,
            r_in as nat,
            r_out as nat,
            fee_num as nat,
        ),
        r is Ok ==> r.unwrap() < r_out,
{
    let with_fee = casted_mul(amount_in, fee_num);
    let numerator = match u256_checked_mul(with_fee, u256_from_u128(r_out)) {
        Some(v) => v,
        None => return Err(MathError::MulOverflow(13)),
    };
    let scaled = casted_mul(r_in, 1000);
    proof {
        lemma_mul_bound(amount_in as nat, fee_num as nat, two_pow_128(), 1000);
        lemma_mul_bound(r_in as nat, 1000, two_pow_128(), 1000);
    }
    let denominator = match u256_checked_add(scaled, with_fee) {
        Some(v) => v,
        None => return Err(MathError::AddOverflow(2)),
    };
    let quotient = match u256_checked_div(numerator, denominator) {
        Some(v) => v,
        None => return Err(MathError::DivByZero(7)),
    };
    let ghost a = amount_in as nat * fee_num as nat;
    let ghost d = r_in as nat * 1000 + a;
    proof {
        assert(a * (r_out as nat) / d < r_out as nat) by (nonlinear_arith)
            requires
                a < d,
                d > 0,
                r_out > 0,
        {
            assert(a * (r_out as nat) < d * (r_out as nat));
        }
    }
    match u256_try_into_u128(quotient) {
        Some(v) => Ok(v),
        None => Err(MathError::CastOverflow(4)),
    }
}

/// `amount_in_formula`, or an error: `SubUnderflow(15)` when `amount_out`
/// exceeds `r_out`, `MulOverflow(14)` when `r_in * amount_out * 1000` does not
/// fit in 256 bits, `DivByZero(8)` when `amount_out` is `r_out`, and
/// `CastOverflow(5)` when the result does not fit in 128 bits.
pub fn amount_in_core(amount_out: u128, r_in: u128, r_out: u128, fee_num: u128) -> (r: Result<
    u128,
    MathError,
>)
    requires
        amount_out > 0,
        r_in > 0,
        r_out > 0,
        0 < fee_num <= 1000,
    ensures
        r_in * amount_out * 1000 >= two_pow_256() ==> r == Err::<u128, MathError>(
            MathError::MulOverflow(14),
        ),
        r_in * amount_out * 1000 < two_pow_256() && amount_out > r_out ==> r == Err::<
            u128,
            MathError,
        >(MathError::SubUnderflow(15)),
        r_in * amount_out * 1000 < two_pow_256() && amount_out == r_out ==> r == Err::<
            u128,
            MathError,
        >(MathError::DivByZero(8)),
        r_in * amount_out * 1000 < two_pow_256() && amount_out < r_out && amount_in_formula(
            amount_out as nat,
            r_in as nat,
            r_out as nat,
            fee_num as nat,
        ) >= two_pow_128() ==> r == Err::<u128, MathError>(MathError::CastOverflow(5)),
        r is Ok <==> (r_in * amount_out * 1000 < two_pow_256() && amount_out < r_out
            && amount_in_formula(amount_out as nat, r_in as nat, r_out as nat, fee_num as nat)
            < two_pow_128()),
        r is Ok ==> r.unwrap() == amount_in_formula(
            amount_out as nat,
            r_in as nat,
            r_out as nat,
            fee_num as nat,
        ),
{
    let numerator = match u256_checked_mul(casted_mul(r_in, amount_out), u256_from_u128(1000)) {
        Some(v) => v,
        None => return Err(MathError::MulOverflow(14)),
    };
    let left = match r_out.checked_sub(amount_out) {
        Some(v) => v,
        None => return Err(MathError::SubUnderflow(15)),
    };
    let denominator = casted_mul(left, fee_num);
    proof {
        if left > 0 {
            assert((left as nat) * (fee_num as nat) > 0) by (nonlinear_arith)
                requires
                    left > 0,
                    fee_num > 0,
            ;
        }
    }
    let quotient = match u256_checked_div(numerator, denominator) {
        Some(v) => v,
        None => return Err(MathError::DivByZero(8)),
    };
    proof {
        assert(u256_value(quotient) <= u256_value(numerator)) by (nonlinear_arith)
            requires
                u256_value(quotient) == u256_value(numerator) / u256_value(denominator),
                u256_value(denominator) > 0,
        ;
        lemma_u256_value_bound(numerator);
    }
    let plus_one = match u256_checked_add(quotient, u256_from_u128(1)) {
        Some(v) => v,
        None => return Err(MathError::AddOverflow(3)),
    };
    match u256_try_into_u128(plus_one) {
        Some(v) => Ok(v),
        None => Err(MathError::CastOverflow(5)),
    }
}

/// `quote_formula`, or `CastOverflow(3)` when it does not fit in 128 bits.
pub fn quote_core(amount: u128, r0: u128, r1: u128) -> (r: Result<u128, MathError>)
    requires
        r0 > 0,
    ensures
        r is Ok <==> quote_formula(amount as nat, r0 as nat, r1 as nat) < two_pow_128(),
        r is Err ==> r == Err::<u128, MathError>(MathError::CastOverflow(3)),
        r is Ok ==> r.unwrap() == quote_formula(amount as nat, r0 as nat, r1 as nat),
{
    let quotient = match u256_checked_div(casted_mul(amount, r1), u256_from_u128(r0)) {
        Some(v) => v,
        None => return Err(MathError::DivByZero(6)),
    };
    match u256_try_into_u128(quotient) {
        Some(v) => Ok(v),
        None => Err(MathError::CastOverflow(3)),
    }
}

/// Buying `amount_out` for the input that `amount_in_formula` asks never
/// yields less than `amount_out`: the rounding favours the pool.
pub proof fn lemma_amount_in_buys_amount_out(amount_out: nat, r_in: nat, r_out: nat, fee_num: nat)
    requires
        0 < amount_out < r_out,
        r_in > 0,
        0 < fee_num <= 1000,
    ensures
        amount_out_formula(amount_in_formula(amount_out, r_in, r_out, fee_num), r_in, r_out, fee_num)
            >= amount_out,
{
    let x = amount_out;
    let left = (r_out - x) as nat;
    let d = left * fee_num;
    let n = r_in * x * 1000;
    let a = n / d + 1;
    assert(d > 0) by (nonlinear_arith)
        requires
            left > 0,
            fee_num > 0,
            d == left * fee_num,
    ;
    // a * d > n
    assert(a * d > n) by (nonlinear_arith)
        requires
            d > 0,
            a == n / d + 1,
    ;
    let af = a * fee_num;
    let den = r_in * 1000 + af;
    // af * left > r_in * x * 1000, so af * r_out = af * left + af * x > x * den
    assert(af * left == a * d) by (nonlinear_arith)
        requires
            af == a * fee_num,
            d == left * fee_num,
    ;
    assert(af * r_out == af * left + af * x) by (nonlinear_arith)
        requires
            r_out == left + x,
    ;
    assert(x * den == r_in * x * 1000 + af * x) by (nonlinear_arith)
        requires
            den == r_in * 1000 + af,
    ;
    assert(af * r_out > x * den);
    assert(den > 0);
    assert(af * r_out / den >= x) by (nonlinear_arith)
        requires
            af * r_out > x * den,
            den > 0,
    ;
}

/// A trade never takes the whole output reserve.
pub proof fn lemma_amount_out_below_reserve(amount_in: nat, r_in: nat, r_out: nat, fee_num: nat)
    requires
        r_in > 0,
        r_out > 0,
    ensures
        amount_out_formula(amount_in, r_in, r_out, fee_num) < r_out,
{
    let a = amount_in * fee_num;
    let d = r_in * 1000 + a;
    assert(a * r_out / d < r_out) by (nonlinear_arith)
        requires
            a < d,
            d > 0,
            r_out > 0,
    {
        assert(a * r_out < d * r_out);
    }
}

/// More input never yields less output.
pub proof fn lemma_amount_out_monotone(x: nat, y: nat, r_in: nat, r_out: nat, fee_num: nat)
    requires
        x <= y,
        r_in > 0,
    ensures
        amount_out_formula(x, r_in, r_out, fee_num) <= amount_out_formula(y, r_in, r_out, fee_num),
{
    let ax = x * fee_num;
    let ay = y * fee_num;
    let bx = r_in * 1000 + ax;
    let by = r_in * 1000 + ay;
    let nx = ax * r_out;
    let ny = ay * r_out;
    assert(ax <= ay) by (nonlinear_arith)
        requires
            x <= y,
            ax == x * fee_num,
            ay == y * fee_num,
    ;
    assert(bx > 0 && by > 0);
    // nx * by <= ny * bx, because ax * r_in <= ay * r_in
    assert(nx * by <= ny * bx) by (nonlinear_arith)
        requires
            nx == ax * r_out,
            ny == ay * r_out,
            bx == r_in * 1000 + ax,
            by == r_in * 1000 + ay,
            ax <= ay,
    {
        assert(nx * by == ax * r_out * (r_in * 1000) + ax * r_out * ay);
        assert(ny * bx == ay * r_out * (r_in * 1000) + ay * r_out * ax);
        assert(ax * r_out * (r_in * 1000) <= ay * r_out * (r_in * 1000));
    }
    let q = nx / bx;
    assert(q * bx <= nx) by (nonlinear_arith)
        requires
            q == nx / bx,
            bx > 0,
    ;
    assert(q * by * bx <= ny * bx) by (nonlinear_arith)
        requires
            q * bx <= nx,
            nx * by <= ny * bx,
            by > 0,
    {
        assert(q * bx * by <= nx * by);
    }
    assert(q * by <= ny) by (nonlinear_arith)
        requires
            q * by * bx <= ny * bx,
            bx > 0,
    ;
    assert(q <= ny / by) by (nonlinear_arith)
        requires
            q * by <= ny,
            by > 0,
    ;
}

} // verus!

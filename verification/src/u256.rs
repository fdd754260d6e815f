//! 256-bit unsigned integers, held as four little-endian 64-bit limbs, and
//! the arithmetic on them that `primitive_types::U256` performs.
use vstd::prelude::*;

verus! {

/// 2^64
pub open spec fn two_pow_64() -> nat {
    0x1_0000_0000_0000_0000nat
}

/// 2^128
pub open spec fn two_pow_128() -> nat {
    0x1_0000_0000_0000_0000_0000_0000_0000_0000nat
}

/// 2^256
pub open spec fn two_pow_256() -> nat {
    0x1_0000_0000_0000_0000_0000_0000_0000_0000_0000_0000_0000_0000_0000_0000_0000_0000nat
}

/// A 256-bit unsigned integer: limb `i` carries the weight 2^(64 i).
#[derive(Clone, Copy, Debug)]
pub struct U256(pub [u64; 4]);

/// The number a `U256` stands for.
pub open spec fn u256_value(x: U256) -> nat {
    x.0[0] as nat + x.0[1] as nat * two_pow_64() + x.0[2] as nat * (two_pow_64() * two_pow_64())
        + x.0[3] as nat * (two_pow_64() * two_pow_64() * two_pow_64())
}

/// A `U256` as stored by the pair contract.
#[derive(Clone, Copy, Debug)]
pub struct WrappedU256(pub U256);

pub proof fn lemma_u256_value_bound(x: U256)
    ensures
        u256_value(x) < two_pow_256(),
{
    let a = x.0[0] as nat;
    let b = x.0[1] as nat;
    let c = x.0[2] as nat;
    let d = x.0[3] as nat;
    let t = two_pow_64();
    assert(a < t && b < t && c < t && d < t);
    assert(a + b * t + c * (t * t) + d * (t * t * t) < t * t * t * t) by (nonlinear_arith)
        requires
            a < t,
            b < t,
            c < t,
            d < t,
            t > 0,
    {
        assert(b * t <= (t - 1) * t);
        assert(c * (t * t) <= (t - 1) * (t * t));
        assert(d * (t * t * t) <= (t - 1) * (t * t * t));
    }
    assert(t * t * t * t == two_pow_256());
}

impl PartialEq for U256 {
    fn eq(&self, other: &U256) -> (r: bool) {
        broadcast use vstd::array::group_array_axioms;
        let mut i: usize = 0;
        while i < 4
            invariant
                0 <= i <= 4,
                forall|j: int| 0 <= j < i ==> self.0[j] == other.0[j],
            decreases 4 - i,
        {
            if self.0[i] != other.0[i] {
                return false;
            }
            i = i + 1;
        }
        assert(self.0 =~= other.0);
        true
    }
}

impl Eq for U256 {}

impl vstd::std_specs::cmp::PartialEqSpecImpl for U256 {
    open spec fn obeys_eq_spec() -> bool {
        true
    }

    open spec fn eq_spec(&self, other: &U256) -> bool {
        *self == *other
    }
}

/// `primitive_types::U256::from(u128)`: the same number, widened.
#[verifier::external_body]
pub(crate) fn u256_from_u128(x: u128) -> (r: U256)
    ensures
        u256_value(r) == x,
{
    U256(primitive_types::U256::from(x).0)
}

/// `primitive_types::U256::checked_mul`: the product, or `None` when it does
/// not fit in 256 bits.
#[verifier::external_body]
pub(crate) fn u256_checked_mul(a: U256, b: U256) -> (r: Option<U256>)
    ensures
        r.is_some() <==> u256_value(a) * u256_value(b) < two_pow_256(),
        r.is_some() ==> u256_value(r.unwrap()) == u256_value(a) * u256_value(b),
{
    primitive_types::U256(a.0).checked_mul(primitive_types::U256(b.0)).map(|v| U256(v.0))
}

/// `primitive_types::U256::checked_add`: the sum, or `None` when it does not
/// fit in 256 bits.
#[verifier::external_body]
pub(crate) fn u256_checked_add(a: U256, b: U256) -> (r: Option<U256>)
    ensures
        r.is_some() <==> u256_value(a) + u256_value(b) < two_pow_256(),
        r.is_some() ==> u256_value(r.unwrap()) == u256_value(a) + u256_value(b),
{
    primitive_types::U256(a.0).checked_add(primitive_types::U256(b.0)).map(|v| U256(v.0))
}

/// `primitive_types::U256::checked_sub`: the difference, or `None` when `b`
/// exceeds `a`.
#[verifier::external_body]
pub(crate) fn u256_checked_sub(a: U256, b: U256) -> (r: Option<U256>)
    ensures
        r.is_some() <==> u256_value(b) <= u256_value(a),
        r.is_some() ==> u256_value(r.unwrap()) == u256_value(a) - u256_value(b),
{
    primitive_types::U256(a.0).checked_sub(primitive_types::U256(b.0)).map(|v| U256(v.0))
}

/// `primitive_types::U256::checked_div`: the floor quotient, or `None` when
/// the divisor is zero.
#[verifier::external_body]
pub(crate) fn u256_checked_div(a: U256, b: U256) -> (r: Option<U256>)
    ensures
        r.is_some() <==> u256_value(b) != 0,
        r.is_some() ==> u256_value(r.unwrap()) == u256_value(a) / u256_value(b),
{
    primitive_types::U256(a.0).checked_div(primitive_types::U256(b.0)).map(|v| U256(v.0))
}

/// `primitive_types::U256::overflowing_add`, keeping the value only: the sum
/// modulo 2^256.
#[verifier::external_body]
pub(crate) fn u256_wrapping_add(a: U256, b: U256) -> (r: U256)
    ensures
        u256_value(r) == (u256_value(a) + u256_value(b)) % two_pow_256(),
{
    U256(primitive_types::U256(a.0).overflowing_add(primitive_types::U256(b.0)).0.0)
}

/// `primitive_types::U256::saturating_mul`: the product, or 2^256 - 1 when
/// it does not fit.
#[verifier::external_body]
pub(crate) fn u256_saturating_mul(a: U256, b: U256) -> (r: U256)
    ensures
        u256_value(a) * u256_value(b) < two_pow_256() ==> u256_value(r) == u256_value(a)
            * u256_value(b),
        u256_value(a) * u256_value(b) >= two_pow_256() ==> u256_value(r) == two_pow_256() - 1,
{
    U256(primitive_types::U256(a.0).saturating_mul(primitive_types::U256(b.0)).0)
}

/// `primitive_types::U256::saturating_add`: the sum, or 2^256 - 1 when it
/// does not fit.
#[verifier::external_body]
pub(crate) fn u256_saturating_add(a: U256, b: U256) -> (r: U256)
    ensures
        u256_value(a) + u256_value(b) < two_pow_256() ==> u256_value(r) == u256_value(a)
            + u256_value(b),
        u256_value(a) + u256_value(b) >= two_pow_256() ==> u256_value(r) == two_pow_256() - 1,
{
    U256(primitive_types::U256(a.0).saturating_add(primitive_types::U256(b.0)).0)
}

/// `primitive_types::U256::integer_sqrt`: the largest `r` with `r * r <= a`.
#[verifier::external_body]
pub(crate) fn u256_integer_sqrt(a: U256) -> (r: U256)
    ensures
        u256_value(r) * u256_value(r) <= u256_value(a),
        u256_value(a) < (u256_value(r) + 1) * (u256_value(r) + 1),
{
    U256(primitive_types::U256(a.0).integer_sqrt().0)
}

/// `u128::try_from(primitive_types::U256)`: the number when it fits in 128
/// bits.
#[verifier::external_body]
pub(crate) fn u256_try_into_u128(a: U256) -> (r: Option<u128>)
    ensures
        r.is_some() <==> u256_value(a) < two_pow_128(),
        r.is_some() ==> r.unwrap() == u256_value(a),
{
    u128::try_from(primitive_types::U256(a.0)).ok()
}

/// `>=` on `primitive_types::U256`: the order of the numbers.
#[verifier::external_body]
pub(crate) fn u256_ge(a: U256, b: U256) -> (r: bool)
    ensures
        r == (u256_value(a) >= u256_value(b)),
{
    primitive_types::U256(a.0) >= primitive_types::U256(b.0)
}

/// The product of two `u128` as a `U256`; it always fits.
pub fn casted_mul(a: u128, b: u128) -> (r: U256)
    ensures
        u256_value(r) == a * b,
{
    let x = u256_from_u128(a);
    let y = u256_from_u128(b);
    proof {
        lemma_u128_product_fits(a, b);
    }
    match u256_checked_mul(x, y) {
        Some(p) => p,
        None => {
            proof {
                assert(false);
            }
            x
        },
    }
}

pub proof fn lemma_u128_product_fits(a: u128, b: u128)
    ensures
        (a as nat) * (b as nat) < two_pow_256(),
{
    let t = two_pow_128();
    assert((a as nat) * (b as nat) < t * t) by (nonlinear_arith)
        requires
            (a as nat) < t,
            (b as nat) < t,
    {
        assert((a as nat) * (b as nat) <= (a as nat) * t);
    }
}

} // verus!

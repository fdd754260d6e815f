//! Small numeric checks used when trying the contracts out.
use crate::account::{account_lt, AccountId};
use vstd::prelude::*;

verus! {

/// `a` and `b` differ by at most `delta`.
pub open spec fn within_delta(a: u128, b: u128, delta: u128) -> bool {
    if a > b {
        a - b <= delta
    } else {
        b - a <= delta
    }
}

/// Whether `a` and `b` differ by at most `delta`, computed without
/// underflow.
pub fn is_approx(a: u128, b: u128, delta: u128) -> (r: bool)
    ensures
        r == within_delta(a, b, delta),
{
    if a > b {
        a - b <= delta
    } else {
        b - a <= delta
    }
}

/// The check that `a` and `b` are equal up to `delta` (`message` names what
/// was compared): it returns only on such inputs, and others are refused
/// by its precondition. A caller that cannot show the bound tests it with
/// `is_approx` first.
pub fn assert_approx(a: u128, b: u128, delta: u128, message: &str)
    requires
        within_delta(a, b, delta),
{
    let diff: u128 = if a > b {
        a - b
    } else {
        b - a
    };
    assert(diff <= delta);
}

/// The block time, in milliseconds, one hour after `now_millis`.
pub fn timestamp_one_hour_forward_millis(now_millis: u64) -> (r: u64)
    requires
        now_millis + 3_600_000 <= u64::MAX,
    ensures
        r == now_millis + 3_600_000,
{
    now_millis + 3_600_000
}

/// The two tokens in the order of their addresses.
pub fn sort_tokens(token_a: AccountId, token_b: AccountId) -> (r: (AccountId, AccountId))
    ensures
        account_lt(token_a, token_b) ==> r == (token_a, token_b),
        !account_lt(token_a, token_b) ==> r == (token_b, token_a),
{
    if token_a.lt(&token_b) {
        (token_a, token_b)
    } else {
        (token_b, token_a)
    }
}

} // verus!

//! Constants shared by the pools.
use crate::account::AccountId;
use vstd::prelude::*;

/// Limits of the stable-swap pool.
pub mod stable_pool;

verus! {

/// Liquidity locked forever at the first deposit into a pair, against
/// price manipulation (UniswapV2 whitepaper, section 3.4).
pub const MINIMUM_LIQUIDITY: u128 = 1000;

/// The address that holds the locked minimum liquidity; its private key is
/// unknown (the hash of "This is Aleph Zero DEX's zero address." to curve25519).
pub fn burn_address() -> (r: AccountId)
    ensures
        r == spec_burn_address(),
{
    AccountId(
        [
            58, 108, 115, 140, 64, 55, 232, 71, 183, 215, 14, 149, 138, 148, 201, 178, 212, 197,
            99, 60, 250, 175, 203, 88, 227, 37, 36, 127, 63, 212, 16, 72,
        ],
    )
}

/// The burn address, as a value of mathematics.
pub open spec fn spec_burn_address() -> AccountId {
    AccountId(
        [
            58, 108, 115, 140, 64, 55, 232, 71, 183, 215, 14, 149, 138, 148, 201, 178, 212, 197,
            99, 60, 250, 175, 203, 88, 227, 37, 36, 127, 63, 212, 16, 72,
        ],
    )
}

} // verus!

//! Limits of the stable-swap pool.
use vstd::prelude::*;

verus! {

/// Most tokens in one pool.
pub const MAX_COINS: usize = 8;

/// Amounts are normalised to this many decimals.
pub const TOKEN_TARGET_DECIMALS: u8 = 18;

/// Token rates carry this many decimals.
pub const RATE_DECIMALS: u8 = 12;

/// 10^RATE_DECIMALS: the rate of a token worth one unit.
pub const RATE_PRECISION: u128 = 1_000_000_000_000;

/// Fees are parts of this.
pub const FEE_DENOM: u32 = 1_000_000_000;

/// Highest trade fee: 1%.
pub const MAX_TRADE_FEE: u32 = 10_000_000;

/// Highest protocol share of the trade fee: 50%.
pub const MAX_PROTOCOL_FEE: u32 = 500_000_000;

/// Least amplification coefficient.
pub const MIN_AMP: u128 = 1;

/// Greatest amplification coefficient.
pub const MAX_AMP: u128 = 1_000_000;

/// One ramp changes the amplification coefficient at most tenfold.
pub const MAX_AMP_CHANGE: u128 = 10;

/// A ramp lasts at least a day (in milliseconds).
pub const MIN_RAMP_DURATION: u64 = 86_400_000;

} // verus!

//! The pools that the first router can trade through when a path names
//! them: a pair with its sorted tokens and fee, or a stable pool.
//!
//! Reserves and stable-pool quotes are read by the contract shell and
//! handed in here.
use crate::account::{account_lt, AccountId};
use crate::amounts::{amount_in_core, amount_out_core};
use crate::errors::{RouterError, StablePoolError};
use crate::router_v2::{pair_amount_in, pair_amount_out, oriented};
use crate::errors::RouterV2Error;
use vstd::prelude::*;

verus! {

/// Of each 1000 units of input a pair keeps its `fee` as trading fee.
pub const TRADING_FEE_DENOM: u128 = 1000;

/// A pool: a pair of two sorted tokens at an address with its fee, or a
/// stable pool of several tokens at an address.
#[derive(Debug, PartialEq, Eq)]
pub enum Pool {
    Pair((AccountId, AccountId), AccountId, u8),
    StablePool(Vec<AccountId>, AccountId),
}

/// What a pool reports to a price query: a pair its reserves in the order
/// of its sorted tokens, a stable pool its quote (amount and fee) or error.
#[derive(Debug, PartialEq, Eq)]
pub enum Quote {
    Reserves(u128, u128),
    StablePool(Result<(u128, u128), StablePoolError>),
}

/// The call that carries out one hop through a pool.
#[derive(Debug, Clone, Copy, PartialEq, Eq)]
pub enum PoolSwap {
    /// `swap(amount_0_out, amount_1_out, to)` on the pair.
    Pair { pair: AccountId, amount_0_out: u128, amount_1_out: u128, to: AccountId },
    /// `swap_received(token_in, token_out, amount_out, to)` on the stable pool.
    StablePool {
        pool: AccountId,
        token_in: AccountId,
        token_out: AccountId,
        amount_out: u128,
        to: AccountId,
    },
}

/// A pricing error of a pair in the words of this router.
pub open spec fn as_router_error(e: RouterV2Error) -> RouterError {
    match e {
        RouterV2Error::InsufficientAmount => RouterError::InsufficientAmount,
        RouterV2Error::InsufficientLiquidity => RouterError::InsufficientLiquidity,
        RouterV2Error::MathError(m) => RouterError::MathError(m),
        _ => RouterError::InvalidPath,
    }
}

/// A pricing result of a pair in the words of this router.
pub open spec fn as_router_result(r: Result<u128, RouterV2Error>) -> Result<u128, RouterError> {
    match r {
        Ok(v) => Ok(v),
        Err(e) => Err(as_router_error(e)),
    }
}

impl Pool {
    /// The input that a trade from `token_in` to `token_out` for
    /// `amount_out` costs, from what the pool answered to the price query.
    pub fn get_amount_in(
        &self,
        token_in: AccountId,
        token_out: AccountId,
        amount_out: u128,
        quote: Quote,
    ) -> (r: Result<u128, RouterError>)
        requires
            self is Pair ==> quote is Reserves,
            self is StablePool ==> quote is StablePool,
        ensures
            match (self, quote) {
                (Pool::Pair(_, _, fee), Quote::Reserves(r0, r1)) => r == as_router_result(
                    pair_amount_in(
                        amount_out,
                        oriented(token_in, token_out, (r0, r1)).0,
                        oriented(token_in, token_out, (r0, r1)).1,
                        *fee,
                    ),
                ),
                (Pool::StablePool(_, _), Quote::StablePool(q)) => match q {
                    Ok((a, _)) => r == Ok::<u128, RouterError>(a),
                    Err(e) => r == Err::<u128, RouterError>(RouterError::StablePoolError(e)),
                },
                _ => false,
            },
    {
        match (self, quote) {
            (Pool::Pair(_, _, fee), Quote::Reserves(r0, r1)) => {
                let (reserve_in, reserve_out) = if token_in.lt(&token_out) {
                    (r0, r1)
                } else {
                    (r1, r0)
                };
                if !(amount_out > 0) {
                    return Err(RouterError::InsufficientAmount);
                }
                if !(reserve_in > 0 && reserve_out > 0) {
                    return Err(RouterError::InsufficientLiquidity);
                }
                let fee: u128 = *fee as u128;
                match amount_in_core(amount_out, reserve_in, reserve_out, TRADING_FEE_DENOM - fee) {
                    Ok(v) => Ok(v),
                    Err(e) => Err(RouterError::MathError(e)),
                }
            },
            (Pool::StablePool(_, _), Quote::StablePool(q)) => match q {
                Ok((amount_in, _)) => Ok(amount_in),
                Err(e) => Err(RouterError::StablePoolError(e)),
            },
            _ => Err(RouterError::InvalidPath),
        }
    }

    /// The output of a trade of `amount_in` from `token_in` to `token_out`,
    /// from what the pool answered to the price query.
    pub fn get_amount_out(
        &self,
        token_in: AccountId,
        token_out: AccountId,
        amount_in: u128,
        quote: Quote,
    ) -> (r: Result<u128, RouterError>)
        requires
            self is Pair ==> quote is Reserves,
            self is StablePool ==> quote is StablePool,
        ensures
            match (self, quote) {
                (Pool::Pair(_, _, fee), Quote::Reserves(r0, r1)) => r == as_router_result(
                    pair_amount_out(
                        amount_in,
                        oriented(token_in, token_out, (r0, r1)).0,
                        oriented(token_in, token_out, (r0, r1)).1,
                        *fee,
                    ),
                ),
                (Pool::StablePool(_, _), Quote::StablePool(q)) => match q {
                    Ok((a, _)) => r == Ok::<u128, RouterError>(a),
                    Err(e) => r == Err::<u128, RouterError>(RouterError::StablePoolError(e)),
                },
                _ => false,
            },
    {
        match (self, quote) {
            (Pool::Pair(_, _, fee), Quote::Reserves(r0, r1)) => {
                let (reserve_in, reserve_out) = if token_in.lt(&token_out) {
                    (r0, r1)
                } else {
                    (r1, r0)
                };
                if !(amount_in > 0) {
                    return Err(RouterError::InsufficientAmount);
                }
                if !(reserve_in > 0 && reserve_out > 0) {
                    return Err(RouterError::InsufficientLiquidity);
                }
                let fee: u128 = *fee as u128;
                match amount_out_core(amount_in, reserve_in, reserve_out, TRADING_FEE_DENOM - fee) {
                    Ok(v) => Ok(v),
                    Err(e) => Err(RouterError::MathError(e)),
                }
            },
            (Pool::StablePool(_, _), Quote::StablePool(q)) => match q {
                Ok((amount_out, _)) => Ok(amount_out),
                Err(e) => Err(RouterError::StablePoolError(e)),
            },
            _ => Err(RouterError::InvalidPath),
        }
    }

    /// The reserves that a pair reported, with its fee.
    pub fn get_reserves_with_fee(&self, reported: (u128, u128)) -> (r: (Vec<u128>, u8))
        requires
            self is Pair,
        ensures
            r.0@ == seq![reported.0, reported.1],
            r.1 == self->Pair_2,
    {
        match self {
            Pool::Pair(_, _, fee) => (vec![reported.0, reported.1], *fee),
            Pool::StablePool(_, _) => (vec![], 0),
        }
    }

    /// The call that makes the pool pay `amount_out` of `token_out` to `to`
    /// for the `token_in` it received; the tokens must differ.
    pub fn swap(&self, token_in: AccountId, token_out: AccountId, amount_out: u128, to: AccountId) -> (r:
        Result<PoolSwap, RouterError>)
        ensures
            token_in == token_out ==> r == Err::<PoolSwap, RouterError>(
                RouterError::IdenticalAddresses,
            ),
            token_in != token_out ==> match self {
                Pool::Pair(_, pair, _) => r == Ok::<PoolSwap, RouterError>(
                    if account_lt(token_in, token_out) {
                        PoolSwap::Pair { pair: *pair, amount_0_out: 0, amount_1_out: amount_out, to }
                    } else {
                        PoolSwap::Pair { pair: *pair, amount_0_out: amount_out, amount_1_out: 0, to }
                    },
                ),
                Pool::StablePool(_, pool) => r == Ok::<PoolSwap, RouterError>(
                    PoolSwap::StablePool { pool: *pool, token_in, token_out, amount_out, to },
                ),
            },
    {
        if !(token_in != token_out) {
            return Err(RouterError::IdenticalAddresses);
        }
        match self {
            Pool::Pair(_, pair, _) => {
                let (amount_0_out, amount_1_out) = if token_in.lt(&token_out) {
                    (0, amount_out)
                } else {
                    (amount_out, 0)
                };
                Ok(PoolSwap::Pair { pair: *pair, amount_0_out, amount_1_out, to })
            },
            Pool::StablePool(_, pool) => Ok(
                PoolSwap::StablePool { pool: *pool, token_in, token_out, amount_out, to },
            ),
        }
    }
}

} // verus!

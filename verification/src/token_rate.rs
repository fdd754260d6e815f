//! Token rates of a stable pool: constant, or read from a rate provider at
//! most once per block and cached.
use crate::account::AccountId;
use vstd::prelude::*;

verus! {

/// A rate read from `rate_provider`, cached at block `last_update_block_no`.
#[derive(Debug, Clone, Copy, PartialEq, Eq)]
pub struct ExternalTokenRate {
    pub rate_provider: AccountId,
    pub cached_token_rate: u128,
    pub last_update_block_no: u32,
}

/// How a stable pool learns the rate of one of its tokens.
#[derive(Debug, Clone, Copy, PartialEq, Eq)]
pub enum TokenRate {
    Constant(u128),
    External(ExternalTokenRate),
}

/// `get_rate_update` on plain values: the rate and the new cache.
pub open spec fn rate_update(e: ExternalTokenRate, current_block_no: u32, queried_rate: u128) -> (
    u128,
    ExternalTokenRate,
) {
    if e.last_update_block_no < current_block_no {
        (
            queried_rate,
            ExternalTokenRate {
                rate_provider: e.rate_provider,
                cached_token_rate: queried_rate,
                last_update_block_no: current_block_no,
            },
        )
    } else {
        (e.cached_token_rate, e)
    }
}

/// `TokenRate::get_rate` on plain values: the rate and the new state.
pub open spec fn token_rate_update(t: TokenRate, current_block_no: u32, queried_rate: u128) -> (
    u128,
    TokenRate,
) {
    match t {
        TokenRate::Constant(rate) => (rate, t),
        TokenRate::External(e) => {
            let (rate, e2) = rate_update(e, current_block_no, queried_rate);
            (rate, TokenRate::External(e2))
        },
    }
}

/// The rate provider must be asked at block `current_block_no`.
pub open spec fn rate_is_stale(t: TokenRate, current_block_no: u32) -> bool {
    match t {
        TokenRate::Constant(_) => false,
        TokenRate::External(e) => e.last_update_block_no < current_block_no,
    }
}

impl TokenRate {
    /// A constant rate.
    pub fn new_constant(rate: u128) -> (r: Self)
        ensures
            r == TokenRate::Constant(rate),
    {
        TokenRate::Constant(rate)
    }

    /// A rate read from `rate_provider`, not read yet.
    pub fn new_external(rate_provider: AccountId) -> (r: Self)
        ensures
            r == TokenRate::External(
                ExternalTokenRate { rate_provider, cached_token_rate: 0, last_update_block_no: 0 },
            ),
    {
        TokenRate::External(ExternalTokenRate::new(rate_provider))
    }

    /// Whether the rate provider must be asked at block `current_block_no`
    /// (its answer is then handed to `get_rate`).
    pub fn needs_query(&self, current_block_no: u32) -> (r: bool)
        ensures
            r == rate_is_stale(*self, current_block_no),
    {
        match self {
            TokenRate::Constant(_) => false,
            TokenRate::External(e) => e.last_update_block_no < current_block_no,
        }
    }

    /// The current rate, updating the cache; `queried_rate` is what the rate
    /// provider answers at block `current_block_no`, read only when the cache
    /// is older than that block.
    pub fn get_rate(&mut self, current_block_no: u32, queried_rate: u128) -> (r: u128)
        ensures
            (r, *final(self)) == token_rate_update(*old(self), current_block_no, queried_rate),
    {
        match self {
            TokenRate::External(external) => external.get_rate_update(
                current_block_no,
                queried_rate,
            ),
            TokenRate::Constant(rate) => *rate,
        }
    }

    /// The rate provider of an external rate.
    pub fn get_rate_provider(&self) -> (r: Option<AccountId>)
        ensures
            r == match *self {
                TokenRate::External(e) => Some(e.rate_provider),
                TokenRate::Constant(_) => None::<AccountId>,
            },
    {
        match self {
            TokenRate::External(external) => Some(external.rate_provider),
            TokenRate::Constant(_) => None,
        }
    }
}

impl ExternalTokenRate {
    /// A rate read from `rate_provider`, not read yet.
    pub fn new(rate_provider: AccountId) -> (r: Self)
        ensures
            r == (ExternalTokenRate { rate_provider, cached_token_rate: 0, last_update_block_no: 0 }),
    {
        ExternalTokenRate { rate_provider, cached_token_rate: 0, last_update_block_no: 0 }
    }

    /// The cached rate, first replaced by `queried_rate` (the provider's
    /// answer) when the cache is older than block `current_block_no`.
    pub fn get_rate_update(&mut self, current_block_no: u32, queried_rate: u128) -> (r: u128)
        ensures
            (r, *final(self)) == rate_update(*old(self), current_block_no, queried_rate),
    {
        if self.last_update_block_no < current_block_no {
            self.cached_token_rate = queried_rate;
            self.last_update_block_no = current_block_no;
        }
        self.cached_token_rate
    }
}

/// Within one block the provider is asked at most once: after a read at
/// block `b`, another read at `b` gives the same rate whatever the provider
/// would answer, and changes nothing.
pub proof fn law_rate_read_once_per_block(t: TokenRate, b: u32, first: u128, second: u128)
    ensures
        ({
            let (r1, t1) = token_rate_update(t, b, first);
            let (r2, t2) = token_rate_update(t1, b, second);
            &&& !rate_is_stale(t1, b)
            &&& r2 == r1
            &&& t2 == t1
        }),
{
}

} // verus!

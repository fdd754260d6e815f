//! The interface of a rate oracle, and a settable oracle for trials.
use vstd::prelude::*;

verus! {

/// A source of the rate of one token in another, with 12 decimals: a rate
/// of 1.5 is `1_500_000_000_000`.
pub trait RateProvider {
    /// The current rate.
    fn get_rate(&mut self) -> u128;
}

/// A rate oracle whose rate anyone can set.
#[derive(Debug, Clone, Copy, PartialEq, Eq)]
pub struct MockRateProviderContract {
    pub rate: u128,
}

impl MockRateProviderContract {
    /// An oracle reporting the rate 1.0.
    pub fn new() -> (r: Self)
        ensures
            r.rate == 1_000_000_000_000,
    {
        MockRateProviderContract { rate: 1_000_000_000_000 }
    }

    /// Sets the reported rate.
    pub fn set_rate(&mut self, rate: u128)
        ensures
            final(self).rate == rate,
    {
        self.rate = rate;
    }
}

impl RateProvider for MockRateProviderContract {
    /// The rate last set.
    fn get_rate(&mut self) -> (r: u128)
        ensures
            r == old(self).rate,
            *final(self) == *old(self),
    {
        self.rate
    }
}

} // verus!

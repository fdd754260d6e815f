//! The amplification coefficient of the stable-swap pool, which can be
//! ramped linearly over time from one value to another.
use crate::constants::stable_pool::{MAX_AMP, MAX_AMP_CHANGE, MIN_AMP, MIN_RAMP_DURATION};
use crate::errors::{MathError, StablePoolError};
use vstd::prelude::*;

verus! {

/// The coefficient moves linearly from `init_amp_coef` at `init_time` to
/// `future_amp_coef` at `future_time` (block times in milliseconds).
#[derive(Clone, Copy, Debug, PartialEq, Eq, Structural)]
pub struct AmpCoef {
    /// Initial amplification coefficient.
    pub init_amp_coef: u128,
    /// Target for ramping up amplification coefficient.
    pub future_amp_coef: u128,
    /// Initial amplification time.
    pub init_time: u64,
    /// Stop ramp up amplification time.
    pub future_time: u64,
}

/// The coefficient of `a` at the block time `now`.
pub open spec fn amp_at(a: AmpCoef, now: u64) -> Result<u128, MathError> {
    if now < a.future_time {
        if a.future_time < a.init_time {
            Err(MathError::SubUnderflow(51))
        } else if now < a.init_time {
            Err(MathError::SubUnderflow(52))
        } else {
            let range: nat = if a.future_amp_coef >= a.init_amp_coef {
                (a.future_amp_coef - a.init_amp_coef) as nat
            } else {
                (a.init_amp_coef - a.future_amp_coef) as nat
            };
            let elapsed: nat = (now - a.init_time) as nat;
            let span: nat = (a.future_time - a.init_time) as nat;
            if range * elapsed > u128::MAX {
                Err(MathError::MulOverflow(51))
            } else {
                let delta = range * elapsed / span;
                if a.future_amp_coef >= a.init_amp_coef {
                    if a.init_amp_coef + delta > u128::MAX {
                        Err(MathError::AddOverflow(1))
                    } else {
                        Ok((a.init_amp_coef + delta) as u128)
                    }
                } else {
                    Ok((a.init_amp_coef - delta) as u128)
                }
            }
        }
    } else {
        Ok(a.future_amp_coef)
    }
}

/// `ramp_amp_coef` on plain values: the coefficient at `now` and the check
/// that comes first.
pub open spec fn ramp_check(a: AmpCoef, future_amp_coef: u128, future_time: u64, now: u64) -> Result<
    u128,
    StablePoolError,
> {
    if future_amp_coef < MIN_AMP {
        Err(StablePoolError::AmpCoefTooLow)
    } else if future_amp_coef > MAX_AMP {
        Err(StablePoolError::AmpCoefTooHigh)
    } else if future_time < now || future_time - now < MIN_RAMP_DURATION {
        Err(StablePoolError::AmpCoefRampDurationTooShort)
    } else {
        match amp_at(a, now) {
            Err(e) => Err(StablePoolError::MathError(e)),
            Ok(current) => if (future_amp_coef >= current && future_amp_coef <= current
                * MAX_AMP_CHANGE) || (future_amp_coef < current && future_amp_coef
                * MAX_AMP_CHANGE >= current) {
                Ok(current)
            } else {
                Err(StablePoolError::AmpCoefChangeTooLarge)
            },
        }
    }
}

proof fn lemma_delta_le_range(range: nat, elapsed: nat, span: nat)
    requires
        elapsed <= span,
        span > 0,
    ensures
        range * elapsed / span <= range,
{
    assert(range * elapsed <= range * span) by (nonlinear_arith)
        requires
            elapsed <= span,
    ;
    assert(range * elapsed / span <= range * span / span) by (nonlinear_arith)
        requires
            range * elapsed <= range * span,
            span > 0,
    ;
    assert(range * span / span == range) by (nonlinear_arith)
        requires
            span > 0,
    ;
}

impl AmpCoef {
    /// Both coefficients are within `[MIN_AMP, MAX_AMP]` and the ramp does not
    /// end before it starts.
    pub open spec fn wf(&self) -> bool {
        &&& MIN_AMP <= self.init_amp_coef <= MAX_AMP
        &&& MIN_AMP <= self.future_amp_coef <= MAX_AMP
        &&& self.init_time <= self.future_time
    }

    /// A constant coefficient `init_amp_coef`, which must lie in
    /// `[MIN_AMP, MAX_AMP]`.
    pub fn new(init_amp_coef: u128) -> (r: Result<Self, StablePoolError>)
        ensures
            init_amp_coef < MIN_AMP ==> r == Err::<AmpCoef, StablePoolError>(
                StablePoolError::AmpCoefTooLow,
            ),
            init_amp_coef > MAX_AMP ==> r == Err::<AmpCoef, StablePoolError>(
                StablePoolError::AmpCoefTooHigh,
            ),
            MIN_AMP <= init_amp_coef <= MAX_AMP ==> r == Ok::<AmpCoef, StablePoolError>(
                AmpCoef {
                    init_amp_coef,
                    future_amp_coef: init_amp_coef,
                    init_time: 0,
                    future_time: 0,
                },
            ),
            r is Ok ==> r.unwrap().wf(),
    {
        if !(init_amp_coef >= MIN_AMP) {
            return Err(StablePoolError::AmpCoefTooLow);
        }
        if !(init_amp_coef <= MAX_AMP) {
            return Err(StablePoolError::AmpCoefTooHigh);
        }
        Ok(AmpCoef { init_amp_coef, future_amp_coef: init_amp_coef, init_time: 0, future_time: 0 })
    }

    /// The coefficient at the block time `now`.
    pub fn compute_amp_coef(&self, now: u64) -> (r: Result<u128, MathError>)
        ensures
            r == amp_at(*self, now),
    {
        if now < self.future_time {
            let time_range = match self.future_time.checked_sub(self.init_time) {
                Some(v) => v,
                None => return Err(MathError::SubUnderflow(51)),
            };
            let time_delta = match now.checked_sub(self.init_time) {
                Some(v) => v,
                None => return Err(MathError::SubUnderflow(52)),
            };
            let amp_range = if self.future_amp_coef >= self.init_amp_coef {
                self.future_amp_coef - self.init_amp_coef
            } else {
                self.init_amp_coef - self.future_amp_coef
            };
            let scaled = match amp_range.checked_mul(time_delta as u128) {
                Some(v) => v,
                None => return Err(MathError::MulOverflow(51)),
            };
            let amp_delta = match scaled.checked_div(time_range as u128) {
                Some(v) => v,
                None => return Err(MathError::DivByZero(51)),
            };
            proof {
                lemma_delta_le_range(amp_range as nat, time_delta as nat, time_range as nat);
            }
            if self.future_amp_coef >= self.init_amp_coef {
                match self.init_amp_coef.checked_add(amp_delta) {
                    Some(v) => Ok(v),
                    None => Err(MathError::AddOverflow(1)),
                }
            } else {
                match self.init_amp_coef.checked_sub(amp_delta) {
                    Some(v) => Ok(v),
                    None => Err(MathError::SubUnderflow(55)),
                }
            }
        } else {
            Ok(self.future_amp_coef)
        }
    }

    /// Starts a ramp at `now` from the current coefficient to
    /// `future_amp_coef`, reached at `future_time`; the ramp lasts at least
    /// `MIN_RAMP_DURATION` and changes the coefficient at most
    /// `MAX_AMP_CHANGE`-fold.
    pub fn ramp_amp_coef(&mut self, future_amp_coef: u128, future_time: u64, now: u64) -> (r:
        Result<(), StablePoolError>)
        requires
            old(self).wf(),
        ensures
            final(self).wf(),
            match ramp_check(*old(self), future_amp_coef, future_time, now) {
                Err(e) => r == Err::<(), StablePoolError>(e) && *final(self) == *old(self),
                Ok(current) => r is Ok && *final(self) == AmpCoef {
                    init_amp_coef: current,
                    future_amp_coef,
                    init_time: now,
                    future_time,
                },
            },
    {
        if !(future_amp_coef >= MIN_AMP) {
            return Err(StablePoolError::AmpCoefTooLow);
        }
        if !(future_amp_coef <= MAX_AMP) {
            return Err(StablePoolError::AmpCoefTooHigh);
        }
        let ramp_duration = future_time.checked_sub(now);
        if !(ramp_duration.is_some() && ramp_duration.unwrap() >= MIN_RAMP_DURATION) {
            return Err(StablePoolError::AmpCoefRampDurationTooShort);
        }
        let current_amp_coef = match self.compute_amp_coef(now) {
            Ok(v) => v,
            Err(e) => return Err(StablePoolError::MathError(e)),
        };
        proof {
            lemma_amp_between(*self, now);
        }
        if !((future_amp_coef >= current_amp_coef && future_amp_coef <= current_amp_coef
            * MAX_AMP_CHANGE) || (future_amp_coef < current_amp_coef && future_amp_coef
            * MAX_AMP_CHANGE >= current_amp_coef)) {
            return Err(StablePoolError::AmpCoefChangeTooLarge);
        }
        self.init_amp_coef = current_amp_coef;
        self.init_time = now;
        self.future_amp_coef = future_amp_coef;
        self.future_time = future_time;
        Ok(())
    }

    /// Stops a ramp at `now`: the coefficient stays at its current value.
    pub fn stop_ramp_amp_coef(&mut self, now: u64) -> (r: Result<(), StablePoolError>)
        ensures
            match amp_at(*old(self), now) {
                Err(e) => r == Err::<(), StablePoolError>(StablePoolError::MathError(e))
                    && *final(self) == *old(self),
                Ok(current) => r is Ok && *final(self) == AmpCoef {
                    init_amp_coef: current,
                    future_amp_coef: current,
                    init_time: now,
                    future_time: now,
                },
            },
            old(self).wf() ==> final(self).wf(),
    {
        let current_amp_coef = match self.compute_amp_coef(now) {
            Ok(v) => v,
            Err(e) => return Err(StablePoolError::MathError(e)),
        };
        proof {
            if old(self).wf() {
                lemma_amp_between(*self, now);
            }
        }
        self.init_amp_coef = current_amp_coef;
        self.future_amp_coef = current_amp_coef;
        self.init_time = now;
        self.future_time = now;
        Ok(())
    }

    /// The target and end time of a ramp in progress at `now`.
    pub fn future_amp_coef(&self, now: u64) -> (r: Option<(u128, u64)>)
        ensures
            now < self.future_time ==> r == Some((self.future_amp_coef, self.future_time)),
            now >= self.future_time ==> r is None,
    {
        if now < self.future_time {
            Some((self.future_amp_coef, self.future_time))
        } else {
            None
        }
    }
}

/// During a ramp the coefficient lies between its start and its target.
pub proof fn lemma_amp_between(a: AmpCoef, now: u64)
    requires
        amp_at(a, now) is Ok,
    ensures
        ({
            let c = amp_at(a, now).unwrap();
            &&& a.init_amp_coef <= a.future_amp_coef ==> a.init_amp_coef <= c <= a.future_amp_coef
            &&& a.future_amp_coef <= a.init_amp_coef ==> a.future_amp_coef <= c <= a.init_amp_coef
        }),
{
    if now < a.future_time {
        let range: nat = if a.future_amp_coef >= a.init_amp_coef {
            (a.future_amp_coef - a.init_amp_coef) as nat
        } else {
            (a.init_amp_coef - a.future_amp_coef) as nat
        };
        lemma_delta_le_range(
            range,
            (now - a.init_time) as nat,
            (a.future_time - a.init_time) as nat,
        );
    }
}

/// A coefficient with both ends in `[MIN_AMP, MAX_AMP]` always has a value,
/// and that value is in `[MIN_AMP, MAX_AMP]`, from the start of its ramp on.
pub proof fn law_amp_in_bounds(a: AmpCoef, now: u64)
    requires
        a.wf(),
        now >= a.init_time,
    ensures
        amp_at(a, now) is Ok,
        MIN_AMP <= amp_at(a, now).unwrap() <= MAX_AMP,
{
    if now < a.future_time {
        let range: nat = if a.future_amp_coef >= a.init_amp_coef {
            (a.future_amp_coef - a.init_amp_coef) as nat
        } else {
            (a.init_amp_coef - a.future_amp_coef) as nat
        };
        let elapsed = (now - a.init_time) as nat;
        assert(range * elapsed <= MAX_AMP * 0x1_0000_0000_0000_0000) by (nonlinear_arith)
            requires
                range <= MAX_AMP,
                elapsed < 0x1_0000_0000_0000_0000,
        ;
        lemma_delta_le_range(range, elapsed, (a.future_time - a.init_time) as nat);
    }
    lemma_amp_between(a, now);
}

/// Once a ramp has been stopped, the coefficient stays where it was,
/// whenever it is read later.
pub proof fn law_stopped_ramp_is_constant(a: AmpCoef, stop_time: u64, later: u64)
    requires
        amp_at(a, stop_time) is Ok,
        later >= stop_time,
    ensures
        ({
            let c = amp_at(a, stop_time).unwrap();
            let stopped = AmpCoef {
                init_amp_coef: c,
                future_amp_coef: c,
                init_time: stop_time,
                future_time: stop_time,
            };
            amp_at(stopped, later) == Ok::<u128, MathError>(c)
        }),
{
}

/// A new ramp starts from the value the coefficient had when it was set,
/// and reaches its target at its end time and after.
pub proof fn law_ramp_is_continuous(a: AmpCoef, future_amp_coef: u128, future_time: u64, now: u64, later: u64)
    requires
        ramp_check(a, future_amp_coef, future_time, now) is Ok,
        later >= future_time,
    ensures
        ({
            let current = ramp_check(a, future_amp_coef, future_time, now).unwrap();
            let ramped = AmpCoef {
                init_amp_coef: current,
                future_amp_coef,
                init_time: now,
                future_time,
            };
            &&& amp_at(ramped, now) == Ok::<u128, MathError>(current)
            &&& amp_at(ramped, later) == Ok::<u128, MathError>(future_amp_coef)
        }),
{
    let current = ramp_check(a, future_amp_coef, future_time, now).unwrap();
    let ramped = AmpCoef { init_amp_coef: current, future_amp_coef, init_time: now, future_time };
    assert(future_time >= now + MIN_RAMP_DURATION);
    assert((0 as nat) * ((future_time - now) as nat) == 0) by (nonlinear_arith);
    if future_amp_coef >= current {
        let range = (future_amp_coef - current) as nat;
        assert(range * 0 == 0) by (nonlinear_arith);
    } else {
        let range = (current - future_amp_coef) as nat;
        assert(range * 0 == 0) by (nonlinear_arith);
    }
}

/// Stopping when no ramp is in progress does not change the coefficient,
/// now or later.
pub proof fn law_stop_without_ramp_changes_nothing(a: AmpCoef, now: u64, later: u64)
    requires
        now >= a.future_time,
        later >= now,
    ensures
        ({
            let c = amp_at(a, now).unwrap();
            let stopped = AmpCoef {
                init_amp_coef: c,
                future_amp_coef: c,
                init_time: now,
                future_time: now,
            };
            &&& amp_at(a, now) is Ok
            &&& amp_at(stopped, later) == amp_at(a, later)
        }),
{
}

} // verus!

//! The decision function of the Generic Cell Rate Algorithm, its state, and
//! the two operations that read and undo it.
//!
//! The model is stated over natural numbers of nanoseconds: [`decide`],
//! [`remaining`] and [`reverted`] say what the executable methods of
//! [`GcraState`] compute.

use crate::clock::{Clock, InstantClock, HORIZON_NANOS};
use crate::rate_limit::{Budget, RateLimit};
use crate::time::Timestamp;
use vstd::prelude::*;

verus! {

/// What the algorithm answers to one request.
pub enum Decision {
    /// The request passes, and the theoretical arrival time becomes `tat`.
    Admit { tat: nat },
    /// The request is denied up to `next_allowed_at`, and would pass at any
    /// later time.
    DenyUntil { next_allowed_at: nat },
    /// The request costs more than a whole period holds and never passes.
    DenyIndefinitely,
}

impl Decision {
    /// The arrival time that an admission records fits in a [`Timestamp`].
    pub open spec fn representable(self) -> bool {
        self matches Decision::Admit { tat } ==> tat <= u128::MAX
    }
}

/// The decision for a request of `cost` units that arrives at `now`, on a
/// bucket whose theoretical arrival time is `tat`.
///
/// A cost whose increment exceeds the period is refused whatever the state.
/// A bucket that was never used, or whose arrival time lies before `now`, has
/// drained: the request passes and the arrival time restarts from `now`.
/// Otherwise the increment is added to `tat`, and the request passes only if
/// the sum stays less than one period ahead of `now`.
pub open spec fn decide(tat: Option<nat>, budget: Budget, now: nat, cost: nat) -> Decision {
    let increment = budget.increment(cost);
    if increment > budget.period {
        Decision::DenyIndefinitely
    } else {
        match tat {
            Some(t) if t >= now => {
                if t + increment < now + budget.period {
                    Decision::Admit { tat: t + increment }
                } else {
                    Decision::DenyUntil { next_allowed_at: (t + increment - budget.period) as nat }
                }
            },
            _ => Decision::Admit { tat: now + increment },
        }
    }
}

/// The state that `decision` leaves behind, given the state before it: an
/// admission records its arrival time, a denial changes nothing.
pub open spec fn state_after(tat: Option<nat>, decision: Decision) -> Option<nat> {
    match decision {
        Decision::Admit { tat: advanced } => Some(advanced),
        _ => tat,
    }
}

/// `numerator / denominator`, rounded up.
pub open spec fn div_ceil(numerator: nat, denominator: nat) -> nat
    recommends
        denominator > 0,
{
    if numerator % denominator == 0 {
        numerator / denominator
    } else {
        numerator / denominator + 1
    }
}

/// The time that lies between `now` and the arrival time `tat`: none where
/// `tat` is unset or not after `now`.
pub open spec fn ahead(tat: Option<nat>, now: nat) -> nat {
    match tat {
        Some(t) if t > now => (t - now) as nat,
        _ => 0,
    }
}

/// The units consumed at `now`: the share of the period that lies ahead,
/// in units of the budget, rounded up.
pub open spec fn consumed(tat: Option<nat>, budget: Budget, now: nat) -> nat
    recommends
        budget.period > 0,
{
    div_ceil(ahead(tat, now) * budget.resource_limit, budget.period)
}

/// The units still available at `now`: the limit less what is consumed, and
/// zero where more than the limit is consumed. A budget with an empty period
/// has none.
pub open spec fn remaining(tat: Option<nat>, budget: Budget, now: nat) -> nat {
    if budget.period == 0 {
        0
    } else if consumed(tat, budget, now) >= budget.resource_limit {
        0
    } else {
        (budget.resource_limit - consumed(tat, budget, now)) as nat
    }
}

/// The state after `cost` units are given back at `now`: the arrival time
/// moves back by the increment of `cost`. Where that would reach `now` or
/// pass it, the bucket has drained and the state is unset.
pub open spec fn reverted(tat: Option<nat>, budget: Budget, now: nat, cost: nat) -> Option<nat> {
    match tat {
        Some(t) if t > now + budget.increment(cost) => Some((t - budget.increment(cost)) as nat),
        _ => None,
    }
}

/// Why a request was denied.
#[derive(Clone, Copy, Debug, PartialEq, Eq)]
pub enum GcraError {
    /// Cost of the increment exceeds the rate limit and will never succeed
    DeniedIndefinitely { cost: u32, rate_limit: RateLimit },
    /// Limited request until after the [`Timestamp`]
    DeniedUntil { next_allowed_at: Timestamp },
}

/// Holds the minimum amount of state necessary to implement a GCRA leaky
/// bucket: the theoretical arrival time, the instant at which the bucket will
/// be exactly empty. An unset value is a bucket that was never used.
#[derive(Clone, Copy, Debug, PartialEq, Eq, Hash)]
pub struct GcraState {
    /// GCRA's Theoretical Arrival Time (**TAT**)
    pub tat: Option<Timestamp>,
}

impl View for GcraState {
    type V = Option<nat>;

    open spec fn view(&self) -> Option<nat> {
        match self.tat {
            Some(t) => Some(t@),
            None => None,
        }
    }
}

impl Default for GcraState {
    /// The state of a key that was never used.
    fn default() -> (state: GcraState)
        ensures
            state.tat is None,
    {
        GcraState { tat: None }
    }
}

/// The answer that `decision` turns into for the caller of a check of `cost`
/// against `rate_limit`.
pub open spec fn answer(decision: Decision, rate_limit: RateLimit, cost: u32) -> Result<
    (),
    GcraError,
> {
    match decision {
        Decision::Admit { .. } => Ok(()),
        Decision::DenyUntil { next_allowed_at } => Err(
            GcraError::DeniedUntil { next_allowed_at: Timestamp { nanos: next_allowed_at as u128 } },
        ),
        Decision::DenyIndefinitely => Err(GcraError::DeniedIndefinitely { cost, rate_limit }),
    }
}

impl GcraState {
    /// A check of `cost` against `rate_limit` that arrived at `now` answered
    /// `result` and turned the state `self` into `after`.
    pub open spec fn checked(
        self,
        rate_limit: RateLimit,
        now: Timestamp,
        cost: u32,
        result: Result<(), GcraError>,
        after: GcraState,
    ) -> bool {
        let decision = decide(self@, rate_limit@, now@, cost as nat);
        &&& result == answer(decision, rate_limit, cost)
        &&& after@ == state_after(self@, decision)
    }

    /// One period after the recorded arrival time still fits in a
    /// [`Timestamp`].
    pub open spec fn leaves_room(self, rate_limit: RateLimit) -> bool {
        self@ matches Some(t) ==> t + rate_limit@.period <= u128::MAX
    }

    /// Check if we are allowed to proceed now, by the system's monotonic
    /// clock, and if so record the request.
    ///
    /// The answer and the new state are those of
    /// [`GcraState::check_and_modify_at`] for the reading of the clock, which
    /// lies before the horizon.
    pub fn check_and_modify(&mut self, rate_limit: &RateLimit, cost: u32) -> (result: Result<
        (),
        GcraError,
    >)
        requires
            old(self).leaves_room(*rate_limit),
        ensures
            exists|now: Timestamp|
                now@ <= HORIZON_NANOS && #[trigger] old(self).checked(
                    *rate_limit,
                    now,
                    cost,
                    result,
                    *final(self),
                ),
            result is Err ==> *final(self) == *old(self),
            rate_limit@.increment(cost as nat) > rate_limit@.period ==> result == Err::<(), GcraError>(
                GcraError::DeniedIndefinitely { cost, rate_limit: *rate_limit },
            ),
            final(self).leaves_room(*rate_limit),
    {
        let arrived_at = InstantClock.now().capped();
        proof {
            lemma_room_suffices(*self, *rate_limit, arrived_at, cost);
        }
        let result = self.check_and_modify_at(rate_limit, arrived_at, cost);
        assert(old(self).checked(*rate_limit, arrived_at, cost, result, *self));
        result
    }

    /// Check if we are allowed to proceed at the given arrival time, and if
    /// so record the request.
    ///
    /// The answer and the new state are those of [`decide`]. A denial leaves
    /// the state as it was. The arrival time that an admission would record
    /// must fit in a [`Timestamp`].
    pub fn check_and_modify_at(
        &mut self,
        rate_limit: &RateLimit,
        arrived_at: Timestamp,
        cost: u32,
    ) -> (result: Result<(), GcraError>)
        requires
            decide(old(self)@, rate_limit@, arrived_at@, cost as nat).representable(),
        ensures
            result == answer(
                decide(old(self)@, rate_limit@, arrived_at@, cost as nat),
                *rate_limit,
                cost,
            ),
            final(self)@ == state_after(
                old(self)@,
                decide(old(self)@, rate_limit@, arrived_at@, cost as nat),
            ),
            result is Err ==> *final(self) == *old(self),
            rate_limit@.increment(cost as nat) > rate_limit@.period ==> result == Err::<(), GcraError>(
                GcraError::DeniedIndefinitely { cost, rate_limit: *rate_limit },
            ),
    {
        let period: u128 = rate_limit.period.nanos as u128;
        let increment: u128 = wide_product(rate_limit.emission_interval.nanos, cost);
        if increment > period {
            return Err(GcraError::DeniedIndefinitely { cost, rate_limit: *rate_limit });
        }
        match self.tat {
            Some(tat) if tat.nanos >= arrived_at.nanos => {
                // The bucket holds outstanding credit: the request must fit
                // in what is left of the period.
                let ahead: u128 = tat.nanos - arrived_at.nanos;
                if ahead < period - increment {
                    self.tat = Some(Timestamp { nanos: tat.nanos + increment });
                    Ok(())
                } else {
                    let next_allowed_at = Timestamp { nanos: tat.nanos - (period - increment) };
                    Err(GcraError::DeniedUntil { next_allowed_at })
                }
            },
            _ => {
                // Never used, or drained since the last request.
                self.tat = Some(Timestamp { nanos: arrived_at.nanos + increment });
                Ok(())
            },
        }
    }

    /// The units that a request arriving at `now` could still be granted:
    /// the limit less the units consumed, never less than zero. The whole
    /// limit where the arrival time is unset or has passed; none where the
    /// period is empty.
    pub fn remaining_resources(&self, rate_limit: &RateLimit, now: Timestamp) -> (left: u32)
        ensures
            left == remaining(self@, rate_limit@, now@),
            left <= rate_limit.resource_limit,
            rate_limit@.period == 0 ==> left == 0,
            rate_limit@.period > 0 && ahead(self@, now@) == 0 ==> left == rate_limit.resource_limit,
    {
        if rate_limit.period.is_zero() {
            return 0;
        }
        let period: u128 = rate_limit.period.nanos as u128;
        let limit: u128 = rate_limit.resource_limit as u128;
        let time_to_tat: u128 = match self.tat {
            Some(tat) if tat.nanos > now.nanos => tat.nanos - now.nanos,
            _ => {
                proof {
                    lemma_nothing_ahead(self@, rate_limit@, now@);
                }
                return rate_limit.resource_limit;
            },
        };
        if time_to_tat >= period {
            proof {
                lemma_div_ceil_at_least(time_to_tat as nat, limit as nat, period as nat);
            }
            return 0;
        }
        let scaled: u128 = wide_product(time_to_tat as u64, rate_limit.resource_limit);
        let whole: u128 = scaled / period;
        assert(whole <= scaled) by (nonlinear_arith)
            requires
                whole == scaled / period,
                period > 0,
        ;
        let used: u128 = if scaled % period == 0 {
            whole
        } else {
            whole + 1
        };
        if used >= limit {
            0
        } else {
            (limit - used) as u32
        }
    }

    /// Give back `cost` units at `now`: the inverse of an admission.
    ///
    /// The new state is that of [`reverted`]. Giving back more than was
    /// consumed leaves a drained bucket; it is never an error.
    pub fn revert_at(&mut self, rate_limit: &RateLimit, now: Timestamp, cost: u32) -> (result:
        Result<(), GcraError>)
        ensures
            result is Ok,
            final(self)@ == reverted(old(self)@, rate_limit@, now@, cost as nat),
    {
        let increment: u128 = wide_product(rate_limit.emission_interval.nanos, cost);
        match self.tat {
            Some(tat) if tat.nanos > now.nanos && tat.nanos - now.nanos > increment => {
                self.tat = Some(Timestamp { nanos: tat.nanos - increment });
            },
            _ => {
                self.tat = None;
            },
        }
        Ok(())
    }
}

/// A state that leaves room admits no arrival time past the end of a
/// [`Timestamp`], whenever the request arrives before the horizon.
pub proof fn lemma_room_suffices(state: GcraState, rate_limit: RateLimit, now: Timestamp, cost: u32)
    requires
        state.leaves_room(rate_limit),
        now@ <= HORIZON_NANOS,
    ensures
        decide(state@, rate_limit@, now@, cost as nat).representable(),
{
}

/// The product of a 64-bit and a 32-bit number, which fits in 96 bits.
fn wide_product(factor: u64, times: u32) -> (product: u128)
    ensures
        product == factor * times,
        product < 0x1_0000_0000_0000_0000_0000_0000,
{
    assert(factor * times < 0x1_0000_0000_0000_0000_0000_0000) by (nonlinear_arith)
        requires
            factor <= 0xffff_ffff_ffff_ffff,
            times <= 0xffff_ffff,
    ;
    (factor as u128) * (times as u128)
}

/// Where no time lies ahead, nothing is consumed.
pub proof fn lemma_nothing_ahead(tat: Option<nat>, budget: Budget, now: nat)
    requires
        budget.period > 0,
        ahead(tat, now) == 0,
    ensures
        consumed(tat, budget, now) == 0,
{
    assert(ahead(tat, now) * budget.resource_limit == 0) by (nonlinear_arith)
        requires
            ahead(tat, now) == 0,
    ;
}

/// Where at least a whole period lies ahead, at least the whole limit is
/// consumed.
proof fn lemma_div_ceil_at_least(ahead: nat, limit: nat, period: nat)
    requires
        period > 0,
        ahead >= period,
    ensures
        div_ceil(ahead * limit, period) >= limit,
{
    assert(ahead * limit >= period * limit) by (nonlinear_arith)
        requires
            ahead >= period,
    ;
    assert((ahead * limit) / period >= limit) by (nonlinear_arith)
        requires
            ahead * limit >= period * limit,
            period > 0,
    ;
}

} // verus!

//! The value that the keyed store holds for one key.

use crate::gcra::{answer, decide, state_after, Decision, GcraError, GcraState};
use crate::rate_limit::RateLimit;
use crate::time::Timestamp;
use vstd::prelude::*;

verus! {

/// How the store should persist an entry after a unit of work on it, and the
/// value that the unit of work hands back to the caller.
#[derive(Debug, PartialEq, Eq)]
pub enum Commit<T> {
    /// The entry changed: persist it before the caller hears of `T`.
    Immediately(T),
    /// The entry did not change: persist nothing.
    Noop(T),
}

/// The state of one key together with the time at which the store may
/// forget it: one period after the bucket has drained.
#[derive(Clone, Copy, Debug, PartialEq, Eq)]
pub struct RateLimitEntry {
    pub gcra_state: GcraState,
    pub expires_at: Option<Timestamp>,
}

impl Default for RateLimitEntry {
    /// The entry of a key that was never used: no state, no expiry.
    fn default() -> (entry: RateLimitEntry)
        ensures
            entry.gcra_state.tat is None,
            entry.expires_at is None,
    {
        RateLimitEntry { gcra_state: GcraState { tat: None }, expires_at: None }
    }
}

impl core::ops::Deref for RateLimitEntry {
    type Target = GcraState;

    /// The state of the key.
    fn deref(&self) -> (state: &GcraState)
        ensures
            *state == self.gcra_state,
    {
        &self.gcra_state
    }
}

impl core::ops::DerefMut for RateLimitEntry {
    /// The state of the key, to change in place. The expiry stays as it is.
    fn deref_mut(&mut self) -> (state: &mut GcraState)
        ensures
            *state == old(self).gcra_state,
            final(self).gcra_state == *final(state),
            final(self).expires_at == old(self).expires_at,
    {
        &mut self.gcra_state
    }
}

/// The expiry of a state seen at `now`: one period after its arrival time,
/// or after `now` where it has none.
pub open spec fn expiry_of(tat: Option<nat>, period: nat, now: nat) -> nat {
    match tat {
        Some(t) => t + period,
        None => now + period,
    }
}

impl RateLimitEntry {
    /// Whether the store must write the entry upstream rather than drop it.
    /// Always.
    pub fn should_persist(&self) -> (persist: bool)
        ensures
            persist,
    {
        true
    }

    /// The time at which the store may drop the entry. `None` keeps it
    /// forever.
    pub fn get_expires_at(&self) -> (expires_at: Option<&Timestamp>)
        ensures
            match expires_at {
                Some(at) => self.expires_at == Some(*at),
                None => self.expires_at is None,
            },
    {
        self.expires_at.as_ref()
    }

    /// Move the expiry to one period after the arrival time, or after `now`
    /// where the state has none.
    pub fn update_expiration(&mut self, rate_limit: &RateLimit, now: Timestamp)
        requires
            expiry_of(old(self).gcra_state@, rate_limit@.period, now@) <= u128::MAX,
        ensures
            final(self).gcra_state == old(self).gcra_state,
            final(self).expires_at matches Some(at) && at@ == expiry_of(
                old(self).gcra_state@,
                rate_limit@.period,
                now@,
            ),
    {
        let base: u128 = match self.gcra_state.tat {
            Some(tat) => tat.nanos,
            None => now.nanos,
        };
        self.expires_at = Some(Timestamp { nanos: base + rate_limit.period.nanos as u128 });
    }

    /// The unit of work on one key: check a request of `cost` that arrived
    /// at `arrived_at`, and say how to persist the entry.
    ///
    /// An admission records the request, moves the expiry to one period
    /// after the new arrival time and asks for an immediate commit. A denial
    /// changes nothing and asks for none. The new expiry must fit in a
    /// [`Timestamp`].
    pub fn check_at(&mut self, rate_limit: &RateLimit, cost: u32, arrived_at: Timestamp) -> (outcome:
        Commit<Result<(), GcraError>>)
        requires
            decide(old(self).gcra_state@, rate_limit@, arrived_at@, cost as nat) matches Decision::Admit {
                tat,
            } ==> tat + rate_limit@.period <= u128::MAX,
        ensures
            final(self).gcra_state@ == state_after(
                old(self).gcra_state@,
                decide(old(self).gcra_state@, rate_limit@, arrived_at@, cost as nat),
            ),
            match decide(old(self).gcra_state@, rate_limit@, arrived_at@, cost as nat) {
                Decision::Admit { tat } => {
                    &&& outcome == Commit::Immediately(Ok::<(), GcraError>(()))
                    &&& final(self).expires_at matches Some(at) && at@ == tat + rate_limit@.period
                },
                denial => {
                    &&& outcome == Commit::Noop(answer(denial, *rate_limit, cost))
                    &&& *final(self) == *old(self)
                },
            },
    {
        let check_result = self.gcra_state.check_and_modify_at(rate_limit, arrived_at, cost);
        match check_result {
            Ok(_) => {
                self.update_expiration(rate_limit, arrived_at);
                Commit::Immediately(check_result)
            },
            Err(_) => Commit::Noop(check_result),
        }
    }
}

} // verus!

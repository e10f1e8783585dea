//! One clock, one limit and one state under a single owner.

use crate::clock::{Clock, InstantClock, HORIZON_NANOS};
use crate::gcra::{lemma_room_suffices, remaining, reverted, GcraError, GcraState};
use crate::rate_limit::RateLimit;
use crate::time::Timestamp;
use vstd::prelude::*;

verus! {

/// A simple wrapper to help make using [`RateLimit`]s with [`GcraState`]s
/// easier for basic cases: every operation takes its "now" from the clock.
/// A reading past the horizon counts as the horizon.
///
/// It is meant for one owner that makes its calls in sequence, and holds no
/// lock.
pub struct RateLimitGuard<C: Clock = InstantClock> {
    clock: C,
    rate_limit: RateLimit,
    state: GcraState,
}

/// What a guard holds besides its clock.
pub struct Guarded {
    pub rate_limit: RateLimit,
    pub state: GcraState,
}

impl<C: Clock> View for RateLimitGuard<C> {
    type V = Guarded;

    closed spec fn view(&self) -> Guarded {
        Guarded { rate_limit: self.rate_limit, state: self.state }
    }
}

impl RateLimitGuard<InstantClock> {
    /// A guard over a fresh state, on the system's monotonic clock.
    pub fn new_state(rate_limit: RateLimit) -> (guard: Self)
        ensures
            guard@.rate_limit == rate_limit,
            guard@.state.tat is None,
    {
        RateLimitGuard { clock: InstantClock, rate_limit, state: GcraState { tat: None } }
    }
}

impl<C: Clock> RateLimitGuard<C> {
    /// One period after the recorded arrival time fits in a [`Timestamp`].
    #[verifier::type_invariant]
    spec fn leaves_room(self) -> bool {
        self.state.leaves_room(self.rate_limit)
    }

    /// A guard over `state`, on `clock`. One period after the arrival time
    /// that the state records must fit in a [`Timestamp`].
    pub fn new(clock: C, rate_limit: RateLimit, state: GcraState) -> (guard: Self)
        requires
            state.leaves_room(rate_limit),
        ensures
            guard@.rate_limit == rate_limit,
            guard@.state == state,
    {
        RateLimitGuard { clock, rate_limit, state }
    }

    /// The state that the guard holds.
    pub fn state(&self) -> (state: &GcraState)
        ensures
            *state == self@.state,
    {
        &self.state
    }

    /// The limit that the guard checks against.
    pub fn rate_limit(&self) -> (rate_limit: &RateLimit)
        ensures
            *rate_limit == self@.rate_limit,
    {
        &self.rate_limit
    }

    /// Check if we are allowed to proceed. If so update the state.
    ///
    /// The answer and the new state are those of
    /// [`GcraState::check_and_modify_at`] for the clock's reading.
    pub fn check_and_modify(&mut self, cost: u32) -> (result: Result<(), GcraError>)
        ensures
            final(self)@.rate_limit == old(self)@.rate_limit,
            exists|now: Timestamp|
                now@ <= HORIZON_NANOS && #[trigger] old(self)@.state.checked(
                    old(self)@.rate_limit,
                    now,
                    cost,
                    result,
                    final(self)@.state,
                ),
            result is Err ==> final(self)@.state == old(self)@.state,
    {
        proof {
            use_type_invariant(&*self);
        }
        let arrived_at = self.clock.now().capped();
        proof {
            lemma_room_suffices(self.state, self.rate_limit, arrived_at, cost);
        }
        let mut state = self.state;
        let result = state.check_and_modify_at(&self.rate_limit, arrived_at, cost);
        self.state = state;
        assert(old(self)@.state.checked(self.rate_limit, arrived_at, cost, result, self.state));
        result
    }

    /// Get the remaining resources that we have available for the guard at
    /// the current moment in time: those of
    /// [`GcraState::remaining_resources`] for the clock's reading.
    pub fn remaining_resources(&self) -> (left: u32)
        ensures
            left <= self@.rate_limit.resource_limit,
            exists|now: Timestamp|
                now@ <= HORIZON_NANOS && left == #[trigger] remaining(
                    self@.state@,
                    self@.rate_limit@,
                    now@,
                ),
    {
        let now = self.clock.now().capped();
        self.state.remaining_resources(&self.rate_limit, now)
    }

    /// Reverts rate_limit by cost, and updates the state: that of
    /// [`GcraState::revert_at`] for the clock's reading. It never fails.
    pub fn revert(&mut self, cost: u32) -> (result: Result<(), GcraError>)
        ensures
            result is Ok,
            final(self)@.rate_limit == old(self)@.rate_limit,
            exists|now: Timestamp|
                now@ <= HORIZON_NANOS && final(self)@.state@ == #[trigger] reverted(
                    old(self)@.state@,
                    old(self)@.rate_limit@,
                    now@,
                    cost as nat,
                ),
    {
        proof {
            use_type_invariant(&*self);
        }
        let arrived_at = self.clock.now().capped();
        let mut state = self.state;
        let result = state.revert_at(&self.rate_limit, arrived_at, cost);
        self.state = state;
        result
    }
}

impl<C: Clock> core::ops::Deref for RateLimitGuard<C> {
    type Target = GcraState;

    /// The state that the guard holds.
    fn deref(&self) -> (state: &GcraState)
        ensures
            *state == self@.state,
    {
        &self.state
    }
}

} // verus!

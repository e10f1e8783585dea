use gcra::{Clock, Duration, GcraError, GcraState, RateLimit, RateLimitGuard, Timestamp};
use std::cell::Cell;
use std::rc::Rc;

/// A clock that reads what the test last set.
#[derive(Clone)]
struct ManualClock {
    reading: Rc<Cell<u128>>,
}

impl ManualClock {
    fn at(nanos: u128) -> ManualClock {
        ManualClock { reading: Rc::new(Cell::new(nanos)) }
    }

    fn set(&self, nanos: u128) {
        self.reading.set(nanos);
    }
}

impl Clock for ManualClock {
    fn now(&self) -> Timestamp {
        Timestamp::from_nanos(self.reading.get())
    }
}

const SECOND: u128 = 1_000_000_000;

#[test]
fn guard_starts_with_a_fresh_state() {
    let limit = RateLimit::per_sec(3);
    let guard = RateLimitGuard::new_state(limit);
    assert_eq!(*guard.state(), GcraState::default());
    assert_eq!(*guard.rate_limit(), limit);
    assert_eq!(guard.remaining_resources(), 3);
}

#[test]
fn guard_keeps_what_it_was_given() {
    let limit = RateLimit::per_sec(3);
    let state = GcraState { tat: Some(Timestamp::from_nanos(5 * SECOND)) };
    let guard = RateLimitGuard::new(ManualClock::at(SECOND), limit, state);
    assert_eq!(*guard.state(), state);
    assert_eq!(*guard.rate_limit(), limit);
}

#[test]
fn guard_checks_at_the_clock_reading() {
    let clock = ManualClock::at(10 * SECOND);
    let limit = RateLimit::new(4, Duration::from_secs(4));
    let mut guard = RateLimitGuard::new(clock.clone(), limit, GcraState::default());
    assert_eq!(guard.check_and_modify(3), Ok(()));
    assert_eq!(guard.state().tat, Some(Timestamp::from_nanos(13 * SECOND)));
    assert_eq!(guard.remaining_resources(), 1);
    assert_eq!(
        guard.check_and_modify(2),
        Err(GcraError::DeniedUntil { next_allowed_at: Timestamp::from_nanos(11 * SECOND) })
    );
    assert_eq!(guard.state().tat, Some(Timestamp::from_nanos(13 * SECOND)));
    clock.set(11 * SECOND + 1);
    assert_eq!(guard.remaining_resources(), 2);
    assert_eq!(guard.check_and_modify(2), Ok(()));
    assert_eq!(guard.state().tat, Some(Timestamp::from_nanos(15 * SECOND)));
    assert_eq!(
        guard.check_and_modify(5),
        Err(GcraError::DeniedIndefinitely { cost: 5, rate_limit: limit })
    );
}

#[test]
fn guard_reverts_at_the_clock_reading() {
    let clock = ManualClock::at(10 * SECOND);
    let limit = RateLimit::new(4, Duration::from_secs(4));
    let mut guard = RateLimitGuard::new(clock.clone(), limit, GcraState::default());
    assert_eq!(guard.check_and_modify(3), Ok(()));
    assert_eq!(guard.revert(1), Ok(()));
    assert_eq!(guard.state().tat, Some(Timestamp::from_nanos(12 * SECOND)));
    assert_eq!(guard.remaining_resources(), 2);
    clock.set(11 * SECOND);
    assert_eq!(guard.revert(1), Ok(()));
    assert_eq!(guard.state().tat, None);
    assert_eq!(guard.remaining_resources(), 4);
}

#[test]
fn guard_on_the_system_clock_runs_until_denied() {
    let limit = RateLimit::new(3, Duration::from_secs(3600));
    let mut guard = RateLimitGuard::new_state(limit);
    for turn in 0..3 {
        assert_eq!(guard.check_and_modify(1), Ok(()), "attempt #{} should be allowed", turn + 1);
    }
    assert!(
        matches!(guard.check_and_modify(1), Err(GcraError::DeniedUntil { .. })),
        "We should be over the limit now"
    );
    assert_eq!(guard.remaining_resources(), 0);
    assert_eq!(guard.revert(1), Ok(()));
    assert_eq!(guard.remaining_resources(), 1);
    assert_eq!(guard.check_and_modify(1), Ok(()), "Revert should allow additional attempt");
}

#[test]
fn guard_takes_a_reading_past_the_horizon_for_the_horizon() {
    let horizon = gcra::clock::HORIZON_NANOS;
    let clock = ManualClock::at(u128::MAX);
    let limit = RateLimit::new(1, Duration::from_secs(1));
    let mut guard = RateLimitGuard::new(clock.clone(), limit, GcraState::default());
    assert_eq!(guard.remaining_resources(), 1);
    assert_eq!(guard.check_and_modify(1), Ok(()));
    assert_eq!(guard.state().tat, Some(Timestamp::from_nanos(horizon + SECOND)));
    assert_eq!(guard.remaining_resources(), 0);
    assert_eq!(
        guard.check_and_modify(1),
        Err(GcraError::DeniedUntil { next_allowed_at: Timestamp::from_nanos(horizon + SECOND) })
    );
    assert_eq!(guard.revert(1), Ok(()));
    assert_eq!(guard.state().tat, None);
}

#[test]
fn guard_stands_for_its_state() {
    let clock = ManualClock::at(10 * SECOND);
    let limit = RateLimit::new(4, Duration::from_secs(4));
    let mut guard = RateLimitGuard::new(clock, limit, GcraState::default());
    assert_eq!(guard.tat, None);
    assert_eq!(guard.check_and_modify(1), Ok(()));
    assert_eq!(guard.tat, Some(Timestamp::from_nanos(11 * SECOND)));
}

/// A clock that says nothing of its own.
struct PlainClock;

impl Clock for PlainClock {}

#[test]
fn clock_reads_the_system_clock_unless_it_says_otherwise() {
    let before = gcra::InstantClock.now();
    let reading = PlainClock.now();
    let after = gcra::InstantClock.now();
    assert!(before <= reading);
    assert!(reading <= after);
}

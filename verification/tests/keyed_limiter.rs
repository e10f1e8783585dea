use gcra::{
    Commit, Duration, GcraError, GcraState, RateLimit, RateLimitEntry, RateLimiterError, Timestamp,
};
use thingvellir::{ShardError, UpstreamError};

fn start() -> Timestamp {
    Timestamp::from_nanos(86_400_000_000_000)
}

#[test]
fn fresh_entry_has_no_state_and_no_expiry() {
    let entry = RateLimitEntry::default();
    assert_eq!(entry.gcra_state, GcraState::default());
    assert_eq!(entry.get_expires_at(), None);
    assert!(entry.should_persist());
}

#[test]
fn admission_commits_and_refreshes_the_expiry() {
    let limit = RateLimit::new(3, Duration::from_secs(3));
    let mut entry = RateLimitEntry::default();
    assert_eq!(entry.check_at(&limit, 2, start()), Commit::Immediately(Ok(())));
    assert_eq!(entry.gcra_state.tat, Some(start() + Duration::from_secs(2)));
    assert_eq!(entry.get_expires_at(), Some(&(start() + Duration::from_secs(5))));
    assert!(entry.should_persist());
}

#[test]
fn denial_commits_nothing_and_changes_nothing() {
    let limit = RateLimit::new(3, Duration::from_secs(3));
    let mut entry = RateLimitEntry::default();
    assert_eq!(entry.check_at(&limit, 3, start()), Commit::Immediately(Ok(())));
    let before = entry;
    assert_eq!(
        entry.check_at(&limit, 1, start()),
        Commit::Noop(Err(GcraError::DeniedUntil {
            next_allowed_at: start() + Duration::from_secs(1)
        }))
    );
    assert_eq!(entry, before);
    assert_eq!(
        entry.check_at(&limit, 9, start()),
        Commit::Noop(Err(GcraError::DeniedIndefinitely { cost: 9, rate_limit: limit }))
    );
    assert_eq!(entry, before);
}

#[test]
fn expiry_follows_the_arrival_time() {
    let limit = RateLimit::new(3, Duration::from_secs(3));
    let mut entry = RateLimitEntry {
        gcra_state: GcraState { tat: Some(start() + Duration::from_secs(1)) },
        expires_at: None,
    };
    entry.update_expiration(&limit, start());
    assert_eq!(entry.expires_at, Some(start() + Duration::from_secs(4)));
    assert_eq!(entry.gcra_state.tat, Some(start() + Duration::from_secs(1)));
}

#[test]
fn expiry_of_an_unset_state_counts_from_now() {
    let limit = RateLimit::new(3, Duration::from_secs(3));
    let mut entry = RateLimitEntry::default();
    entry.update_expiration(&limit, start());
    assert_eq!(entry.expires_at, Some(start() + Duration::from_secs(3)));
    assert_eq!(entry.gcra_state.tat, None);
}

#[test]
fn rate_limiter_run_until_denied() {
    let rate_limit = RateLimit::new(3, Duration::from_secs(3));
    let mut entry = RateLimitEntry::default();

    for turn in 0..rate_limit.resource_limit {
        let now = start() + Duration::from_nanos(turn as u64);
        let served = match entry.check_at(&rate_limit, 1, now) {
            Commit::Immediately(result) => Ok(result),
            Commit::Noop(_) => panic!("an admission asks for a commit"),
        };
        assert!(RateLimiterError::settle(served).is_ok());
    }

    let now = start() + Duration::from_nanos(3);
    let served = match entry.check_at(&rate_limit, 1, now) {
        Commit::Noop(result) => Ok(result),
        Commit::Immediately(_) => panic!("a denial asks for no commit"),
    };
    match RateLimiterError::settle(served) {
        Ok(_) => panic!("We should be rate limited"),
        Err(RateLimiterError::GcraError(GcraError::DeniedUntil { next_allowed_at })) => {
            assert!(next_allowed_at > now);
            assert_eq!(next_allowed_at, start() + Duration::from_secs(1));
        }
        Err(_) => panic!("Unexpected error"),
    }
}

#[test]
fn rate_limiter_indefinitly_denied() {
    let rate_limit = RateLimit::new(3, Duration::from_secs(3));
    let mut entry = RateLimitEntry::default();

    let served = match entry.check_at(&rate_limit, 9, start()) {
        Commit::Noop(result) => Ok(result),
        Commit::Immediately(_) => panic!("a denial asks for no commit"),
    };
    match RateLimiterError::settle(served) {
        Ok(_) => panic!("We should be rate limited"),
        Err(RateLimiterError::GcraError(GcraError::DeniedIndefinitely {
            cost,
            rate_limit: err_rate_limit,
        })) => {
            assert_eq!(cost, 9);
            assert_eq!(err_rate_limit, rate_limit);
        }
        Err(_) => panic!("Unexpected error"),
    }
    assert_eq!(entry, RateLimitEntry::default());
}

fn outcome(commit: Commit<Result<(), GcraError>>) -> Result<(), GcraError> {
    match commit {
        Commit::Immediately(result) => result,
        Commit::Noop(result) => result,
    }
}

#[test]
fn rate_limiter_leaks() {
    let rate_limit = RateLimit::per_sec(2);
    let mut entry = RateLimitEntry::default();

    let now = start();
    assert!(outcome(entry.check_at(&rate_limit, 1, now)).is_ok());
    assert!(
        outcome(entry.check_at(&rate_limit, 1, now + Duration::from_millis(250))).is_ok(),
        "delay the 2nd check"
    );
    assert!(
        outcome(entry.check_at(&rate_limit, 1, now + Duration::from_millis(251))).is_err(),
        "check we are denied start"
    );
    assert!(
        outcome(entry.check_at(&rate_limit, 1, now + Duration::from_millis(499))).is_err(),
        "check we are denied end"
    );
    assert!(
        outcome(entry.check_at(&rate_limit, 1, now + Duration::from_millis(501))).is_ok(),
        "1st use should be released"
    )
}

#[test]
fn store_failure_comes_before_the_decision() {
    match RateLimiterError::settle(Err(ShardError::ShardGone)) {
        Err(RateLimiterError::ShardError(ShardError::ShardGone)) => {}
        other => panic!("unexpected {:?}", other),
    }
    match RateLimiterError::settle(Err(ShardError::ShardAtCapacity)) {
        Err(RateLimiterError::ShardError(ShardError::ShardAtCapacity)) => {}
        other => panic!("unexpected {:?}", other),
    }
    let upstream = ShardError::UpstreamError { error: UpstreamError::KeyNotFound };
    match RateLimiterError::settle(Err(upstream)) {
        Err(RateLimiterError::ShardError(ShardError::UpstreamError { error })) => {
            assert!(error.is_not_found())
        }
        other => panic!("unexpected {:?}", other),
    }
}

#[test]
fn denial_and_success_pass_through_the_store() {
    assert!(RateLimiterError::settle(Ok(Ok(()))).is_ok());
    let denial = GcraError::DeniedUntil { next_allowed_at: start() };
    match RateLimiterError::settle(Ok(Err(denial))) {
        Err(RateLimiterError::GcraError(found)) => assert_eq!(found, denial),
        other => panic!("unexpected {:?}", other),
    }
}

#[test]
fn errors_convert_into_their_own_kind() {
    let denial = GcraError::DeniedUntil { next_allowed_at: start() };
    assert!(matches!(
        RateLimiterError::from(denial),
        RateLimiterError::GcraError(GcraError::DeniedUntil { .. })
    ));
    assert!(matches!(
        RateLimiterError::from(ShardError::DataImmediatelyExpired),
        RateLimiterError::ShardError(ShardError::DataImmediatelyExpired)
    ));
}

#[test]
fn keys_do_not_influence_each_other() {
    let limit = RateLimit::new(2, Duration::from_secs(2));
    let other_limit = RateLimit::new(5, Duration::from_secs(10));
    let mut first_alone = RateLimitEntry::default();
    let mut second_alone = RateLimitEntry::default();
    let mut first = RateLimitEntry::default();
    let mut second = RateLimitEntry::default();
    let mut first_alone_outcomes = vec![];
    let mut second_alone_outcomes = vec![];
    for step in 0..6u64 {
        let now = start() + Duration::from_millis(300 * step);
        first_alone_outcomes.push(outcome(first_alone.check_at(&limit, 1, now)));
    }
    for step in 0..6u64 {
        let now = start() + Duration::from_millis(300 * step);
        second_alone_outcomes.push(outcome(second_alone.check_at(&other_limit, 2, now)));
    }
    // The same requests, interleaved.
    let mut first_outcomes = vec![];
    let mut second_outcomes = vec![];
    for step in 0..6u64 {
        let now = start() + Duration::from_millis(300 * step);
        first_outcomes.push(outcome(first.check_at(&limit, 1, now)));
        second_outcomes.push(outcome(second.check_at(&other_limit, 2, now)));
    }
    assert_eq!(first_alone_outcomes, first_outcomes);
    assert_eq!(second_alone_outcomes, second_outcomes);
    assert_eq!(first_alone, first);
    assert_eq!(second_alone, second);
    assert_eq!(
        first_outcomes,
        vec![
            Ok(()),
            Ok(()),
            Err(GcraError::DeniedUntil { next_allowed_at: start() + Duration::from_secs(1) }),
            Err(GcraError::DeniedUntil { next_allowed_at: start() + Duration::from_secs(1) }),
            Ok(()),
            Err(GcraError::DeniedUntil { next_allowed_at: start() + Duration::from_secs(2) }),
        ]
    );
    assert_eq!(
        second_outcomes,
        vec![
            Ok(()),
            Ok(()),
            Err(GcraError::DeniedUntil { next_allowed_at: start() + Duration::from_secs(2) }),
            Err(GcraError::DeniedUntil { next_allowed_at: start() + Duration::from_secs(2) }),
            Err(GcraError::DeniedUntil { next_allowed_at: start() + Duration::from_secs(2) }),
            Err(GcraError::DeniedUntil { next_allowed_at: start() + Duration::from_secs(2) }),
        ]
    );
}

#[test]
fn entry_stands_for_its_state() {
    let limit = RateLimit::new(3, Duration::from_secs(3));
    let mut entry = RateLimitEntry::default();
    assert_eq!(entry.tat, None);
    // Through the entry, the state's own check: no expiry is set.
    assert_eq!(entry.check_and_modify_at(&limit, start(), 1), Ok(()));
    assert_eq!(entry.tat, Some(start() + Duration::from_secs(1)));
    assert_eq!(entry.gcra_state.tat, Some(start() + Duration::from_secs(1)));
    assert_eq!(entry.expires_at, None);
    assert_eq!(entry.remaining_resources(&limit, start()), 2);
}

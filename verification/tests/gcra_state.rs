use gcra::{Clock, Duration, GcraError, GcraState, InstantClock, RateLimit};

#[test]
fn test_rate_limit_unused_counts() {
    let base_tat = InstantClock.now();
    let rate_limit = RateLimit::new(10, Duration::from_secs(1));

    assert_eq!(
        4,
        GcraState { tat: Some(base_tat + Duration::from_millis(550)) }
            .remaining_resources(&rate_limit, base_tat),
        "Remaining count should ceiled"
    );
    assert_eq!(
        0,
        GcraState { tat: Some(base_tat + Duration::from_millis(950)) }
            .remaining_resources(&rate_limit, base_tat),
        "Remaining count should ceiled, thus preventing any additional requests"
    );

    assert_eq!(
        9,
        GcraState { tat: Some(base_tat + Duration::from_millis(100)) }
            .remaining_resources(&rate_limit, base_tat),
        "Remaining count is based on max_period timeout"
    );
}

#[test]
fn gcra_basics() {
    let mut gcra = GcraState::default();
    let rate_limit = RateLimit::new(1, Duration::from_secs(1));

    let first_req_ts = InstantClock.now();
    assert_eq!(
        Ok(()),
        gcra.check_and_modify(&rate_limit, 1),
        "request #1 should pass"
    );
    let after_first_tat = gcra.tat;
    assert!(
        after_first_tat.is_some(),
        "state should be modified and have a TAT in the future"
    );

    let next_allowed_ts = match gcra.check_and_modify(&rate_limit, 1) {
        Err(GcraError::DeniedUntil { next_allowed_at }) => next_allowed_at,
        _ => panic!("request #2 should be denied temporarily"),
    };
    assert!(
        next_allowed_ts >= first_req_ts + Duration::from_secs(1),
        "we should only be allowed after the burst period"
    );
    assert_eq!(after_first_tat, gcra.tat, "State should be unchanged.")
}

#[test]
fn gcra_leaky() {
    let increment_interval: Duration = Duration::from_millis(500);

    let mut gcra = GcraState::default();
    let rate_limit = RateLimit::new(10, 10 * increment_interval);

    let arrived_at = InstantClock.now();
    assert_eq!(
        Ok(()),
        gcra.check_and_modify_at(&rate_limit, arrived_at, 1),
        "request #1 should pass"
    );
    assert_eq!(
        gcra.tat,
        Some(arrived_at + increment_interval),
        "new TAT state should have been moved forward according to cost"
    );

    assert_eq!(
        Ok(()),
        gcra.check_and_modify(&rate_limit, 9),
        "request #2 should consume all remaining resources and pass"
    );
    assert!(
        matches!(gcra.check_and_modify(&rate_limit, 1), Err(_allowed_at)),
        "request #3 should fail since all resources consumed"
    );

    let current_tat = gcra.tat.expect("should have a tat state after use");
    assert!(current_tat > InstantClock.now(), "tat in the future");

    assert!(
        matches!(
            // manually force time check that we know will fail
            gcra.check_and_modify_at(
                &rate_limit,
                current_tat - rate_limit.period - Duration::from_millis(1),
                1
            ),
            Err(_allowed_at)
        ),
        "request #4 before leak period should fail. INCREMENT_INTERVAL has not passed yet."
    );

    assert!(
        matches!(
            gcra.check_and_modify_at(&rate_limit, current_tat - rate_limit.period, 1),
            Err(_allowed_at)
        ),
        "request #5 after leak period should pass. INCREMENT_INTERVAL has passed"
    );
}

#[test]
fn gcra_cost_indefinitely_denied() {
    let mut gcra = GcraState::default();
    let rate_limit = RateLimit::new(5, Duration::from_secs(1));

    assert_eq!(
        Ok(()),
        gcra.check_and_modify(&rate_limit, 1),
        "request #1 should pass"
    );

    let over_limit_cost = rate_limit.resource_limit + 1;
    match gcra.check_and_modify(&rate_limit, over_limit_cost) {
        Err(GcraError::DeniedIndefinitely {
            cost,
            rate_limit: rl,
        }) => {
            assert_eq!(over_limit_cost, cost);
            assert_eq!(rate_limit, rl);
        }
        e => panic!("request #2 would never succeed {:?}", e),
    };
}

#[test]
fn gcra_cost_temporarily_denied() {
    let mut gcra = GcraState::default();
    let rate_limit = RateLimit::new(5, Duration::from_secs(1));

    let first_req_ts = InstantClock.now();
    assert_eq!(
        Ok(()),
        gcra.check_and_modify(&rate_limit, 1),
        "request #1 should pass"
    );

    let after_first_tat = gcra.tat;
    assert!(
        after_first_tat.is_some(),
        "state should be modified and have a TAT in the future"
    );

    let next_allowed_ts = match gcra.check_and_modify(&rate_limit, rate_limit.resource_limit) {
        Err(GcraError::DeniedUntil { next_allowed_at }) => next_allowed_at,
        _ => panic!("request #2 is only temporarily denied"),
    };

    assert!(
        next_allowed_ts >= first_req_ts + rate_limit.increment_interval(1),
        "we should only be allowed after the burst period {:?} >= {:?}",
        next_allowed_ts,
        first_req_ts + rate_limit.period
    );
    assert_eq!(after_first_tat, gcra.tat, "State should be unchanged.")
}

#[test]
fn gcra_refreshed_after_period() {
    let past_time = InstantClock.now() - Duration::from_millis(1001);
    let mut gcra = GcraState {
        tat: Some(past_time),
    };
    let rate_limit = RateLimit::new(1, Duration::from_secs(1));
    assert_eq!(
        Ok(()),
        gcra.check_and_modify(&rate_limit, 1),
        "request #1 should pass"
    );

    assert!(
        matches!(gcra.check_and_modify(&rate_limit, 1), Err(_allowed_at)),
        "request #2 should fail"
    );
}

//! When a full bucket admits again.

use crate::gcra::{decide, state_after};
use crate::laws::emission_bounds;
use crate::rate_limit::Budget;
use crate::time::NANOS_PER_MILLI;
use vstd::prelude::*;

verus! {

/// A bucket that was filled to the limit at `at`: the state after one
/// admitted request for the whole limit on a drained bucket.
pub open spec fn full_at(budget: Budget, at: nat) -> Option<nat> {
    Some(at + budget.resource_limit * budget.emission_interval)
}

/// One admitted request for the whole limit fills a drained bucket.
pub proof fn whole_limit_fills_the_bucket(budget: Budget, at: nat)
    requires
        budget.wf(),
    ensures
        decide(None, budget, at, budget.resource_limit) is Admit,
        state_after(None, decide(None, budget, at, budget.resource_limit)) == full_at(budget, at),
{
    emission_bounds(budget);
    assert(budget.increment(budget.resource_limit) == budget.resource_limit
        * budget.emission_interval) by (nonlinear_arith)
        requires
            budget.increment(budget.resource_limit) == budget.emission_interval
                * budget.resource_limit,
    ;
}

/// Where a full bucket leaks enough. A request of one unit on a bucket that
/// was filled to the limit at `at` is admitted exactly when it arrives later
/// than one emission interval after `at`, less the shortfall of the budget.
pub proof fn leak_threshold(budget: Budget, at: nat, now: nat)
    requires
        budget.wf(),
    ensures
        decide(full_at(budget, at), budget, now, 1) is Admit <==> now + budget.shortfall() > at
            + budget.emission_interval,
{
    let e = budget.emission_interval;
    emission_bounds(budget);
    assert(budget.increment(1) == e) by (nonlinear_arith)
        requires
            budget.increment(1) == e * 1,
    ;
}

/// Leak recovery. One emission interval after a bucket was filled to the
/// limit, exactly one more request of one unit is admitted, and one
/// millisecond earlier none is: for every budget whose shortfall is not zero,
/// at most one emission interval and at most one millisecond.
///
/// Without a shortfall the request is denied until that very instant, and
/// admitted at any later one (see [`leak_threshold`]).
pub proof fn leak_recovery(budget: Budget, at: nat)
    requires
        budget.wf(),
        0 < budget.shortfall() <= budget.emission_interval,
        budget.shortfall() <= NANOS_PER_MILLI,
        at + budget.emission_interval >= NANOS_PER_MILLI,
    ensures
        ({
            let later = at + budget.emission_interval;
            let once = decide(full_at(budget, at), budget, later, 1);
            let twice = decide(state_after(full_at(budget, at), once), budget, later, 1);
            let earlier = (later - NANOS_PER_MILLI) as nat;
            &&& once is Admit
            &&& !(twice is Admit)
            &&& !(decide(full_at(budget, at), budget, earlier, 1) is Admit)
        }),
{
    let e = budget.emission_interval;
    emission_bounds(budget);
    assert(budget.increment(1) == e) by (nonlinear_arith)
        requires
            budget.increment(1) == e * 1,
    ;
    leak_threshold(budget, at, at + e);
    leak_threshold(budget, at, (at + e - NANOS_PER_MILLI) as nat);
}

/// Leak recovery holds of no other budget: where the shortfall is zero, or
/// more than one emission interval, or more than one millisecond, one of its
/// three parts fails.
pub proof fn leak_recovery_only_with_a_small_shortfall(budget: Budget, at: nat)
    requires
        budget.wf(),
        at + budget.emission_interval >= NANOS_PER_MILLI,
        !(0 < budget.shortfall() <= budget.emission_interval && budget.shortfall()
            <= NANOS_PER_MILLI),
    ensures
        !({
            let later = at + budget.emission_interval;
            let once = decide(full_at(budget, at), budget, later, 1);
            let twice = decide(state_after(full_at(budget, at), once), budget, later, 1);
            let earlier = (later - NANOS_PER_MILLI) as nat;
            &&& once is Admit
            &&& !(twice is Admit)
            &&& !(decide(full_at(budget, at), budget, earlier, 1) is Admit)
        }),
{
    let e = budget.emission_interval;
    emission_bounds(budget);
    assert(budget.increment(1) == e) by (nonlinear_arith)
        requires
            budget.increment(1) == e * 1,
    ;
    leak_threshold(budget, at, at + e);
    leak_threshold(budget, at, (at + e - NANOS_PER_MILLI) as nat);
    let later = at + e;
    let once = decide(full_at(budget, at), budget, later, 1);
    let twice = decide(state_after(full_at(budget, at), once), budget, later, 1);
    let earlier = (later - NANOS_PER_MILLI) as nat;
    let r = budget.shortfall();
    if r == 0 {
        assert(!(once is Admit));
    } else if r > NANOS_PER_MILLI {
        assert(decide(full_at(budget, at), budget, earlier, 1) is Admit);
    } else {
        // More than one emission interval is lost: a second request passes.
        assert(r > e);
        assert(budget.resource_limit * e >= e) by (nonlinear_arith)
            requires
                budget.resource_limit >= 1,
        ;
        assert(twice is Admit);
    }
}

} // verus!

//! How many requests pass at once on a fresh bucket.

use crate::gcra::{decide, state_after, Decision};
use crate::laws::emission_bounds;
use crate::laws::rate::{after_run, Request};
use crate::rate_limit::Budget;
use vstd::prelude::*;

verus! {

/// The state after `count` requests of `cost` that all arrive at `now`, each
/// decided in turn.
pub open spec fn after_repeated(
    tat: Option<nat>,
    budget: Budget,
    now: nat,
    cost: nat,
    count: nat,
) -> Option<nat>
    decreases count,
{
    if count == 0 {
        tat
    } else {
        let before = after_repeated(tat, budget, now, cost, (count - 1) as nat);
        state_after(before, decide(before, budget, now, cost))
    }
}

/// While every request at one instant is admitted, each moves the arrival
/// time of a fresh bucket one emission interval further.
pub proof fn admitted_burst_state(budget: Budget, at: nat, count: nat)
    requires
        forall|k: nat| k < count ==> (#[trigger] decide(
            after_repeated(None, budget, at, 1, k),
            budget,
            at,
            1,
        )) is Admit,
        count >= 1,
    ensures
        after_repeated(None, budget, at, 1, count) == Some(at + count * budget.emission_interval),
    decreases count,
{
    let e = budget.emission_interval;
    assert(budget.increment(1) == e) by (nonlinear_arith)
        requires
            budget.increment(1) == e * 1,
    ;
    let before = after_repeated(None, budget, at, 1, (count - 1) as nat);
    assert(decide(before, budget, at, 1) is Admit);
    if count == 1 {
        assert(before == None::<nat>);
        assert(at + count * e == at + e) by (nonlinear_arith)
            requires
                count == 1,
        ;
    } else {
        admitted_burst_state(budget, at, (count - 1) as nat);
        assert(at + (count - 1) * e + e == at + count * e) by (nonlinear_arith);
    }
}

/// At one instant, on a fresh bucket, the first `count` requests of one
/// unit are all admitted exactly when `count` is at most one or `count`
/// emission intervals are less than the period.
pub proof fn burst_at_one_instant(budget: Budget, at: nat, count: nat)
    requires
        budget.wf(),
    ensures
        (forall|k: nat| k < count ==> (#[trigger] decide(
            after_repeated(None, budget, at, 1, k),
            budget,
            at,
            1,
        )) is Admit) <==> (count <= 1 || count * budget.emission_interval < budget.period),
    decreases count,
{
    let e = budget.emission_interval;
    let p = budget.period;
    emission_bounds(budget);
    assert(budget.increment(1) == e) by (nonlinear_arith)
        requires
            budget.increment(1) == e * 1,
    ;
    let all = |n: nat|
        forall|k: nat| k < n ==> (#[trigger] decide(
            after_repeated(None, budget, at, 1, k),
            budget,
            at,
            1,
        )) is Admit;
    if count == 0 {
    } else if count == 1 {
        assert(after_repeated(None, budget, at, 1, 0) == None::<nat>);
        assert(decide(None, budget, at, 1) is Admit);
    } else {
        let fewer = (count - 1) as nat;
        burst_at_one_instant(budget, at, fewer);
        assert(fewer * e <= count * e) by (nonlinear_arith)
            requires
                fewer <= count,
        ;
        assert(fewer * e + e == count * e) by (nonlinear_arith)
            requires
                fewer + 1 == count,
        ;
        if all(fewer) {
            admitted_burst_state(budget, at, fewer);
            let before = after_repeated(None, budget, at, 1, fewer);
            assert(before == Some(at + fewer * e));
            assert(decide(before, budget, at, 1) is Admit <==> count * e < p);
            if count * e < p {
                assert forall|k: nat| k < count implies (#[trigger] decide(
                    after_repeated(None, budget, at, 1, k),
                    budget,
                    at,
                    1,
                )) is Admit by {
                    if k < fewer {
                    } else {
                        assert(k == fewer);
                    }
                }
            } else {
                assert(!(decide(after_repeated(None, budget, at, 1, fewer), budget, at, 1) is Admit));
            }
        } else {
            assert(!all(count));
            assert(fewer >= 2);
            assert(fewer * e >= p);
        }
    }
}

/// The request that ends a burst at one instant is denied until the arrival
/// time that it would have recorded, less one period.
pub proof fn burst_ends(budget: Budget, at: nat, count: nat)
    requires
        budget.wf(),
        count >= 1,
        count == 1 || count * budget.emission_interval < budget.period,
        (count + 1) * budget.emission_interval >= budget.period,
    ensures
        decide(after_repeated(None, budget, at, 1, count), budget, at, 1) == (Decision::DenyUntil {
            next_allowed_at: (at + (count + 1) * budget.emission_interval - budget.period) as nat,
        }),
{
    let e = budget.emission_interval;
    emission_bounds(budget);
    assert(budget.increment(1) == e) by (nonlinear_arith)
        requires
            budget.increment(1) == e * 1,
    ;
    burst_at_one_instant(budget, at, count);
    admitted_burst_state(budget, at, count);
    assert(count * e + e == (count + 1) * e) by (nonlinear_arith);
}

/// Budget exactness for a limit of one: at one instant exactly
/// `resource_limit` requests of one unit are admitted on a fresh bucket, and
/// the next is denied until no earlier than one emission interval later.
///
/// With a larger limit the statement fails at one instant: where the period
/// is a multiple of the limit, the last request of the budget is denied until
/// that very instant, and passes at any later one (see
/// [`budget_exactness_with_later_arrivals`]).
pub proof fn budget_exactness(budget: Budget, at: nat)
    requires
        budget.wf(),
        budget.resource_limit == 1,
    ensures
        forall|k: nat| k < budget.resource_limit ==> (#[trigger] decide(
            after_repeated(None, budget, at, 1, k),
            budget,
            at,
            1,
        )) is Admit,
        decide(
            after_repeated(None, budget, at, 1, budget.resource_limit),
            budget,
            at,
            1,
        ) matches Decision::DenyUntil { next_allowed_at } && next_allowed_at >= at
            + budget.emission_interval,
{
    let e = budget.emission_interval;
    emission_bounds(budget);
    burst_at_one_instant(budget, at, 1);
    assert(2 * e >= budget.period) by (nonlinear_arith)
        requires
            1 * e <= budget.period,
            budget.period < 1 * e + 1,
    ;
    burst_ends(budget, at, 1);
    assert((1 + 1) * e == 2 * e) by (nonlinear_arith);
}

/// With a limit of two or more, budget exactness fails at one instant for
/// every period: either fewer or more than `resource_limit` requests are
/// admitted, or the next is denied until a time less than one emission
/// interval later.
pub proof fn budget_exactness_only_for_a_limit_of_one(budget: Budget, at: nat)
    requires
        budget.wf(),
        budget.resource_limit >= 2,
    ensures
        !({
            &&& forall|k: nat|
                k < budget.resource_limit ==> (#[trigger] decide(
                    after_repeated(None, budget, at, 1, k),
                    budget,
                    at,
                    1,
                )) is Admit
            &&& decide(
                after_repeated(None, budget, at, 1, budget.resource_limit),
                budget,
                at,
                1,
            ) matches Decision::DenyUntil { next_allowed_at } && next_allowed_at >= at
                + budget.emission_interval
        }),
{
    let e = budget.emission_interval;
    let n = budget.resource_limit;
    emission_bounds(budget);
    assert(budget.increment(1) == e) by (nonlinear_arith)
        requires
            budget.increment(1) == e * 1,
    ;
    burst_at_one_instant(budget, at, n);
    if forall|k: nat|
        k < n ==> (#[trigger] decide(after_repeated(None, budget, at, 1, k), budget, at, 1)) is Admit {
        admitted_burst_state(budget, at, n);
        assert(n * e < budget.period);
        assert(n * e + e == (n + 1) * e) by (nonlinear_arith);
    }
}

/// While requests of one unit arrive within the first emission interval and
/// fewer than the limit have come, each is admitted on a bucket that was
/// fresh before the first, provided the period is a multiple of the limit
/// and all but the first arrive later than the first.
proof fn early_arrivals_state(budget: Budget, requests: Seq<Request>, count: nat)
    requires
        budget.wf(),
        budget.period % budget.resource_limit == 0,
        1 <= count <= requests.len(),
        count <= budget.resource_limit,
        forall|i: int| 0 <= i < requests.len() ==> (#[trigger] requests[i]).cost == 1,
        forall|i: int|
            0 <= i < requests.len() ==> requests[0].now <= (#[trigger] requests[i]).now
                < requests[0].now + budget.emission_interval,
        forall|i: int| 1 <= i < requests.len() ==> (#[trigger] requests[i]).now > requests[0].now,
    ensures
        after_run(None, budget, requests.take(count as int)) == Some(
            requests[0].now + count * budget.emission_interval,
        ),
        decide(
            after_run(None, budget, requests.take(count - 1)),
            budget,
            requests[count - 1].now,
            1,
        ) is Admit,
    decreases count,
{
    let e = budget.emission_interval;
    let first = requests[0].now;
    emission_bounds(budget);
    assert(budget.increment(1) == e) by (nonlinear_arith)
        requires
            budget.increment(1) == e * 1,
    ;
    let taken = requests.take(count as int);
    assert(taken.drop_last() =~= requests.take(count - 1));
    assert(taken.last() == requests[count - 1]);
    if count == 1 {
        assert(requests.take(0).len() == 0);
        assert(after_run(None, budget, requests.take(0)) == None::<nat>);
        assert(first + count * e == first + e) by (nonlinear_arith)
            requires
                count == 1,
        ;
    } else {
        early_arrivals_state(budget, requests, (count - 1) as nat);
        assert((count - 1) * e + e == count * e) by (nonlinear_arith);
        assert((count - 1) * e >= e) by (nonlinear_arith)
            requires
                count >= 2,
        ;
        assert(count * e <= budget.resource_limit * e) by (nonlinear_arith)
            requires
                count <= budget.resource_limit,
        ;
    }
}

/// Budget exactness under a running clock. Let the period be a multiple of
/// the limit, and let requests of one unit arrive on a fresh bucket within
/// one emission interval of the first, each but the first later than the
/// first. Then exactly `resource_limit` of them are admitted, and the next
/// is denied until one emission interval after the first.
pub proof fn budget_exactness_with_later_arrivals(budget: Budget, requests: Seq<Request>)
    requires
        budget.wf(),
        budget.period % budget.resource_limit == 0,
        requests.len() == budget.resource_limit + 1,
        forall|i: int| 0 <= i < requests.len() ==> (#[trigger] requests[i]).cost == 1,
        forall|i: int|
            0 <= i < requests.len() ==> requests[0].now <= (#[trigger] requests[i]).now
                < requests[0].now + budget.emission_interval,
        forall|i: int| 1 <= i < requests.len() ==> (#[trigger] requests[i]).now > requests[0].now,
    ensures
        forall|k: int|
            0 <= k < budget.resource_limit ==> (#[trigger] decide(
                after_run(None, budget, requests.take(k)),
                budget,
                requests[k].now,
                1,
            )) is Admit,
        decide(
            after_run(None, budget, requests.take(budget.resource_limit as int)),
            budget,
            requests[budget.resource_limit as int].now,
            1,
        ) == (Decision::DenyUntil { next_allowed_at: requests[0].now + budget.emission_interval }),
{
    let e = budget.emission_interval;
    let n = budget.resource_limit;
    emission_bounds(budget);
    assert(budget.increment(1) == e) by (nonlinear_arith)
        requires
            budget.increment(1) == e * 1,
    ;
    assert forall|k: int| 0 <= k < n implies (#[trigger] decide(
        after_run(None, budget, requests.take(k)),
        budget,
        requests[k].now,
        1,
    )) is Admit by {
        early_arrivals_state(budget, requests, (k + 1) as nat);
    }
    early_arrivals_state(budget, requests, n);
}

} // verus!

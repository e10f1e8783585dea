//! Runs of requests, and the rate that no run exceeds.

use crate::gcra::{decide, state_after};
use crate::rate_limit::Budget;
use vstd::prelude::*;

verus! {

/// One request: when it arrives and what it costs.
pub struct Request {
    pub now: nat,
    pub cost: nat,
}

/// The state after `requests`, each decided in turn.
pub open spec fn after_run(tat: Option<nat>, budget: Budget, requests: Seq<Request>) -> Option<nat>
    decreases requests.len(),
{
    if requests.len() == 0 {
        tat
    } else {
        let before = after_run(tat, budget, requests.drop_last());
        state_after(before, decide(before, budget, requests.last().now, requests.last().cost))
    }
}

/// The cost of the requests that are admitted among `requests`, each decided
/// in turn.
pub open spec fn admitted_cost(tat: Option<nat>, budget: Budget, requests: Seq<Request>) -> nat
    decreases requests.len(),
{
    if requests.len() == 0 {
        0
    } else {
        let before = after_run(tat, budget, requests.drop_last());
        let earlier = admitted_cost(tat, budget, requests.drop_last());
        if decide(before, budget, requests.last().now, requests.last().cost) is Admit {
            earlier + requests.last().cost
        } else {
            earlier
        }
    }
}

/// Every admission moves the arrival time on by at least its increment: a
/// bucket that was in use before `requests` ends no earlier than its arrival
/// time then, plus the emission intervals of what was admitted.
pub proof fn arrival_time_advances(tat: Option<nat>, budget: Budget, requests: Seq<Request>)
    ensures
        tat matches Some(before) ==> (after_run(tat, budget, requests) matches Some(t) && before
            + admitted_cost(tat, budget, requests) * budget.emission_interval <= t),
    decreases requests.len(),
{
    let e = budget.emission_interval;
    if requests.len() == 0 {
        assert(admitted_cost(tat, budget, requests) * e == 0) by (nonlinear_arith)
            requires
                admitted_cost(tat, budget, requests) == 0,
        ;
    } else {
        let earlier = requests.drop_last();
        let last = requests.last();
        arrival_time_advances(tat, budget, earlier);
        let so_far = admitted_cost(tat, budget, earlier);
        assert(budget.increment(last.cost) == last.cost * e) by (nonlinear_arith)
            requires
                budget.increment(last.cost) == e * last.cost,
        ;
        assert((so_far + last.cost) * e == so_far * e + last.cost * e) by (nonlinear_arith);
    }
}

/// The rate that the algorithm enforces. Whatever the state before them,
/// the requests admitted among those that arrive within `span` of `from`
/// cost, in emission intervals, at most `span` and one period more. Where
/// the bucket was in use before, the time by which its arrival time lay
/// after `from` counts against that bound.
pub proof fn admitted_cost_in_window(
    tat: Option<nat>,
    budget: Budget,
    requests: Seq<Request>,
    from: nat,
    span: nat,
)
    requires
        forall|i: int|
            0 <= i < requests.len() ==> from <= (#[trigger] requests[i]).now <= from + span,
    ensures
        admitted_cost(tat, budget, requests) * budget.emission_interval <= span + budget.period,
        admitted_cost(tat, budget, requests) * budget.emission_interval > 0 ==> (after_run(
            tat,
            budget,
            requests,
        ) matches Some(t) && from + admitted_cost(tat, budget, requests) * budget.emission_interval
            <= t <= from + span + budget.period),
        admitted_cost(tat, budget, requests) * budget.emission_interval > 0 ==> (tat matches Some(
            before,
        ) ==> before + admitted_cost(tat, budget, requests) * budget.emission_interval <= from
            + span + budget.period),
    decreases requests.len(),
{
    let e = budget.emission_interval;
    arrival_time_advances(tat, budget, requests);
    if requests.len() == 0 {
        assert(admitted_cost(tat, budget, requests) * e == 0) by (nonlinear_arith)
            requires
                admitted_cost(tat, budget, requests) == 0,
        ;
    } else {
        let earlier = requests.drop_last();
        let last = requests.last();
        assert forall|i: int| 0 <= i < earlier.len() implies from <= (#[trigger] earlier[i]).now
            <= from + span by {
            assert(earlier[i] == requests[i]);
        }
        admitted_cost_in_window(tat, budget, earlier, from, span);
        assert(last == requests[requests.len() - 1]);
        let so_far = admitted_cost(tat, budget, earlier);
        assert(budget.increment(last.cost) == last.cost * e) by (nonlinear_arith)
            requires
                budget.increment(last.cost) == e * last.cost,
        ;
        assert((so_far + last.cost) * e == so_far * e + last.cost * e) by (nonlinear_arith);
    }
}

} // verus!

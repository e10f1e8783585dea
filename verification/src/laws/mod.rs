//! What holds of the algorithm for every budget, state, time and cost.
//!
//! Each statement is about the model of [`crate::gcra`], over natural numbers
//! of nanoseconds. The executable methods are proved to compute that model,
//! so each statement holds of them wherever their results are representable.

pub mod burst;
pub mod leak;
pub mod rate;
pub mod remaining;

use crate::gcra::{decide, lemma_nothing_ahead, remaining, reverted, state_after, Decision};
use crate::rate_limit::Budget;
use vstd::prelude::*;

verus! {

/// The limit's worth of emission intervals never exceeds the period, and
/// falls short of it by less than the limit.
pub proof fn emission_bounds(budget: Budget)
    requires
        budget.wf(),
    ensures
        budget.resource_limit * budget.emission_interval <= budget.period,
        budget.period < budget.resource_limit * budget.emission_interval + budget.resource_limit,
        budget.shortfall() == budget.period % budget.resource_limit,
        budget.emission_interval <= budget.period,
{
    let n = budget.resource_limit as int;
    let p = budget.period as int;
    let e = budget.emission_interval as int;
    vstd::arithmetic::div_mod::lemma_fundamental_div_mod(p, n);
    vstd::arithmetic::div_mod::lemma_mod_bound(p, n);
    assert(n * e == budget.resource_limit * budget.emission_interval);
    assert(e <= n * e) by (nonlinear_arith)
        requires
            n >= 1,
            e >= 0,
    ;
}

/// A denial changes nothing: the state after a request that is not admitted
/// is the state before it.
pub proof fn denial_keeps_state(tat: Option<nat>, budget: Budget, now: nat, cost: nat)
    ensures
        !(decide(tat, budget, now, cost) is Admit) ==> state_after(
            tat,
            decide(tat, budget, now, cost),
        ) == tat,
{
}

/// A cost whose increment exceeds the period is denied indefinitely, in
/// every state and at every time, and leaves the state as it was.
pub proof fn oversized_cost_never_passes(tat: Option<nat>, budget: Budget, now: nat, cost: nat)
    requires
        cost * budget.emission_interval > budget.period,
    ensures
        decide(tat, budget, now, cost) == Decision::DenyIndefinitely,
        state_after(tat, decide(tat, budget, now, cost)) == tat,
{
    assert(budget.increment(cost) == cost * budget.emission_interval) by (nonlinear_arith)
        requires
            budget.increment(cost) == budget.emission_interval * cost,
    ;
}

/// A temporary denial says when to come back. The time it names is not
/// before the request; the same request is denied up to that time and
/// admitted at every later one, as long as the state stays as it is.
pub proof fn denial_says_when(tat: Option<nat>, budget: Budget, now: nat, cost: nat, later: nat)
    requires
        decide(tat, budget, now, cost) is DenyUntil,
    ensures
        decide(tat, budget, now, cost)->next_allowed_at >= now,
        decide(tat, budget, later, cost) is Admit <==> later > decide(
            tat,
            budget,
            now,
            cost,
        )->next_allowed_at,
{
}

/// The arrival time only moves forward on admission: it ends no earlier
/// than it was, and no earlier than the request's arrival plus its increment.
pub proof fn admission_moves_forward(tat: Option<nat>, budget: Budget, now: nat, cost: nat)
    requires
        decide(tat, budget, now, cost) is Admit,
    ensures
        state_after(tat, decide(tat, budget, now, cost)) matches Some(advanced) && {
            &&& advanced >= now + budget.increment(cost)
            &&& advanced <= now + budget.period
            &&& tat matches Some(before) ==> advanced >= before + budget.increment(cost)
        },
{
}

/// Giving back moves the arrival time backward, never forward, and never to
/// `now` or before it: a state that is still set after it lies after `now`.
pub proof fn revert_moves_backward(tat: Option<nat>, budget: Budget, now: nat, cost: nat)
    ensures
        reverted(tat, budget, now, cost) matches Some(earlier) ==> (tat matches Some(before)
            && earlier + budget.increment(cost) == before && earlier > now),
        tat is None ==> reverted(tat, budget, now, cost) is None,
{
}

/// An entry that has expired is as good as none. Once a period has passed
/// since the arrival time, every request is decided as on a bucket that was
/// never used, and all resources remain.
pub proof fn expired_state_is_fresh(expired: nat, budget: Budget, now: nat, cost: nat)
    requires
        budget.period > 0,
        expired + budget.period <= now,
    ensures
        decide(Some(expired), budget, now, cost) == decide(None, budget, now, cost),
        remaining(Some(expired), budget, now) == remaining(None, budget, now),
        reverted(Some(expired), budget, now, cost) == reverted(None, budget, now, cost),
{
    lemma_nothing_ahead(Some(expired), budget, now);
    lemma_nothing_ahead(None, budget, now);
}

/// Giving back an admitted cost at the time of its admission and asking for
/// it again at that time succeeds again, and leads to the same state as the
/// first admission.
pub proof fn revert_then_check_again(tat: Option<nat>, budget: Budget, now: nat, cost: nat)
    requires
        decide(tat, budget, now, cost) is Admit,
    ensures
        ({
            let admitted = state_after(tat, decide(tat, budget, now, cost));
            let given_back = reverted(admitted, budget, now, cost);
            &&& decide(given_back, budget, now, cost) is Admit
            &&& state_after(given_back, decide(given_back, budget, now, cost)) == admitted
        }),
{
}

} // verus!

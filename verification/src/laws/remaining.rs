//! What the count of remaining resources does.

use crate::gcra::{
    ahead, consumed, decide, div_ceil, lemma_nothing_ahead, remaining, state_after,
};
use crate::laws::emission_bounds;
use crate::rate_limit::Budget;
use vstd::prelude::*;

verus! {

/// How far the time ahead, in units of the budget, could shrink without
/// changing the count of consumed units: its remainder by the period, or a
/// whole period where that is zero.
pub open spec fn rounding_room(tat: Option<nat>, budget: Budget, now: nat) -> nat
    recommends
        budget.period > 0,
{
    let over = (ahead(tat, now) * budget.resource_limit) % budget.period;
    if over == 0 {
        budget.period
    } else {
        over
    }
}

/// Remaining resources never exceed the limit.
pub proof fn remaining_is_bounded(tat: Option<nat>, budget: Budget, now: nat)
    ensures
        remaining(tat, budget, now) <= budget.resource_limit,
{
}

/// Remaining resources are back at the limit once the arrival time has
/// passed: where it is unset or not after `now`.
pub proof fn remaining_is_full_once_drained(tat: Option<nat>, budget: Budget, now: nat)
    requires
        budget.period > 0,
        tat matches Some(t) ==> t <= now,
    ensures
        remaining(tat, budget, now) == budget.resource_limit,
{
    lemma_nothing_ahead(tat, budget, now);
}

/// Remaining resources decrease by exactly `cost` with an admitted request
/// of `cost`, seen at the time of the request, provided that what the
/// emission interval loses to rounding over `cost` units is less than the
/// rounding room of the state before.
pub proof fn remaining_drops_by_cost(tat: Option<nat>, budget: Budget, now: nat, cost: nat)
    requires
        budget.wf(),
        decide(tat, budget, now, cost) is Admit,
        cost * budget.shortfall() < rounding_room(tat, budget, now),
    ensures
        remaining(state_after(tat, decide(tat, budget, now, cost)), budget, now) + cost
            == remaining(tat, budget, now),
{
    let n = budget.resource_limit as int;
    let p = budget.period as int;
    let e = budget.emission_interval as int;
    let r = budget.shortfall() as int;
    let c = cost as int;
    emission_bounds(budget);
    assert(budget.increment(cost) == c * e) by (nonlinear_arith)
        requires
            budget.increment(cost) == budget.emission_interval * cost,
            c == cost,
            e == budget.emission_interval,
    ;
    let after = state_after(tat, decide(tat, budget, now, cost));
    let d0 = ahead(tat, now) as int;
    let d1 = ahead(after, now) as int;
    assert(d1 == d0 + c * e);
    assert(d1 <= p);
    let x0 = d0 * n;
    let x1 = d1 * n;
    assert(n * e == p - r);
    assert(x1 == x0 + c * p - c * r) by (nonlinear_arith)
        requires
            x1 == d1 * n,
            x0 == d0 * n,
            d1 == d0 + c * e,
            n * e == p - r,
    ;
    assert(x1 <= p * n) by (nonlinear_arith)
        requires
            x1 == d1 * n,
            d1 <= p,
            n >= 0,
    ;
    let m = x0 / p;
    let over = x0 % p;
    vstd::arithmetic::div_mod::lemma_fundamental_div_mod(x0, p);
    vstd::arithmetic::div_mod::lemma_mod_bound(x0, p);
    assert(x0 == p * m + over);
    assert(c * r >= 0) by (nonlinear_arith)
        requires
            c >= 0,
            r >= 0,
    ;
    assert(c * r == cost * budget.shortfall()) by (nonlinear_arith)
        requires
            c == cost,
            r == budget.shortfall(),
    ;
    // The quotient and the remainder of the time ahead after the admission.
    let (q1, r1): (int, int) = if over == 0 {
        if c * r == 0 {
            (m + c, 0int)
        } else {
            (m + c - 1, p - c * r)
        }
    } else {
        (m + c, over - c * r)
    };
    assert(x1 == q1 * p + r1) by (nonlinear_arith)
        requires
            x1 == x0 + c * p - c * r,
            x0 == p * m + over,
            (q1 == m + c && r1 == over - c * r) || (q1 == m + c - 1 && r1 == p + over - c * r),
    ;
    assert(0 <= r1 < p);
    vstd::arithmetic::div_mod::lemma_fundamental_div_mod_converse(x1, p, q1, r1);
    assert(x1 / p == q1 && x1 % p == r1);
    let used0 = consumed(tat, budget, now) as int;
    let used1 = consumed(after, budget, now) as int;
    assert(used0 == div_ceil(x0 as nat, budget.period));
    assert(used1 == div_ceil(x1 as nat, budget.period));
    assert(used1 == used0 + c);
    // No more than the limit is consumed after an admission.
    assert(used1 <= n) by {
        if r1 == 0 {
            assert(q1 * p <= n * p);
            assert(q1 <= n) by (nonlinear_arith)
                requires
                    q1 * p <= n * p,
                    p > 0,
            ;
        } else {
            assert(q1 * p < n * p);
            assert(q1 < n) by (nonlinear_arith)
                requires
                    q1 * p < n * p,
                    p > 0,
            ;
        }
    }
}

/// Where rounding loses as much as the rounding room or more, remaining
/// resources decrease by less than the admitted `cost`.
pub proof fn remaining_drops_by_less_otherwise(
    tat: Option<nat>,
    budget: Budget,
    now: nat,
    cost: nat,
)
    requires
        budget.wf(),
        decide(tat, budget, now, cost) is Admit,
        cost * budget.shortfall() >= rounding_room(tat, budget, now),
    ensures
        remaining(state_after(tat, decide(tat, budget, now, cost)), budget, now) + cost
            > remaining(tat, budget, now),
{
    let n = budget.resource_limit as int;
    let p = budget.period as int;
    let e = budget.emission_interval as int;
    let r = budget.shortfall() as int;
    let c = cost as int;
    emission_bounds(budget);
    assert(budget.increment(cost) == c * e) by (nonlinear_arith)
        requires
            budget.increment(cost) == budget.emission_interval * cost,
            c == cost,
            e == budget.emission_interval,
    ;
    let after = state_after(tat, decide(tat, budget, now, cost));
    let d0 = ahead(tat, now) as int;
    let d1 = ahead(after, now) as int;
    assert(d1 == d0 + c * e);
    assert(d1 <= p);
    let x0 = d0 * n;
    let x1 = d1 * n;
    assert(x1 == x0 + c * p - c * r) by (nonlinear_arith)
        requires
            x1 == d1 * n,
            x0 == d0 * n,
            d1 == d0 + c * e,
            n * e == p - r,
    ;
    assert(x0 <= x1) by (nonlinear_arith)
        requires
            x1 == d1 * n,
            x0 == d0 * n,
            d0 <= d1,
            n >= 0,
    ;
    assert(x1 <= n * p) by (nonlinear_arith)
        requires
            x1 == d1 * n,
            d1 <= p,
            n >= 0,
    ;
    let m = x0 / p;
    let over = x0 % p;
    vstd::arithmetic::div_mod::lemma_fundamental_div_mod(x0, p);
    vstd::arithmetic::div_mod::lemma_mod_bound(x0, p);
    assert(c * r == cost * budget.shortfall()) by (nonlinear_arith)
        requires
            c == cost,
            r == budget.shortfall(),
    ;
    let used0 = consumed(tat, budget, now) as int;
    let used1 = consumed(after, budget, now) as int;
    assert(used0 == div_ceil(x0 as nat, budget.period));
    assert(used1 == div_ceil(x1 as nat, budget.period));
    assert(x1 <= (used0 + c - 1) * p) by (nonlinear_arith)
        requires
            x1 == x0 + c * p - c * r,
            x0 == p * m + over,
            (over == 0 && used0 == m && c * r >= p) || (over > 0 && used0 == m + 1 && c * r
                >= over),
    ;
    lemma_div_ceil_at_most(x1 as nat, budget.period, (used0 + c - 1) as nat);
    lemma_div_ceil_at_most(x1 as nat, budget.period, budget.resource_limit);
    lemma_div_ceil_monotonic(x0 as nat, x1 as nat, budget.period);
}

/// A number that is at most `bound` periods holds at most `bound` periods,
/// rounded up.
proof fn lemma_div_ceil_at_most(numerator: nat, period: nat, bound: nat)
    requires
        period > 0,
        numerator <= bound * period,
    ensures
        div_ceil(numerator, period) <= bound,
{
    let x = numerator as int;
    let p = period as int;
    let k = bound as int;
    vstd::arithmetic::div_mod::lemma_fundamental_div_mod(x, p);
    vstd::arithmetic::div_mod::lemma_mod_bound(x, p);
    let q = x / p;
    let rest = x % p;
    assert(q <= k && (rest > 0 ==> q < k)) by (nonlinear_arith)
        requires
            x == p * q + rest,
            0 <= rest < p,
            x <= k * p,
            p > 0,
    ;
}

/// Rounding up keeps the order.
proof fn lemma_div_ceil_monotonic(smaller: nat, larger: nat, period: nat)
    requires
        period > 0,
        smaller <= larger,
    ensures
        div_ceil(smaller, period) <= div_ceil(larger, period),
{
    let p = period as int;
    let a = smaller as int;
    let b = larger as int;
    vstd::arithmetic::div_mod::lemma_fundamental_div_mod(a, p);
    vstd::arithmetic::div_mod::lemma_mod_bound(a, p);
    vstd::arithmetic::div_mod::lemma_fundamental_div_mod(b, p);
    vstd::arithmetic::div_mod::lemma_mod_bound(b, p);
    let qa = a / p;
    let ra = a % p;
    let qb = b / p;
    let rb = b % p;
    assert(qa <= qb && (qa == qb ==> ra <= rb)) by (nonlinear_arith)
        requires
            a == p * qa + ra,
            b == p * qb + rb,
            0 <= ra < p,
            0 <= rb < p,
            a <= b,
            p > 0,
    ;
}

/// Remaining resources decrease by exactly `cost` with an admitted request
/// of `cost`, for every budget whose period is a multiple of its limit.
pub proof fn remaining_drops_by_cost_in_exact_budget(
    tat: Option<nat>,
    budget: Budget,
    now: nat,
    cost: nat,
)
    requires
        budget.wf(),
        budget.period % budget.resource_limit == 0,
        decide(tat, budget, now, cost) is Admit,
    ensures
        remaining(state_after(tat, decide(tat, budget, now, cost)), budget, now) + cost
            == remaining(tat, budget, now),
{
    emission_bounds(budget);
    assert(cost * budget.shortfall() == 0) by (nonlinear_arith)
        requires
            budget.shortfall() == 0,
    ;
    vstd::arithmetic::div_mod::lemma_mod_bound(
        (ahead(tat, now) * budget.resource_limit) as int,
        budget.period as int,
    );
    remaining_drops_by_cost(tat, budget, now, cost);
}

} // verus!

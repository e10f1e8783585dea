//! The budget: how many units of cost may be admitted in how long a period.

use crate::time::{Duration, NANOS_PER_SEC};
use vstd::prelude::*;

verus! {

/// A budget of `resource_limit` units per `period`.
///
/// `emission_interval` is the time that one unit of cost occupies. It is
/// computed once, by [`RateLimit::new`], as `period / resource_limit` rounded
/// down to a whole nanosecond, so `resource_limit` intervals may fall short of
/// the period by less than `resource_limit` nanoseconds.
#[derive(Clone, Copy, Debug, PartialEq, Eq, Hash)]
pub struct RateLimit {
    pub resource_limit: u32,
    pub period: Duration,
    /// Incremental duration cost of a single resource check
    pub emission_interval: Duration,
}

/// A budget as three natural numbers; times are in nanoseconds.
pub struct Budget {
    pub resource_limit: nat,
    pub period: nat,
    pub emission_interval: nat,
}

impl Budget {
    /// What [`RateLimit::new`] builds: a positive limit, a positive period, and
    /// the period divided by the limit as the emission interval.
    pub open spec fn wf(self) -> bool {
        &&& self.resource_limit > 0
        &&& self.period > 0
        &&& self.emission_interval == self.period / self.resource_limit
    }

    /// The time that `cost` units occupy.
    pub open spec fn increment(self, cost: nat) -> nat {
        self.emission_interval * cost
    }

    /// The nanoseconds by which `resource_limit` emission intervals fall short
    /// of the period.
    pub open spec fn shortfall(self) -> nat {
        (self.period - self.resource_limit * self.emission_interval) as nat
    }
}

impl View for RateLimit {
    type V = Budget;

    open spec fn view(&self) -> Budget {
        Budget {
            resource_limit: self.resource_limit as nat,
            period: self.period@,
            emission_interval: self.emission_interval@,
        }
    }
}

impl RateLimit {
    /// The budget of `resource_limit` units per `period`. Neither is zero.
    pub fn new(resource_limit: u32, period: Duration) -> (limit: RateLimit)
        requires
            resource_limit > 0,
            period@ > 0,
        ensures
            limit.resource_limit == resource_limit,
            limit.period == period,
            limit.emission_interval@ == period@ / (resource_limit as nat),
            limit@.wf(),
    {
        let emission_interval = period / resource_limit;
        RateLimit { resource_limit, period, emission_interval }
    }

    /// The budget of `resource_limit` units per `period`, or `None` where
    /// either is zero.
    pub fn try_new(resource_limit: u32, period: Duration) -> (limit: Option<RateLimit>)
        ensures
            resource_limit == 0 || period@ == 0 ==> limit is None,
            resource_limit > 0 && period@ > 0 ==> (limit matches Some(built) && {
                &&& built.resource_limit == resource_limit
                &&& built.period == period
                &&& built.emission_interval@ == period@ / (resource_limit as nat)
                &&& built@.wf()
            }),
    {
        if resource_limit == 0 || period.is_zero() {
            None
        } else {
            Some(RateLimit::new(resource_limit, period))
        }
    }

    /// The budget of `resource_limit` units per second. The limit is not
    /// zero.
    pub fn per_sec(resource_limit: u32) -> (limit: RateLimit)
        requires
            resource_limit > 0,
        ensures
            limit.resource_limit == resource_limit,
            limit.period@ == NANOS_PER_SEC,
            limit.emission_interval@ == NANOS_PER_SEC as nat / (resource_limit as nat),
            limit@.wf(),
    {
        RateLimit::new(resource_limit, Duration::from_secs(1))
    }

    /// The time that `cost` units occupy: `cost` emission intervals. The
    /// product must fit in a [`Duration`].
    pub fn increment_interval(&self, cost: u32) -> (increment: Duration)
        requires
            self@.increment(cost as nat) <= u64::MAX,
        ensures
            increment@ == self@.increment(cost as nat),
    {
        self.emission_interval * cost
    }
}

} // verus!

//! Points in time and spans of time, counted in whole nanoseconds.

use vstd::prelude::*;

verus! {

/// Nanoseconds in one millisecond.
pub const NANOS_PER_MILLI: u64 = 1_000_000;

/// Nanoseconds in one second.
pub const NANOS_PER_SEC: u64 = 1_000_000_000;

/// A span of time: a number of nanoseconds that fits in 64 bits
/// (a little over 584 years).
#[derive(Clone, Copy, Debug, PartialEq, Eq, PartialOrd, Ord, Hash)]
pub struct Duration {
    pub nanos: u64,
}

/// A point in time: nanoseconds counted from the origin of the clock that
/// produced it. Points of one clock are ordered by their count.
#[derive(Clone, Copy, Debug, PartialEq, Eq, PartialOrd, Ord, Hash)]
pub struct Timestamp {
    pub nanos: u128,
}

impl View for Duration {
    type V = nat;

    open spec fn view(&self) -> nat {
        self.nanos as nat
    }
}

impl View for Timestamp {
    type V = nat;

    open spec fn view(&self) -> nat {
        self.nanos as nat
    }
}

impl Duration {
    /// The span of `nanos` nanoseconds.
    pub fn from_nanos(nanos: u64) -> (d: Duration)
        ensures
            d@ == nanos,
    {
        Duration { nanos }
    }

    /// The span of `millis` milliseconds.
    pub fn from_millis(millis: u64) -> (d: Duration)
        requires
            millis * NANOS_PER_MILLI <= u64::MAX,
        ensures
            d@ == millis * NANOS_PER_MILLI,
    {
        Duration { nanos: millis * NANOS_PER_MILLI }
    }

    /// The span of `secs` seconds.
    pub fn from_secs(secs: u64) -> (d: Duration)
        requires
            secs * NANOS_PER_SEC <= u64::MAX,
        ensures
            d@ == secs * NANOS_PER_SEC,
    {
        Duration { nanos: secs * NANOS_PER_SEC }
    }

    /// The number of nanoseconds in the span.
    pub fn as_nanos(&self) -> (n: u64)
        ensures
            n == self@,
    {
        self.nanos
    }

    /// Whether the span is empty.
    pub fn is_zero(&self) -> (z: bool)
        ensures
            z == (self@ == 0),
    {
        self.nanos == 0
    }
}

impl Timestamp {
    /// The point `nanos` nanoseconds after the clock's origin.
    pub fn from_nanos(nanos: u128) -> (t: Timestamp)
        ensures
            t@ == nanos,
    {
        Timestamp { nanos }
    }

    /// Nanoseconds between the clock's origin and this point.
    pub fn as_nanos(&self) -> (n: u128)
        ensures
            n == self@,
    {
        self.nanos
    }

    /// The point `span` later, or `None` where the count leaves 128 bits.
    pub fn checked_add(&self, span: Duration) -> (later: Option<Timestamp>)
        ensures
            self@ + span@ <= u128::MAX ==> later == Some(Timestamp { nanos: (self@ + span@) as u128 }),
            self@ + span@ > u128::MAX ==> later is None,
    {
        match self.nanos.checked_add(span.nanos as u128) {
            Some(nanos) => Some(Timestamp { nanos }),
            None => None,
        }
    }

    /// The point `span` earlier, or `None` where that lies before the origin.
    pub fn checked_sub(&self, span: Duration) -> (earlier: Option<Timestamp>)
        ensures
            self@ >= span@ ==> earlier == Some(Timestamp { nanos: (self@ - span@) as u128 }),
            self@ < span@ ==> earlier is None,
    {
        match self.nanos.checked_sub(span.nanos as u128) {
            Some(nanos) => Some(Timestamp { nanos }),
            None => None,
        }
    }
}

impl core::ops::Add<Duration> for Timestamp {
    type Output = Timestamp;

    /// `t + span`: the point `span` later. The sum must fit in 128 bits.
    fn add(self, span: Duration) -> (later: Timestamp) {
        Timestamp { nanos: self.nanos + span.nanos as u128 }
    }
}

impl vstd::std_specs::ops::AddSpecImpl<Duration> for Timestamp {
    open spec fn obeys_add_spec() -> bool {
        true
    }

    open spec fn add_req(self, span: Duration) -> bool {
        self@ + span@ <= u128::MAX
    }

    open spec fn add_spec(self, span: Duration) -> Timestamp {
        Timestamp { nanos: (self@ + span@) as u128 }
    }
}

impl core::ops::Sub<Duration> for Timestamp {
    type Output = Timestamp;

    /// `t - span`: the point `span` earlier. It must not lie before the origin.
    fn sub(self, span: Duration) -> (earlier: Timestamp) {
        Timestamp { nanos: self.nanos - span.nanos as u128 }
    }
}

impl vstd::std_specs::ops::SubSpecImpl<Duration> for Timestamp {
    open spec fn obeys_sub_spec() -> bool {
        true
    }

    open spec fn sub_req(self, span: Duration) -> bool {
        self@ >= span@
    }

    open spec fn sub_spec(self, span: Duration) -> Timestamp {
        Timestamp { nanos: (self@ - span@) as u128 }
    }
}

impl core::ops::Mul<u32> for Duration {
    type Output = Duration;

    /// `span * n`: `n` spans on end. The product must fit in 64 bits.
    fn mul(self, n: u32) -> (product: Duration) {
        Duration { nanos: self.nanos * (n as u64) }
    }
}

impl vstd::std_specs::ops::MulSpecImpl<u32> for Duration {
    open spec fn obeys_mul_spec() -> bool {
        true
    }

    open spec fn mul_req(self, n: u32) -> bool {
        self@ * n <= u64::MAX
    }

    open spec fn mul_spec(self, n: u32) -> Duration {
        Duration { nanos: (self@ * n) as u64 }
    }
}

impl core::ops::Mul<Duration> for u32 {
    type Output = Duration;

    /// `n * span`: the same as `span * n`.
    fn mul(self, span: Duration) -> (product: Duration) {
        Duration { nanos: (self as u64) * span.nanos }
    }
}

impl vstd::std_specs::ops::MulSpecImpl<Duration> for u32 {
    open spec fn obeys_mul_spec() -> bool {
        true
    }

    open spec fn mul_req(self, span: Duration) -> bool {
        self * span@ <= u64::MAX
    }

    open spec fn mul_spec(self, span: Duration) -> Duration {
        Duration { nanos: (self * span@) as u64 }
    }
}

impl core::ops::Div<u32> for Duration {
    type Output = Duration;

    /// `span / n`: the `n`-th part of the span, rounded down. `n` is not zero.
    fn div(self, n: u32) -> (part: Duration) {
        Duration { nanos: self.nanos / (n as u64) }
    }
}

impl vstd::std_specs::ops::DivSpecImpl<u32> for Duration {
    open spec fn obeys_div_spec() -> bool {
        true
    }

    open spec fn div_req(self, n: u32) -> bool {
        n > 0
    }

    open spec fn div_spec(self, n: u32) -> Duration {
        Duration { nanos: (self@ / (n as nat)) as u64 }
    }
}

} // verus!

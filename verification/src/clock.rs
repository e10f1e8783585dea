//! Where "now" comes from.

use crate::time::{Timestamp, NANOS_PER_SEC};
use vstd::prelude::*;

verus! {

/// The latest point that a check takes for "now": 2^127 nanoseconds after
/// the clock's origin. It leaves room above it for every period.
pub const HORIZON_NANOS: u128 = 0x8000_0000_0000_0000_0000_0000_0000_0000;

/// Abstraction for getting time.
///
/// Readings of one clock are points on one scale. Nothing is asked of them:
/// a clock for tests may hand out any sequence. Whoever takes "now" from a
/// clock takes a reading past the horizon for the horizon (see
/// [`Timestamp::capped`]).
pub trait Clock {
    /// The current time. Unless a clock says otherwise, a reading of the
    /// system's monotonic clock.
    fn now(&self) -> Timestamp {
        let (secs, nanos) = monotonic_reading();
        Timestamp::from_reading(secs, nanos)
    }
}

/// The system's monotonic clock.
#[derive(Clone, Copy, Debug, PartialEq, Eq)]
pub struct InstantClock;

impl Clock for InstantClock {}

/// Reads the monotonic clock with `rustix::time::clock_gettime` and hands
/// back the two fields of the `Timespec`: seconds, then nanoseconds. Nothing
/// is claimed of the two numbers.
#[verifier::external_body]
fn monotonic_reading() -> (reading: (i64, i64)) {
    let spec = rustix::time::clock_gettime(rustix::time::ClockId::Monotonic);
    (i64::from(spec.tv_sec), i64::from(spec.tv_nsec))
}

/// The nanoseconds that a reading of `secs` seconds and `nanos` nanoseconds
/// stands for. A negative part counts as zero.
pub open spec fn reading_nanos(secs: int, nanos: int) -> nat {
    let whole: nat = if secs > 0 { secs as nat } else { 0 };
    let part: nat = if nanos > 0 { nanos as nat } else { 0 };
    whole * (NANOS_PER_SEC as nat) + part
}

impl Timestamp {
    /// This point, or the horizon where it lies past the horizon.
    pub fn capped(self) -> (capped: Timestamp)
        ensures
            capped@ <= HORIZON_NANOS,
            self@ <= HORIZON_NANOS ==> capped == self,
            self@ > HORIZON_NANOS ==> capped@ == HORIZON_NANOS,
    {
        if self.nanos <= HORIZON_NANOS {
            self
        } else {
            Timestamp { nanos: HORIZON_NANOS }
        }
    }

    /// The point that a clock reading of `secs` seconds and `nanos`
    /// nanoseconds stands for.
    pub fn from_reading(secs: i64, nanos: i64) -> (reading: Timestamp)
        ensures
            reading@ == reading_nanos(secs as int, nanos as int),
            reading@ < HORIZON_NANOS,
    {
        let whole: u128 = if secs > 0 { secs as u128 } else { 0 };
        let part: u128 = if nanos > 0 { nanos as u128 } else { 0 };
        assert(whole * (NANOS_PER_SEC as u128) + part < HORIZON_NANOS) by (nonlinear_arith)
            requires
                whole <= 0x7fff_ffff_ffff_ffff,
                part <= 0x7fff_ffff_ffff_ffff,
                NANOS_PER_SEC == 1_000_000_000,
                HORIZON_NANOS == 0x8000_0000_0000_0000_0000_0000_0000_0000,
        ;
        Timestamp { nanos: whole * (NANOS_PER_SEC as u128) + part }
    }
}

} // verus!

//! Admission control with the Generic Cell Rate Algorithm
//! ([GCRA](https://en.wikipedia.org/wiki/Generic_cell_rate_algorithm)).
//!
//! A [`RateLimit`] describes a budget of `resource_limit` units per `period`.
//! A [`GcraState`] is the whole per-key state: one optional theoretical
//! arrival time. Every decision is a function of that state, the limit, the
//! arrival time and the cost. It is specified over natural numbers of
//! nanoseconds in [`gcra`], and [`laws`] holds what follows from it.
//!
//! # Usage
//!
//! ```rust
//! use gcra::{GcraState, RateLimit};
//!
//! fn check_rate_limit() {
//!   const LIMIT: u32 = 1;
//!   // Create a rate limit that allows `1/1s`
//!   let rate_limit = RateLimit::per_sec(LIMIT);
//!
//!   let mut user_state = GcraState::default();
//!   assert!(user_state.check_and_modify(&rate_limit, 1).is_ok());
//!   assert!(
//!       user_state.check_and_modify(&rate_limit, 1).is_err(),
//!       "We should be over the limit now"
//!   );
//! }
//! ```
//!
//! # Time
//!
//! Time is counted in whole nanoseconds: a [`Timestamp`] is a point on the
//! scale of the [`Clock`] that produced it, a [`Duration`] a span. The
//! default clock, [`InstantClock`], reads the system's monotonic clock.
//!
//! # Keyed limiters
//!
//! [`RateLimitEntry`] is what a keyed store holds for one key, and
//! [`RateLimitEntry::check_at`] the unit of work that such a store runs on it
//! under exclusive access: it decides, refreshes the expiry, and says whether
//! the entry is to be committed. [`RateLimiterError`] keeps the store's
//! failures apart from the algorithm's denials.

pub mod clock;
pub mod gcra;
pub mod laws;
pub mod rate_limit;
pub mod rate_limit_guard;
pub mod rate_limiter;
pub mod time;

pub use crate::clock::{Clock, InstantClock};
pub use crate::gcra::{GcraError, GcraState};
pub use crate::rate_limit::RateLimit;
pub use crate::rate_limit_guard::RateLimitGuard;
pub use crate::rate_limiter::{Commit, RateLimitEntry, RateLimiterError};
pub use crate::time::{Duration, Timestamp};

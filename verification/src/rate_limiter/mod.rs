//! What a keyed, sharded limiter does with one key once the key's entry is
//! in hand: decide, refresh the expiry, and say whether to persist; and how
//! the outcome of the store and the decision become one result.

pub mod entry;
pub mod error;

pub use self::entry::{Commit, RateLimitEntry};
pub use self::error::RateLimiterError;

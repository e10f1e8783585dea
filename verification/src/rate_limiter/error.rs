//! The two kinds of failure of a keyed check.

use crate::gcra::GcraError;
use thingvellir::ShardError;
use vstd::prelude::*;

verus! {

/// The failure of the sharded store, as `thingvellir` reports it: a shard at
/// capacity, data that expired on arrival, an upstream error, or a shard
/// that is gone. The library carries it through and never looks inside.
#[verifier::external_type_specification]
#[verifier::external_body]
pub struct ExShardError(thingvellir::ShardError);

/// Why a keyed check did not admit the request: the algorithm said no, or
/// the store failed. The two are never mixed up.
#[derive(Debug)]
pub enum RateLimiterError {
    /// Rate limit decision: try again later, or never.
    GcraError(GcraError),
    /// Internal sharding error: the store could not serve the key.
    ShardError(ShardError),
}

impl From<GcraError> for RateLimiterError {
    fn from(denial: GcraError) -> (error: RateLimiterError) {
        RateLimiterError::GcraError(denial)
    }
}

impl vstd::std_specs::convert::FromSpecImpl<GcraError> for RateLimiterError {
    open spec fn obeys_from_spec() -> bool {
        true
    }

    open spec fn from_spec(denial: GcraError) -> RateLimiterError {
        RateLimiterError::GcraError(denial)
    }
}

impl From<ShardError> for RateLimiterError {
    fn from(failure: ShardError) -> (error: RateLimiterError) {
        RateLimiterError::ShardError(failure)
    }
}

impl vstd::std_specs::convert::FromSpecImpl<ShardError> for RateLimiterError {
    open spec fn obeys_from_spec() -> bool {
        true
    }

    open spec fn from_spec(failure: ShardError) -> RateLimiterError {
        RateLimiterError::ShardError(failure)
    }
}

impl RateLimiterError {
    /// The result of a keyed check, from what the store returned for the
    /// unit of work: the store's failure if it failed, else the denial if
    /// the request was denied, else success.
    pub fn settle(served: Result<Result<(), GcraError>, ShardError>) -> (result: Result<
        (),
        RateLimiterError,
    >)
        ensures
            match served {
                Err(failure) => result == Err::<(), RateLimiterError>(
                    RateLimiterError::ShardError(failure),
                ),
                Ok(Err(denial)) => result == Err::<(), RateLimiterError>(
                    RateLimiterError::GcraError(denial),
                ),
                Ok(Ok(_)) => result is Ok,
            },
    {
        match served {
            Err(failure) => Err(RateLimiterError::from(failure)),
            Ok(Err(denial)) => Err(RateLimiterError::from(denial)),
            Ok(Ok(_)) => Ok(()),
        }
    }
}

} // verus!

//! The errors that cross the library's boundaries.
//!
//! A failed completion request is a [`GatewayError`]. An agent turns it into
//! an [`ExecutionError`], possibly after trying again, and only that reaches
//! the manager: whoever starts a run never sees a gateway error as such.

use vstd::prelude::*;

verus! {

/// How a completion request can fail.
#[derive(Clone, Copy, PartialEq, Eq, Structural, Debug)]
pub enum GatewayError {
    /// No credential is configured, or it cannot be sent as a header.
    AuthenticationMissing,
    /// The service could not be reached or the connection broke.
    TransportFailure,
    /// The reply does not have the shape of a completion.
    MalformedResponse,
}

/// Why an invocation of an agent failed.
#[derive(Debug, PartialEq, Eq)]
pub enum ExecutionError {
    /// A completion request failed and the agent gave up on it.
    Gateway(GatewayError),
    /// The agent's own logic failed, for the reason given.
    Internal(String),
}

impl Clone for ExecutionError {
    fn clone(&self) -> (copy: ExecutionError)
        ensures
            copy == *self,
    {
        match self {
            ExecutionError::Gateway(error) => ExecutionError::Gateway(*error),
            ExecutionError::Internal(reason) => ExecutionError::Internal(reason.clone()),
        }
    }
}

impl From<GatewayError> for ExecutionError {
    fn from(error: GatewayError) -> (wrapped: ExecutionError) {
        ExecutionError::Gateway(error)
    }
}

impl vstd::std_specs::convert::FromSpecImpl<GatewayError> for ExecutionError {
    open spec fn obeys_from_spec() -> bool {
        true
    }

    open spec fn from_spec(error: GatewayError) -> ExecutionError {
        ExecutionError::Gateway(error)
    }
}

} // verus!

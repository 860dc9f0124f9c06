//! Why a request to a model fails.

use vstd::prelude::*;

verus! {

/// Why a request to a model fails. Facts that only pass through are kept as texts.
#[derive(Debug, PartialEq, Eq)]
pub enum CodexErr {
    InvalidRequest(String),
    UnexpectedStatus { status: u16, body: String },
    ContextWindowExceeded,
    UsageLimitReached(String),
    ServerOverloaded,
    InternalServerError,
    RetryLimit(String),
    TurnAborted,
    Interrupted,
    ToolCollision(String),
    /// The session cannot go on.
    Fatal(String),
    /// Any other failure.
    Other(String),
}

} // verus!

//! Data kinds and error reporting for the host-binding layer.
//!
//! The host runtime exchanges tagged values and keeps a "last error"
//! message per call. Here the error slot is explicit state handed from
//! step to step, never ambient mutable state, so every update is
//! visible in a contract.

use vstd::prelude::*;

verus! {

/// The kinds of value the host runtime can exchange.
#[derive(Clone, Copy, PartialEq, Eq, Structural, Debug)]
pub enum NaabRustValueType {
    Void,
    Int,
    Double,
    Bool,
    Str,
}

/// The error slot of the binding layer: the message of the last
/// recorded failure, if any.
pub struct ErrorState {
    pub last: Option<String>,
}

impl ErrorState {
    /// A fresh slot with no error recorded.
    pub fn new() -> (r: ErrorState)
        ensures
            r.last is None,
    {
        ErrorState { last: None }
    }
}

/// Records `msg` as the last error, replacing any earlier one.
pub fn set_last_error(state: &mut ErrorState, msg: String)
    ensures
        final(state).last == Some(msg),
{
    state.last = Some(msg);
}

} // verus!

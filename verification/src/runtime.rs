//! Structured errors that native hook handlers return as a failure state.
//! A runtime never crosses the host boundary as a fault: the dispatcher
//! reports its message through the host's own diagnostic facility and hands
//! the host an empty result instead.

use vstd::prelude::*;

verus! {

/// A hook-execution error: a human-readable message produced by a native
/// handler.
#[derive(Debug)]
pub struct Runtime {
    /// The error message.
    pub message: String,
}

impl Runtime {
    /// Creates a new runtime error with the given message.
    pub fn new(message: String) -> (r: Runtime)
        ensures
            r.message == message,
    {
        Runtime { message }
    }
}

/// The result a native hook handler produces: a tagged value on success, a
/// runtime error on failure.
pub type DMResult = Result<crate::value::Register, Runtime>;

} // verus!

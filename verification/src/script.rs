//! The scripting hook: what a script is told when a fetch that it asked for
//! is done.

use vstd::prelude::*;

verus! {

/// The name under which the fetch function is offered to scripts.
pub const FETCH: &'static str = "__fetch__";

/// The two arguments of the callback of a fetch: the error, then the
/// response. One of them is always absent.
pub open spec fn callback_arguments_of<R>(outcome: Result<R, String>) -> (Option<String>, Option<R>) {
    match outcome {
        Ok(response) => (None, Some(response)),
        Err(message) => (Some(message), None),
    }
}

/// Turns the outcome of a fetch into the arguments of the script's
/// callback, error first: a response goes with no error, a failure goes as
/// its message with no response.
pub fn callback_arguments<R>(outcome: Result<R, String>) -> (arguments: (Option<String>, Option<R>))
    ensures
        arguments == callback_arguments_of(outcome),
{
    match outcome {
        Ok(response) => (None, Some(response)),
        Err(message) => (Some(message), None),
    }
}

} // verus!

//! Toast notices: which action results raise one, and how long one stays.
use vstd::prelude::*;

verus! {

/// A short notice shown in a corner of the app.
#[derive(Clone, Debug, PartialEq, Eq)]
pub struct Toast(pub String);

/// How long a notice stays up, in milliseconds.
pub const TOAST_MILLIS: u32 = 500;

/// The notice after a server action: raised with `message` once the action
/// has a successful result (`Some(true)`); none while it has no result or
/// after it failed.
pub fn action_toast(outcome: Option<bool>, message: &str) -> (r: Option<Toast>)
    ensures
        outcome == Some(true) ==> (r matches Some(t) && t.0@ == message@),
        outcome != Some(true) ==> r is None,
{
    match outcome {
        Some(true) => Some(Toast(String::from_str(message))),
        _ => None,
    }
}

/// The delay after which the notice is cleared: the notice's lifetime while
/// one is shown, no delay otherwise.
pub fn toast_timeout(showing: bool) -> (r: u32)
    ensures
        r == (if showing {
            TOAST_MILLIS
        } else {
            0
        }),
{
    if showing {
        TOAST_MILLIS
    } else {
        0
    }
}

} // verus!

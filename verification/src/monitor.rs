//! Decisions of the kernel-event monitor.
//!
//! The monitor owns a notification socket and blocks, with an unbounded
//! timeout, until its descriptor is readable; it then drains exactly one
//! notification, discarding the content.  The blocking wait and the socket
//! live in the binary on a dedicated thread; this module fixes what each
//! wait outcome must lead to.

use vstd::prelude::*;

verus! {

/// What to do after the blocking wait returns.
#[derive(Clone, Copy, Debug, PartialEq, Eq, Structural)]
pub enum PollAction {
    /// No descriptor became ready.  With an unbounded timeout this should
    /// not occur; it is treated as a benign no-op, not an error.
    NothingReady,
    /// The descriptor is readable: perform exactly one read to drain the
    /// pending notification (its content is discarded), then report success.
    DrainOne,
    /// The wait primitive reported an error: fatal.
    Fail,
}

/// Classifies the number of ready descriptors the wait primitive reported.
pub fn classify_poll(ready: i32) -> (a: PollAction)
    ensures
        a == (if ready == 0 {
            PollAction::NothingReady
        } else if ready > 0 {
            PollAction::DrainOne
        } else {
            PollAction::Fail
        }),
{
    if ready == 0 {
        PollAction::NothingReady
    } else if ready > 0 {
        PollAction::DrainOne
    } else {
        PollAction::Fail
    }
}

} // verus!

//! Error classification at the reactor edge.
//!
//! The event loop meets the operating system in two places: the blocking
//! poll for readiness and the accept call that drains the listener backlog.
//! Each can fail, and the loop must react differently to the failure kinds.
//! These decisions are pure; the loop applies them to the error kind it got.

use vstd::prelude::*;

verus! {

/// The failure kinds the event loop distinguishes.  An interrupted system
/// call and an exhausted accept backlog are expected conditions; everything
/// else is grouped as `Other` and treated as unrecoverable.
#[derive(Clone, Copy, PartialEq, Eq, Structural, Debug)]
pub enum IoErrorKind {
    Interrupted,
    WouldBlock,
    Other,
}

/// What the loop does when the blocking poll fails.
#[derive(Clone, Copy, PartialEq, Eq, Structural, Debug)]
pub enum PollFailureAction {
    /// Retry the poll transparently; the caller never observes the failure.
    Retry,
    /// Propagate the failure to the top level of the process.
    Abort,
}

/// What the accept-drain does when an accept call fails.
#[derive(Clone, Copy, PartialEq, Eq, Structural, Debug)]
pub enum AcceptFailureAction {
    /// The backlog is empty: end the drain and return to polling.
    EndDrain,
    /// Propagate the failure and abort the loop.
    Abort,
}

/// A failed poll is retried exactly when the OS interrupted it; any other
/// failure is fatal and propagated.
pub fn poll_failure_action(kind: IoErrorKind) -> (action: PollFailureAction)
    ensures
        (action == PollFailureAction::Retry) <==> (kind == IoErrorKind::Interrupted),
        (action == PollFailureAction::Abort) <==> (kind != IoErrorKind::Interrupted),
{
    match kind {
        IoErrorKind::Interrupted => PollFailureAction::Retry,
        _ => PollFailureAction::Abort,
    }
}

/// A failed accept ends the drain exactly when the listener reports an empty
/// backlog; any other failure is fatal and propagated.
pub fn accept_failure_action(kind: IoErrorKind) -> (action: AcceptFailureAction)
    ensures
        (action == AcceptFailureAction::EndDrain) <==> (kind == IoErrorKind::WouldBlock),
        (action == AcceptFailureAction::Abort) <==> (kind != IoErrorKind::WouldBlock),
{
    match kind {
        IoErrorKind::WouldBlock => AcceptFailureAction::EndDrain,
        _ => AcceptFailureAction::Abort,
    }
}

} // verus!

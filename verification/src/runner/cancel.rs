//! Watching for the cancellation of a job.
use vstd::prelude::*;
use vstd::string::*;

use crate::text;

verus! {

/// How long to wait before asking again, in milliseconds.
pub const CANCEL_POLL_DELAY: u64 = 2000;

/// How long to wait after a failed attempt, in milliseconds.
pub const CANCEL_POLL_ERROR_DELAY: u64 = 5000;

/// What a message of the broker is about.
#[derive(Clone, Copy, Debug, PartialEq, Eq, Structural)]
pub enum MessageKind {
    JobRequest,
    JobCancellation,
    Control,
}

/// What a message is about, by its type.
pub open spec fn kind_of(message_type: Seq<char>) -> MessageKind {
    if message_type == "RunnerJobRequest"@ {
        MessageKind::JobRequest
    } else if message_type == "JobCancellation"@ {
        MessageKind::JobCancellation
    } else {
        MessageKind::Control
    }
}

pub fn message_kind(message_type: &str) -> (r: MessageKind)
    ensures
        r == kind_of(message_type@),
{
    if text::same(message_type, "RunnerJobRequest") {
        MessageKind::JobRequest
    } else if text::same(message_type, "JobCancellation") {
        MessageKind::JobCancellation
    } else {
        MessageKind::Control
    }
}

/// What came of asking for messages while a job runs.
#[derive(Clone, Copy, Debug, PartialEq, Eq, Structural)]
pub enum CancelEvent {
    /// The job is over, or was cancelled elsewhere.
    Over,
    Message(MessageKind),
    NoMessage,
    Failed,
}

/// What the watcher does next.
#[derive(Clone, Copy, Debug, PartialEq, Eq, Structural)]
pub enum CancelAction {
    /// Cancel the job and stop watching.
    CancelJob,
    Stop,
    /// Wait that many milliseconds, then ask again.
    Wait(u64),
}

pub open spec fn cancel_step(e: CancelEvent) -> CancelAction {
    match e {
        CancelEvent::Over => CancelAction::Stop,
        CancelEvent::Message(MessageKind::JobCancellation) => CancelAction::CancelJob,
        CancelEvent::Message(_) => CancelAction::Wait(CANCEL_POLL_DELAY),
        CancelEvent::NoMessage => CancelAction::Wait(CANCEL_POLL_DELAY),
        CancelEvent::Failed => CancelAction::Wait(CANCEL_POLL_ERROR_DELAY),
    }
}

/// Decide what the watcher does next.
pub fn next_cancel_action(e: CancelEvent) -> (r: CancelAction)
    ensures
        r == cancel_step(e),
{
    match e {
        CancelEvent::Over => CancelAction::Stop,
        CancelEvent::Message(MessageKind::JobCancellation) => CancelAction::CancelJob,
        CancelEvent::Message(_) => CancelAction::Wait(CANCEL_POLL_DELAY),
        CancelEvent::NoMessage => CancelAction::Wait(CANCEL_POLL_DELAY),
        CancelEvent::Failed => CancelAction::Wait(CANCEL_POLL_ERROR_DELAY),
    }
}

} // verus!

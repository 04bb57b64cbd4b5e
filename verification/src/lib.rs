//! Execution kernel of an interactive notebook.
//!
//! The kernel accepts code-execution requests, dispatches them to a REPL in
//! submission order, streams the REPL's output back to the caller, and
//! supports a global interrupt that cancels the running request together with
//! everything still queued behind it.  This crate holds the orchestration
//! logic itself: admission control, the bounded FIFO of work items, the
//! two-level cancellation protocol, and the per-request outcome labels.  The
//! asynchronous plumbing (channels, tasks, the REPL child process) lives
//! outside and drives these functions.

use vstd::prelude::*;

pub mod kernel;
pub mod message;
pub mod message_queue;
pub mod notebook;
pub mod parser;
pub mod repl;

verus! {

/// Identifier a caller attaches to an Execute request.  The kernel never
/// generates, reuses, or interprets it; it is echoed verbatim in the Response.
pub type MessageId = u32;

/// A request submitted through the kernel terminal.
#[derive(Debug)]
pub enum KernelRequest {
    Execute { message_id: MessageId, code: String },
    Interrupt,
}

/// The outcome reported for one accepted Execute request.
#[derive(Debug, Clone, Copy, PartialEq, Eq, Structural)]
pub enum KernelResponse {
    Success(MessageId),
    Failed(MessageId),
    Cancelled(MessageId),
}

impl KernelResponse {
    /// The message id this response echoes back.
    pub open spec fn spec_id(self) -> MessageId {
        match self {
            KernelResponse::Success(id) => id,
            KernelResponse::Failed(id) => id,
            KernelResponse::Cancelled(id) => id,
        }
    }

    /// Executable twin of [`Self::spec_id`].
    pub fn id(&self) -> (r: MessageId)
        ensures
            r == self.spec_id(),
    {
        match self {
            KernelResponse::Success(id) => *id,
            KernelResponse::Failed(id) => *id,
            KernelResponse::Cancelled(id) => *id,
        }
    }
}

} // verus!

//! A fault-tolerant actor runtime core: hierarchical supervision,
//! ordered mailboxes, round-robin dispatch and a stable path naming
//! scheme for actors.

pub mod actor;
pub mod ask;
pub mod broadcast;
pub mod children;
pub mod dispatcher;
pub mod mailbox;
pub mod path;
pub mod routing;
pub mod supervision;
pub mod system;

use vstd::prelude::*;

verus! {

/// Process-unique opaque identifier of an actor (128-bit value).
#[derive(Clone, Copy, PartialEq, Eq, Structural, Debug, Hash)]
pub struct ActorId {
    pub value: u128,
}

/// The error kinds that operations of the runtime surface to callers.
#[derive(Clone, Copy, PartialEq, Eq, Structural, Debug)]
pub enum ActorError {
    /// A bounded mailbox could not admit the message.
    MailboxFull,
    /// No live actor is reachable by the given path or name.
    NoSuchPath,
    /// The reply side of an ask was dropped without answering.
    AskCanceled,
    /// A child's behavior panicked; surfaced upward as a fault event.
    ChildPanicked,
    /// A child's behavior returned an error; surfaced upward as a fault event.
    ChildReturnedErr,
    /// Too many restarts of the same child within the sliding window.
    RestartBudgetExceeded,
    /// The actor has already received its final stop message.
    Stopped,
}

} // verus!


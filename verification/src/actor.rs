//! The child runtime's exit protocol.
//!
//! The runtime shell installs a panic boundary around a child's
//! behavior and drives it to completion; what is reported upward is
//! decided here. A clean return is reported as a death, an error
//! return or a panic as a fault, and the fault never surfaces as an
//! error in the child's own scope: a failing actor simply ends.

use vstd::prelude::*;

verus! {

use crate::{ActorError, ActorId};
use crate::mailbox::ControlMessage;

/// How a child's behavior ended.
#[derive(Clone, Copy, PartialEq, Eq, Structural, Debug)]
pub enum ChildOutcome {
    /// The behavior returned cleanly.
    Completed,
    /// The behavior returned an error.
    Failed,
    /// The behavior panicked; the runtime frame caught it.
    Panicked,
}

/// What a leaving child reports to its parent: a clean return emits a
/// death notice, an error return or a panic emits a fault report, and
/// the runtime frame itself ends cleanly either way so that the
/// parent can recover the child for a restart.
pub fn exit_report(id: ActorId, outcome: ChildOutcome) -> (r: ControlMessage)
    ensures
        outcome is Completed ==> r == (ControlMessage::Dead { id }),
        !(outcome is Completed) ==> r == (ControlMessage::Faulted { id }),
{
    match outcome {
        ChildOutcome::Completed => ControlMessage::Dead { id },
        ChildOutcome::Failed => ControlMessage::Faulted { id },
        ChildOutcome::Panicked => ControlMessage::Faulted { id },
    }
}

/// The error kind a supervisor records for a child's end, if any: a
/// panic and an error return are distinguished, and a clean return
/// records nothing.
pub fn exit_error(outcome: ChildOutcome) -> (r: Option<ActorError>)
    ensures
        outcome is Completed <==> r is None,
        outcome is Failed <==> r == Some(ActorError::ChildReturnedErr),
        outcome is Panicked <==> r == Some(ActorError::ChildPanicked),
{
    match outcome {
        ChildOutcome::Completed => None,
        ChildOutcome::Failed => Some(ActorError::ChildReturnedErr),
        ChildOutcome::Panicked => Some(ActorError::ChildPanicked),
    }
}

} // verus!

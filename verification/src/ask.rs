//! The ask–reply contract: a single-use one-shot reply channel.
//!
//! An ask creates a reply slot; the asked actor answers through it at
//! most once, and the asker awaits the answer. Dropping either end is
//! part of the contract: a replier that drops its handle without
//! answering cancels the ask, and an asker that drops its future
//! abandons the slot, after which no reply is ever observed.

use vstd::prelude::*;

verus! {

use crate::ActorError;

/// Names the reply slot an envelope carries for an ask.
#[derive(Clone, Copy, PartialEq, Eq, Structural, Debug)]
pub struct ReplyToken {
    pub slot: u64,
}

/// The state of one reply slot.
pub enum ReplyState {
    /// Both ends are alive and no answer was given yet.
    Waiting,
    /// The replier answered with this payload; the asker has not taken
    /// it yet.
    Answered(String),
    /// The replier dropped its handle without answering.
    Canceled,
    /// The asker dropped its future; any late answer is discarded.
    Abandoned,
    /// The asker took the answer; the slot is spent.
    Taken,
}

/// What can happen to a reply slot.
pub enum ReplyOp {
    /// The replier answers with a payload.
    Send(String),
    /// The replier drops its handle without answering.
    Cancel,
    /// The asker drops its future.
    Abandon,
    /// The asker polls for the answer.
    Take,
}

/// The transition relation of a reply slot: how one event moves it
/// from state to state.
pub open spec fn reply_step(s: ReplyState, op: ReplyOp) -> ReplyState {
    match op {
        ReplyOp::Send(body) => if s is Waiting {
            ReplyState::Answered(body)
        } else {
            s
        },
        ReplyOp::Cancel => if s is Waiting {
            ReplyState::Canceled
        } else {
            s
        },
        ReplyOp::Abandon => ReplyState::Abandoned,
        ReplyOp::Take => if s is Answered {
            ReplyState::Taken
        } else {
            s
        },
    }
}

/// The state a reply slot reaches from `s` after the whole run of
/// events `ops`, oldest first.
pub open spec fn reply_run(s: ReplyState, ops: Seq<ReplyOp>) -> ReplyState
    decreases ops.len(),
{
    if ops.len() == 0 {
        s
    } else {
        reply_run(reply_step(s, ops[0]), ops.drop_first())
    }
}

/// How many events of the run actually fire the slot: a send that
/// finds the slot still waiting.
pub open spec fn fires(s: ReplyState, ops: Seq<ReplyOp>) -> int
    decreases ops.len(),
{
    if ops.len() == 0 {
        0
    } else {
        (if s is Waiting && ops[0] is Send {
            1 as int
        } else {
            0 as int
        }) + fires(reply_step(s, ops[0]), ops.drop_first())
    }
}

/// A reply slot never returns to the waiting state: every transition
/// out of it is final.
pub proof fn lemma_waiting_never_returns(s: ReplyState, ops: Seq<ReplyOp>)
    requires
        !(s is Waiting),
    ensures
        !(reply_run(s, ops) is Waiting),
    decreases ops.len(),
{
    if ops.len() > 0 {
        lemma_waiting_never_returns(reply_step(s, ops[0]), ops.drop_first());
    }
}

/// A reply handle fires at most once: over any run of events from any
/// state, at most one send finds the slot waiting.
pub proof fn lemma_reply_fires_at_most_once(s: ReplyState, ops: Seq<ReplyOp>)
    ensures
        fires(s, ops) <= 1,
    decreases ops.len(),
{
    if ops.len() > 0 {
        let s1 = reply_step(s, ops[0]);
        if s is Waiting && ops[0] is Send {
            lemma_fires_none_after_waiting(s1, ops.drop_first());
        } else {
            lemma_reply_fires_at_most_once(s1, ops.drop_first());
        }
    }
}

proof fn lemma_fires_none_after_waiting(s: ReplyState, ops: Seq<ReplyOp>)
    requires
        !(s is Waiting),
    ensures
        fires(s, ops) == 0,
    decreases ops.len(),
{
    if ops.len() > 0 {
        lemma_waiting_never_returns(s, seq![ops[0]]);
        lemma_fires_none_after_waiting(reply_step(s, ops[0]), ops.drop_first());
    }
}

/// Once a slot leaves the waiting state other than by an answer, no
/// later run of events ever answers it: an abandoned or canceled ask
/// never observes a reply.
pub proof fn lemma_no_late_answer(s: ReplyState, ops: Seq<ReplyOp>)
    requires
        !(s is Waiting),
        !(s is Answered),
    ensures
        !(reply_run(s, ops) is Answered),
    decreases ops.len(),
{
    if ops.len() > 0 {
        lemma_no_late_answer(reply_step(s, ops[0]), ops.drop_first());
    }
}

/// One single-use reply slot.
pub struct ReplySlot {
    state: ReplyState,
}

impl ReplySlot {
    /// The current state of the slot.
    pub closed spec fn state(&self) -> ReplyState {
        self.state
    }

    /// A fresh slot, waiting for an answer.
    pub fn new() -> (r: Self)
        ensures
            r.state() is Waiting,
    {
        ReplySlot { state: ReplyState::Waiting }
    }

    /// The replier answers through the slot. The answer is accepted
    /// exactly when the slot is still waiting; on a spent, canceled or
    /// abandoned slot the answer is discarded and the send fails with
    /// [`ActorError::AskCanceled`].
    pub fn send(&mut self, body: String) -> (r: Result<(), ActorError>)
        ensures
            final(self).state() == reply_step(old(self).state(), ReplyOp::Send(body)),
            r is Ok <==> old(self).state() is Waiting,
            r is Err ==> r == Result::<(), ActorError>::Err(ActorError::AskCanceled),
    {
        let waiting = matches!(self.state, ReplyState::Waiting);
        if waiting {
            self.state = ReplyState::Answered(body);
            Ok(())
        } else {
            Err(ActorError::AskCanceled)
        }
    }

    /// The replier drops its handle without answering: a waiting slot
    /// becomes canceled, and the awaiter will observe
    /// [`ActorError::AskCanceled`]; any other slot is unchanged.
    pub fn cancel(&mut self)
        ensures
            final(self).state() == reply_step(old(self).state(), ReplyOp::Cancel),
    {
        let waiting = matches!(self.state, ReplyState::Waiting);
        if waiting {
            self.state = ReplyState::Canceled;
        }
    }

    /// The asker drops its future: the slot is abandoned, whatever its
    /// state, and any late answer is discarded silently.
    pub fn abandon(&mut self)
        ensures
            final(self).state() == reply_step(old(self).state(), ReplyOp::Abandon),
    {
        self.state = ReplyState::Abandoned;
    }

    /// The asker polls the slot. A waiting slot yields `None`, which
    /// stands for a suspension; an answered slot yields the payload
    /// and spends the slot; a canceled, abandoned or spent slot yields
    /// [`ActorError::AskCanceled`].
    pub fn take(&mut self) -> (r: Result<Option<String>, ActorError>)
        ensures
            final(self).state() == reply_step(old(self).state(), ReplyOp::Take),
            old(self).state() is Waiting ==> r is Ok && r->Ok_0 is None,
            old(self).state() matches ReplyState::Answered(body) ==> r is Ok && r->Ok_0 == Some(
                body,
            ),
            !(old(self).state() is Waiting) && !(old(self).state() is Answered) ==> r
                == Result::<Option<String>, ActorError>::Err(ActorError::AskCanceled),
    {
        match &self.state {
            ReplyState::Waiting => Ok(None),
            ReplyState::Answered(body) => {
                let b = body.clone();
                self.state = ReplyState::Taken;
                Ok(Some(b))
            },
            ReplyState::Canceled => Err(ActorError::AskCanceled),
            ReplyState::Abandoned => Err(ActorError::AskCanceled),
            ReplyState::Taken => Err(ActorError::AskCanceled),
        }
    }
}

} // verus!

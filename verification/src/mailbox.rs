//! Envelopes, control messages and the per-actor mailbox.
//!
//! A mailbox is a FIFO queue of control messages. It never drops a
//! message silently: a bounded mailbox that is full refuses the send
//! with [`ActorError::MailboxFull`], and a mailbox that has taken its
//! final stop message refuses every later send with
//! [`ActorError::Stopped`].

use vstd::prelude::*;
use vstd::seq_lib::*;

verus! {

use crate::{ActorError, ActorId};
use crate::ask::ReplyToken;

/// A user message: an optional sender, an opaque body and an optional
/// single-use reply channel for an ask.
pub struct Envelope {
    /// The actor the message originates from, when it has one.
    pub sender: Option<ActorId>,
    /// The payload; the runtime never inspects it.
    pub body: String,
    /// The reply slot of an ask, absent for a tell.
    pub reply: Option<ReplyToken>,
}

/// A message travelling through the broadcast fabric or a mailbox.
pub enum ControlMessage {
    /// A user message on its way down the tree.
    Deliver(Envelope),
    /// A child ended cleanly; reported upward by the leaving actor.
    Dead { id: ActorId },
    /// A child panicked or returned an error; reported upward.
    Faulted { id: ActorId },
    /// The final message of an orderly shutdown.
    Stop,
    /// The request to begin an orderly shutdown.
    PoisonPill,
}

/// True of the final message of an orderly shutdown.
pub open spec fn is_stop(m: ControlMessage) -> bool {
    m is Stop
}

/// True when no message of the sequence is the final stop message.
pub open spec fn no_stop(s: Seq<ControlMessage>) -> bool {
    forall|i: int| 0 <= i < s.len() ==> !is_stop(#[trigger] s[i])
}

/// True of a user message that originates from `sender`.
pub open spec fn from_sender(m: ControlMessage, sender: ActorId) -> bool {
    match m {
        ControlMessage::Deliver(env) => env.sender == Some(sender),
        _ => false,
    }
}

/// A per-actor FIFO queue of control messages.
pub struct Mailbox {
    queue: Vec<ControlMessage>,
    capacity: Option<usize>,
    closed: bool,
    observed_stop: bool,
    delivered: Ghost<Seq<ControlMessage>>,
}

impl Mailbox {
    /// The messages already handed to the actor, in delivery order.
    pub closed spec fn delivered(&self) -> Seq<ControlMessage> {
        self.delivered@
    }

    /// The messages admitted but not yet handed to the actor, in
    /// arrival order.
    pub closed spec fn pending(&self) -> Seq<ControlMessage> {
        self.queue@
    }

    /// Every message ever admitted, in arrival order.
    pub open spec fn sent(&self) -> Seq<ControlMessage> {
        self.delivered() + self.pending()
    }

    /// The bound of the mailbox; `None` for an unbounded one.
    pub closed spec fn capacity(&self) -> Option<usize> {
        self.capacity
    }

    /// True once the final stop message has been admitted.
    pub closed spec fn is_closed(&self) -> bool {
        self.closed
    }

    /// True once the actor has received the final stop message.
    pub closed spec fn stop_observed(&self) -> bool {
        self.observed_stop
    }

    /// The internal invariant: the bound is respected (the one final
    /// stop message may stand beyond it), the final stop message is
    /// admitted exactly once and last, and the observed flag matches
    /// the delivery record.
    pub closed spec fn wf(&self) -> bool {
        &&& match self.capacity {
            Some(c) => self.queue@.len() <= c + if self.closed {
                1 as int
            } else {
                0 as int
            },
            None => true,
        }
        &&& if self.closed {
            self.sent().len() > 0 && is_stop(self.sent().last()) && no_stop(
                self.sent().drop_last(),
            )
        } else {
            no_stop(self.sent())
        }
        &&& self.observed_stop == self.delivered@.contains(ControlMessage::Stop)
    }

    /// A fresh, open, empty mailbox with the given bound.
    pub fn new(capacity: Option<usize>) -> (r: Self)
        ensures
            r.wf(),
            r.delivered() =~= Seq::<ControlMessage>::empty(),
            r.pending() =~= Seq::<ControlMessage>::empty(),
            r.capacity() == capacity,
            !r.is_closed(),
            !r.stop_observed(),
    {
        let r = Mailbox {
            queue: Vec::new(),
            capacity,
            closed: false,
            observed_stop: false,
            delivered: Ghost(Seq::empty()),
        };
        proof {
            assert(!r.delivered@.contains(ControlMessage::Stop));
        }
        r
    }

    /// Admits one message at the tail of the queue. Fails with
    /// [`ActorError::Stopped`] once the mailbox is closed, and with
    /// [`ActorError::MailboxFull`] when a bounded mailbox is at its
    /// bound; in both cases the mailbox is unchanged. The final stop
    /// message is admitted through [`Mailbox::stop`] alone.
    pub fn push(&mut self, m: ControlMessage) -> (r: Result<(), ActorError>)
        requires
            old(self).wf(),
            !is_stop(m),
        ensures
            final(self).wf(),
            final(self).capacity() == old(self).capacity(),
            final(self).is_closed() == old(self).is_closed(),
            final(self).delivered() =~= old(self).delivered(),
            old(self).is_closed() ==> r == Result::<(), ActorError>::Err(ActorError::Stopped)
                && final(self).pending() =~= old(self).pending(),
            !old(self).is_closed() && (match old(self).capacity() {
                Some(c) => old(self).pending().len() >= c,
                None => false,
            }) ==> r == Result::<(), ActorError>::Err(ActorError::MailboxFull) && final(self).pending() =~= old(self).pending(),
            !old(self).is_closed() && (match old(self).capacity() {
                Some(c) => old(self).pending().len() < c,
                None => true,
            }) ==> r is Ok && final(self).pending() =~= old(self).pending().push(m),
    {
        if self.closed {
            return Err(ActorError::Stopped);
        }
        let full = match self.capacity {
            Some(c) => self.queue.len() >= c,
            None => false,
        };
        if full {
            return Err(ActorError::MailboxFull);
        }
        self.queue.push(m);
        proof {
            assert(self.sent() =~= old(self).sent().push(m));
            assert(no_stop(self.sent()));
        }
        Ok(())
    }

    /// Sends a plain message: wraps the body in an envelope without a
    /// reply channel and admits it, with the same outcome as
    /// [`Mailbox::push`]. The sender never blocks beyond queue
    /// admission.
    pub fn tell(&mut self, sender: Option<ActorId>, body: String) -> (r: Result<(), ActorError>)
        requires
            old(self).wf(),
        ensures
            final(self).wf(),
            final(self).capacity() == old(self).capacity(),
            final(self).is_closed() == old(self).is_closed(),
            final(self).delivered() =~= old(self).delivered(),
            old(self).is_closed() ==> r == Result::<(), ActorError>::Err(ActorError::Stopped)
                && final(self).pending() =~= old(self).pending(),
            !old(self).is_closed() && (match old(self).capacity() {
                Some(c) => old(self).pending().len() >= c,
                None => false,
            }) ==> r == Result::<(), ActorError>::Err(ActorError::MailboxFull) && final(self).pending() =~= old(self).pending(),
            !old(self).is_closed() && (match old(self).capacity() {
                Some(c) => old(self).pending().len() < c,
                None => true,
            }) ==> r is Ok && final(self).pending().drop_last() =~= old(self).pending()
                && final(self).pending().len() == old(self).pending().len() + 1 && (final(self).pending().last() matches ControlMessage::Deliver(env) && env.sender == sender
                && env.body@ == body@ && env.reply is None),
    {
        self.push(ControlMessage::Deliver(Envelope { sender, body, reply: None }))
    }

    /// Starts an ask: wraps the body in an envelope carrying the
    /// reply token of a fresh reply slot and admits it, with the same
    /// outcome as [`Mailbox::push`]. The asker then awaits the slot.
    pub fn ask(
        &mut self,
        sender: Option<ActorId>,
        body: String,
        reply: ReplyToken,
    ) -> (r: Result<(), ActorError>)
        requires
            old(self).wf(),
        ensures
            final(self).wf(),
            final(self).capacity() == old(self).capacity(),
            final(self).is_closed() == old(self).is_closed(),
            final(self).delivered() =~= old(self).delivered(),
            old(self).is_closed() ==> r == Result::<(), ActorError>::Err(ActorError::Stopped)
                && final(self).pending() =~= old(self).pending(),
            !old(self).is_closed() && (match old(self).capacity() {
                Some(c) => old(self).pending().len() >= c,
                None => false,
            }) ==> r == Result::<(), ActorError>::Err(ActorError::MailboxFull) && final(self).pending() =~= old(self).pending(),
            !old(self).is_closed() && (match old(self).capacity() {
                Some(c) => old(self).pending().len() < c,
                None => true,
            }) ==> r is Ok && final(self).pending().drop_last() =~= old(self).pending()
                && final(self).pending().len() == old(self).pending().len() + 1 && (final(self).pending().last() matches ControlMessage::Deliver(env) && env.sender == sender
                && env.body@ == body@ && env.reply == Some(reply)),
    {
        self.push(ControlMessage::Deliver(Envelope { sender, body, reply: Some(reply) }))
    }

    /// Closes the mailbox for an orderly shutdown: admits the one
    /// final stop message, after which every send is refused. Closing
    /// an already closed mailbox changes nothing.
    pub fn stop(&mut self)
        requires
            old(self).wf(),
        ensures
            final(self).wf(),
            final(self).capacity() == old(self).capacity(),
            final(self).is_closed(),
            final(self).delivered() =~= old(self).delivered(),
            old(self).is_closed() ==> final(self).pending() =~= old(self).pending(),
            !old(self).is_closed() ==> final(self).pending() =~= old(self).pending().push(
                ControlMessage::Stop,
            ),
    {
        if !self.closed {
            self.queue.push(ControlMessage::Stop);
            self.closed = true;
            proof {
                assert(self.sent() =~= old(self).sent().push(ControlMessage::Stop));
                assert(self.sent().drop_last() =~= old(self).sent());
            }
        }
    }

    /// Hands the next message to the actor. After the actor has
    /// received its final stop message the result is
    /// [`ActorError::Stopped`]; an empty open mailbox yields `None`,
    /// which stands for a suspension until a message arrives.
    pub fn recv(&mut self) -> (r: Result<Option<ControlMessage>, ActorError>)
        requires
            old(self).wf(),
        ensures
            final(self).wf(),
            final(self).capacity() == old(self).capacity(),
            final(self).is_closed() == old(self).is_closed(),
            old(self).stop_observed() ==> r == Result::<
                Option<ControlMessage>,
                ActorError,
            >::Err(ActorError::Stopped) && final(self).delivered() =~= old(self).delivered()
                && final(self).pending() =~= old(self).pending(),
            !old(self).stop_observed() && old(self).pending().len() == 0 ==> r is Ok
                && r->Ok_0 is None && final(self).delivered() =~= old(self).delivered() && final(self).pending() =~= old(self).pending(),
            !old(self).stop_observed() && old(self).pending().len() > 0 ==> r is Ok && r->Ok_0
                == Some(old(self).pending()[0]) && final(self).delivered() =~= old(self).delivered().push(old(self).pending()[0]) && final(self).pending() =~= old(self).pending().drop_first(),
    {
        if self.observed_stop {
            return Err(ActorError::Stopped);
        }
        if self.queue.len() == 0 {
            return Ok(None);
        }
        let m = self.queue.remove(0);
        let got_stop = matches!(m, ControlMessage::Stop);
        if got_stop {
            self.observed_stop = true;
        }
        proof {
            self.delivered@ = self.delivered@.push(m);
            assert(old(self).pending()[0] == m);
            assert(self.sent() =~= old(self).sent());
            if got_stop {
                assert(self.delivered@[self.delivered@.len() - 1] == m);
                assert(m == ControlMessage::Stop);
                assert(self.delivered@.contains(ControlMessage::Stop));
            } else {
                assert forall|i: int|
                    0 <= i < self.delivered@.len() implies self.delivered@[i]
                    != ControlMessage::Stop by {
                    if i < old(self).delivered@.len() {
                        assert(!old(self).delivered@.contains(ControlMessage::Stop));
                        assert(old(self).delivered@[i] == self.delivered@[i]);
                    }
                }
            }
        }
        Ok(Some(m))
    }
}

/// Message FIFO: what the actor has observed from any one sender is a
/// prefix of that sender's send order. The mailbox preserves arrival
/// order, so the delivered subsequence from `sender` is a prefix of the
/// admitted subsequence from `sender`.
pub proof fn lemma_fifo_per_sender(m: Mailbox, sender: ActorId)
    requires
        m.wf(),
    ensures
        m.delivered().filter(|c: ControlMessage| from_sender(c, sender)).is_prefix_of(
            m.sent().filter(|c: ControlMessage| from_sender(c, sender)),
        ),
{
    let pred = |c: ControlMessage| from_sender(c, sender);
    Seq::<ControlMessage>::filter_distributes_over_add(m.delivered(), m.pending(), pred);
    assert(m.sent().filter(pred) =~= m.delivered().filter(pred) + m.pending().filter(pred));
    assert(m.sent().filter(pred).take(m.delivered().filter(pred).len() as int) =~= m.delivered()
        .filter(pred));
}

/// Orderly stop: a closed mailbox has admitted exactly one final stop
/// message, it stands last, and no other admitted message is a stop.
pub proof fn lemma_single_final_stop(m: Mailbox)
    requires
        m.wf(),
        m.is_closed(),
    ensures
        m.sent().len() > 0,
        is_stop(m.sent().last()),
        no_stop(m.sent().drop_last()),
{
}

/// Orderly stop: once the actor has observed the final stop message,
/// nothing is pending; no delivery follows the stop.
pub proof fn lemma_stop_is_final(m: Mailbox)
    requires
        m.wf(),
        m.stop_observed(),
    ensures
        m.pending().len() == 0,
        m.delivered().len() > 0,
        is_stop(m.delivered().last()),
{
    let i = choose|i: int|
        0 <= i < m.delivered().len() && m.delivered()[i] == ControlMessage::Stop;
    assert(m.sent()[i] == m.delivered()[i]);
    if !m.is_closed() {
        assert(!is_stop(m.sent()[i]));
        assert(false);
    }
    if i < m.sent().len() - 1 {
        assert(m.sent().drop_last()[i] == m.sent()[i]);
        assert(false);
    }
    assert(i == m.sent().len() - 1);
    assert(m.delivered().len() == m.sent().len());
    assert(m.pending().len() == 0);
}

} // verus!

//! The broadcast fabric: one node per actor of the supervision tree.
//!
//! A node owns an inbound queue of control messages, the set of child
//! edges it fans messages out to, and an optional parent edge for
//! upward fault reports. Broadcast edges form the same tree as
//! supervision edges: a child edge is attached at launch and detached
//! when the child leaves, and detaching is idempotent.

use vstd::prelude::*;

verus! {

use crate::ActorId;
use crate::ActorError;
use crate::mailbox::{ControlMessage, Mailbox, is_stop};

/// One node of the broadcast tree.
pub struct BroadcastNode {
    children: Vec<ActorId>,
    inbound: Mailbox,
    parent: Option<ActorId>,
}

impl BroadcastNode {
    /// The attached child edges, in insertion order.
    pub closed spec fn children(&self) -> Seq<ActorId> {
        self.children@
    }

    /// The inbound queue of this node.
    pub closed spec fn inbound(&self) -> Mailbox {
        self.inbound
    }

    /// The parent edge, absent at the root.
    pub closed spec fn parent(&self) -> Option<ActorId> {
        self.parent
    }

    /// The internal invariant: no child edge is attached twice, and
    /// the inbound queue is sound.
    pub closed spec fn wf(&self) -> bool {
        &&& forall|i: int, j: int|
            0 <= i < j < self.children@.len() ==> self.children@[i] != self.children@[j]
        &&& self.inbound.wf()
        &&& self.inbound.capacity() is None
    }

    /// A fresh node with no child edge and an unbounded inbound queue.
    pub fn new(parent: Option<ActorId>) -> (r: Self)
        ensures
            r.wf(),
            r.children() =~= Seq::<ActorId>::empty(),
            r.parent() == parent,
            !r.inbound().is_closed(),
            r.inbound().pending().len() == 0,
    {
        BroadcastNode { children: Vec::new(), inbound: Mailbox::new(None), parent }
    }

    /// Attaches a child edge at the tail; an edge that is already
    /// attached is refused.
    pub fn add_child(&mut self, id: ActorId) -> (added: bool)
        requires
            old(self).wf(),
        ensures
            final(self).wf(),
            final(self).parent() == old(self).parent(),
            final(self).inbound() == old(self).inbound(),
            added <==> !old(self).children().contains(id),
            added ==> final(self).children() =~= old(self).children().push(id),
            !added ==> final(self).children() =~= old(self).children(),
    {
        let n = self.children.len();
        let mut i: usize = 0;
        while i < n
            invariant
                i <= n,
                n == self.children@.len(),
                *self == *old(self),
                old(self).wf(),
                forall|j: int| 0 <= j < i ==> self.children@[j] != id,
            decreases n - i,
        {
            if self.children[i] == id {
                proof {
                    assert(old(self).children()[i as int] == id);
                }
                return false;
            }
            i = i + 1;
        }
        self.children.push(id);
        true
    }

    /// Detaches a child edge without touching the child actor itself;
    /// detaching an absent edge changes nothing, so the operation is
    /// idempotent.
    pub fn remove_child(&mut self, id: ActorId) -> (removed: bool)
        requires
            old(self).wf(),
        ensures
            final(self).wf(),
            final(self).parent() == old(self).parent(),
            final(self).inbound() == old(self).inbound(),
            removed <==> old(self).children().contains(id),
            !final(self).children().contains(id),
            forall|x: ActorId|
                x != id ==> (final(self).children().contains(x) <==> old(
                    self,
                ).children().contains(x)),
    {
        let n = self.children.len();
        let mut i: usize = 0;
        while i < n
            invariant
                i <= n,
                n == self.children@.len(),
                *self == *old(self),
                old(self).wf(),
                forall|j: int| 0 <= j < i ==> self.children@[j] != id,
            decreases n - i,
        {
            if self.children[i] == id {
                let ghost pre = self.children@;
                self.children.remove(i);
                proof {
                    pre.remove_ensures(i as int);
                    assert forall|a: int, b: int|
                        0 <= a < b < self.children@.len() implies self.children@[a]
                        != self.children@[b] by {
                        assert(self.children@[a] == if a < i {
                            pre[a]
                        } else {
                            pre[a + 1]
                        });
                        assert(self.children@[b] == if b < i {
                            pre[b]
                        } else {
                            pre[b + 1]
                        });
                    }
                    assert forall|j: int|
                        0 <= j < self.children@.len() implies self.children@[j] != id by {
                        assert(self.children@[j] == if j < i {
                            pre[j]
                        } else {
                            pre[j + 1]
                        });
                    }
                    assert(!self.children@.contains(id));
                    assert forall|x: ActorId| x != id && pre.contains(x) implies self.children@
                        .contains(x) by {
                        let j = choose|j: int| 0 <= j < pre.len() && pre[j] == x;
                        if j < i {
                            assert(self.children@[j] == x);
                        } else {
                            assert(self.children@[j - 1] == x);
                        }
                    }
                    assert forall|x: ActorId| self.children@.contains(x) implies pre.contains(
                        x,
                    ) by {
                        let j = choose|j: int|
                            0 <= j < self.children@.len() && self.children@[j] == x;
                        if j < i {
                            assert(pre[j] == x);
                        } else {
                            assert(pre[j + 1] == x);
                        }
                    }
                    assert(pre.contains(id)) by {
                        assert(pre[i as int] == id);
                    }
                }
                return true;
            }
            i = i + 1;
        }
        proof {
            if old(self).children().contains(id) {
                let j = choose|j: int|
                    0 <= j < old(self).children().len() && old(self).children()[j] == id;
                assert(self.children@[j] != id);
            }
        }
        false
    }

    /// Fans one message out: every currently attached child edge
    /// receives a clone. The recipients are returned in insertion
    /// order, though the order is not observable to the children.
    pub fn send_children(&self) -> (r: Vec<ActorId>)
        requires
            self.wf(),
        ensures
            r@ =~= self.children(),
    {
        let n = self.children.len();
        let mut out: Vec<ActorId> = Vec::new();
        let mut i: usize = 0;
        while i < n
            invariant
                i <= n,
                n == self.children@.len(),
                out@ =~= self.children@.take(i as int),
            decreases n - i,
        {
            out.push(self.children[i]);
            proof {
                assert(out@ =~= self.children@.take(i as int + 1));
            }
            i = i + 1;
        }
        proof {
            assert(self.children@.take(n as int) =~= self.children@);
        }
        out
    }

    /// The non-blocking upward report: who the parent edge reaches,
    /// or nothing at the root.
    pub fn send_parent(&self) -> (r: Option<ActorId>)
        ensures
            r == self.parent(),
    {
        self.parent
    }

    /// Admits one inbound message, with the mailbox's outcome.
    pub fn push_inbound(&mut self, m: ControlMessage) -> (r: Result<(), ActorError>)
        requires
            old(self).wf(),
            !is_stop(m),
        ensures
            final(self).wf(),
            final(self).children() =~= old(self).children(),
            final(self).parent() == old(self).parent(),
            old(self).inbound().is_closed() ==> r == Result::<(), ActorError>::Err(
                ActorError::Stopped,
            ),
            !old(self).inbound().is_closed() ==> r is Ok && final(self).inbound().pending() =~= old(
                self,
            ).inbound().pending().push(m),
    {
        self.inbound.push(m)
    }

    /// Receives the next inbound control message; an empty queue
    /// stands for a suspension until one arrives.
    pub fn next(&mut self) -> (r: Result<Option<ControlMessage>, ActorError>)
        requires
            old(self).wf(),
        ensures
            final(self).wf(),
            final(self).children() =~= old(self).children(),
            final(self).parent() == old(self).parent(),
            !old(self).inbound().stop_observed() && old(self).inbound().pending().len() == 0
                ==> r is Ok && r->Ok_0 is None,
            !old(self).inbound().stop_observed() && old(self).inbound().pending().len() > 0 ==> r
                is Ok && r->Ok_0 == Some(old(self).inbound().pending()[0]),
            old(self).inbound().stop_observed() ==> r == Result::<
                Option<ControlMessage>,
                ActorError,
            >::Err(ActorError::Stopped),
    {
        self.inbound.recv()
    }
}

} // verus!

//! Children groups: a set of identical actors sharing one spawn
//! recipe, a redundancy count and an optional dispatcher.
//!
//! The recipe itself is an asynchronous behavior the runtime shell
//! owns; the core keeps the group's accounting: how many members the
//! group owes the tree, and how many a supervisor must respawn after
//! faults to restore the public member count.

use vstd::prelude::*;

verus! {

use crate::dispatcher::{Dispatcher, DispatcherKind};

/// The build-time description of a children group.
pub struct ChildrenSpec {
    redundancy: usize,
    dispatcher: Option<DispatcherKind>,
}

impl ChildrenSpec {
    /// The number of identical members the group launches.
    pub closed spec fn redundancy(&self) -> usize {
        self.redundancy
    }

    /// The routing policy of the group, if one was chosen.
    pub closed spec fn dispatcher(&self) -> Option<DispatcherKind> {
        self.dispatcher
    }

    /// A fresh description: one member, no dispatcher.
    pub fn new() -> (r: Self)
        ensures
            r.redundancy() == 1,
            r.dispatcher() is None,
    {
        ChildrenSpec { redundancy: 1, dispatcher: None }
    }

    /// Chooses how many identical members the group launches.
    pub fn with_redundancy(self, redundancy: usize) -> (r: Self)
        ensures
            r.redundancy() == redundancy,
            r.dispatcher() == self.dispatcher(),
    {
        ChildrenSpec { redundancy, dispatcher: self.dispatcher }
    }

    /// Attaches a dispatcher to the group.
    pub fn with_dispatcher(self, dispatcher: DispatcherKind) -> (r: Self)
        ensures
            r.redundancy() == self.redundancy(),
            r.dispatcher() == Some(dispatcher),
    {
        ChildrenSpec { redundancy: self.redundancy, dispatcher: Some(dispatcher) }
    }

    /// Turns the description into an empty group, ready to be filled
    /// with one member per unit of redundancy. A group built without a
    /// dispatcher broadcasts to all members.
    pub fn build(self) -> (r: ChildrenGroup)
        ensures
            r.wf(),
            r.redundancy() == self.redundancy(),
            r.members().members().len() == 0,
    {
        let kind = match self.dispatcher {
            Some(k) => k,
            None => DispatcherKind::Default,
        };
        ChildrenGroup { redundancy: self.redundancy, members: Dispatcher::new(kind) }
    }
}

/// A launched children group: its redundancy and its current members.
pub struct ChildrenGroup {
    redundancy: usize,
    members: Dispatcher,
}

impl ChildrenGroup {
    /// The number of members the group owes the tree.
    pub closed spec fn redundancy(&self) -> usize {
        self.redundancy
    }

    /// The current members, behind the group's dispatcher.
    pub closed spec fn members(&self) -> Dispatcher {
        self.members
    }

    /// The group's invariant is its dispatcher's.
    pub open spec fn wf(&self) -> bool {
        self.members().wf()
    }

    /// Attaches one freshly spawned member at the tail.
    pub fn attach(&mut self, id: crate::ActorId) -> (added: bool)
        requires
            old(self).wf(),
        ensures
            final(self).wf(),
            final(self).redundancy() == old(self).redundancy(),
            added <==> !old(self).members().members().contains(id),
            added ==> final(self).members().members() =~= old(self).members().members().push(id),
            !added ==> final(self).members().members() =~= old(self).members().members(),
    {
        self.members.add_member(id)
    }

    /// Detaches a faulted or finished member.
    pub fn detach(&mut self, id: crate::ActorId) -> (removed: bool)
        requires
            old(self).wf(),
        ensures
            final(self).wf(),
            final(self).redundancy() == old(self).redundancy(),
            removed <==> old(self).members().members().contains(id),
            !final(self).members().members().contains(id),
    {
        self.members.remove_member(id)
    }

    /// Accepts one message through the group's dispatcher, with the
    /// dispatcher's exact outcome: nobody to deliver to fails with
    /// [`crate::ActorError::NoSuchPath`], a round-robin group selects
    /// the member at the counter and advances it once, and any other
    /// group broadcasts to all members.
    pub fn dispatch(&mut self) -> (r: Result<
        crate::dispatcher::DispatchDecision,
        crate::ActorError,
    >)
        requires
            old(self).wf(),
        ensures
            final(self).wf(),
            final(self).redundancy() == old(self).redundancy(),
            final(self).members().members() =~= old(self).members().members(),
            final(self).members().kind() == old(self).members().kind(),
            old(self).members().members().len() == 0 ==> r == Result::<
                crate::dispatcher::DispatchDecision,
                crate::ActorError,
            >::Err(crate::ActorError::NoSuchPath) && final(self).members().counter() == old(self).members().counter(),
            old(self).members().members().len() > 0 && old(self).members().is_round_robin()
                ==> r == Result::<
                crate::dispatcher::DispatchDecision,
                crate::ActorError,
            >::Ok(
                crate::dispatcher::DispatchDecision::One(
                    old(self).members().members()[old(self).members().counter()],
                ),
            ) && final(self).members().counter() == crate::dispatcher::rr_next(
                old(self).members().counter(),
                old(self).members().members().len() as int,
            ),
            old(self).members().members().len() > 0 && !old(self).members().is_round_robin()
                ==> r == Result::<
                crate::dispatcher::DispatchDecision,
                crate::ActorError,
            >::Ok(crate::dispatcher::DispatchDecision::All) && final(self).members().counter()
                == old(self).members().counter(),
    {
        self.members.dispatch()
    }

    /// How many members a supervisor must respawn to restore the
    /// public member count to the group's redundancy.
    pub fn shortfall(&self) -> (r: usize)
        requires
            self.wf(),
        ensures
            self.members().members().len() >= self.redundancy() ==> r == 0,
            self.members().members().len() < self.redundancy() ==> r == self.redundancy()
                - self.members().members().len(),
    {
        let have = self.members.member_count();
        if have >= self.redundancy {
            0
        } else {
            self.redundancy - have
        }
    }
}

} // verus!

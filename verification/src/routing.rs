//! The routing table: which live actor a path reaches.
//!
//! A path reaches at most one live actor at any instant; a path whose
//! scope is the dead-letter sink reaches none, and resolving it fails
//! with [`ActorError::NoSuchPath`].

use vstd::prelude::*;

verus! {

use crate::{ActorError, ActorId};
use crate::path::{ActorPath, ActorScope, PathModel};

/// One live actor and the path it is reachable by.
pub struct RouteEntry {
    /// The path the actor is reachable by.
    pub path: ActorPath,
    /// The live actor behind the path.
    pub id: ActorId,
}

/// The table of live actors keyed by their paths.
pub struct RouteTable {
    entries: Vec<RouteEntry>,
}

impl RouteTable {
    /// The live entries, in registration order.
    pub closed spec fn entries(&self) -> Seq<RouteEntry> {
        self.entries@
    }

    /// True when some live actor is reachable by the path.
    pub open spec fn routes(&self, p: PathModel) -> bool {
        exists|i: int| 0 <= i < self.entries().len() && self.entries()[i].path@ == p
    }

    /// The live actor reachable by a path.
    pub open spec fn actor_at(&self, p: PathModel) -> ActorId {
        self.entries()[choose|i: int|
            0 <= i < self.entries().len() && self.entries()[i].path@ == p].id
    }

    /// The internal invariant: no two live entries share a path, and
    /// no entry lives in the dead-letter scope.
    pub closed spec fn wf(&self) -> bool {
        &&& forall|i: int, j: int|
            0 <= i < j < self.entries@.len() ==> self.entries@[i].path@ != self.entries@[j].path@
        &&& forall|i: int|
            0 <= i < self.entries@.len() ==> (#[trigger] self.entries@[i].path@).scope
                != ActorScope::DeadLetter
    }

    /// An empty table.
    pub fn new() -> (r: Self)
        ensures
            r.wf(),
            r.entries() =~= Seq::<RouteEntry>::empty(),
    {
        RouteTable { entries: Vec::new() }
    }

    /// Makes a live actor reachable by a path. Refuses a path that
    /// already reaches a live actor — a path reaches at most one — and
    /// a path in the dead-letter scope, which reaches none.
    pub fn register(&mut self, path: ActorPath, id: ActorId) -> (added: bool)
        requires
            old(self).wf(),
        ensures
            final(self).wf(),
            added <==> (!old(self).routes(path@) && path@.scope != ActorScope::DeadLetter),
            added ==> final(self).routes(path@) && final(self).actor_at(path@) == id && final(self).entries().len() == old(self).entries().len() + 1,
            !added ==> final(self).entries() =~= old(self).entries(),
            forall|q: PathModel|
                q != path@ ==> (final(self).routes(q) <==> old(self).routes(q)),
    {
        let dead_letter = matches!(path.scope_of(), ActorScope::DeadLetter);
        if dead_letter {
            return false;
        }
        let n = self.entries.len();
        let mut i: usize = 0;
        while i < n
            invariant
                i <= n,
                n == self.entries@.len(),
                *self == *old(self),
                old(self).wf(),
                forall|j: int| 0 <= j < i ==> self.entries@[j].path@ != path@,
            decreases n - i,
        {
            if self.entries[i].path == path {
                proof {
                    assert(old(self).entries()[i as int].path@ == path@);
                }
                return false;
            }
            i = i + 1;
        }
        self.entries.push(RouteEntry { path, id });
        proof {
            let m = self.entries().len() - 1;
            assert(self.entries()[m].path@ == path@);
            assert forall|q: PathModel| q != path@ && old(self).routes(q) implies self.routes(
                q,
            ) by {
                let j = choose|j: int|
                    0 <= j < old(self).entries().len() && old(self).entries()[j].path@ == q;
                assert(self.entries()[j].path@ == q);
            }
            assert forall|q: PathModel| q != path@ && self.routes(q) implies old(self).routes(
                q,
            ) by {
                let j = choose|j: int|
                    0 <= j < self.entries().len() && self.entries()[j].path@ == q;
                assert(j < m);
                assert(old(self).entries()[j].path@ == q);
            }
        }
        true
    }

    /// Resolves a path to the live actor it reaches. A path in the
    /// dead-letter scope, or one that no live actor is registered
    /// under, fails with [`ActorError::NoSuchPath`] and has no other
    /// effect.
    pub fn resolve(&self, path: &ActorPath) -> (r: Result<ActorId, ActorError>)
        requires
            self.wf(),
        ensures
            r is Ok <==> self.routes(path@),
            self.routes(path@) ==> r == Result::<ActorId, ActorError>::Ok(
                self.actor_at(path@),
            ),
            !self.routes(path@) ==> r == Result::<ActorId, ActorError>::Err(
                ActorError::NoSuchPath,
            ),
            path@.scope == ActorScope::DeadLetter ==> r == Result::<ActorId, ActorError>::Err(
                ActorError::NoSuchPath,
            ),
    {
        let n = self.entries.len();
        let mut i: usize = 0;
        while i < n
            invariant
                i <= n,
                n == self.entries@.len(),
                self.wf(),
                forall|j: int| 0 <= j < i ==> self.entries@[j].path@ != path@,
            decreases n - i,
        {
            if self.entries[i].path == *path {
                proof {
                    assert(self.entries()[i as int].path@ == path@);
                    let w = choose|w: int|
                        0 <= w < self.entries().len() && self.entries()[w].path@ == path@;
                    assert(w == i as int);
                }
                return Ok(self.entries[i].id);
            }
            i = i + 1;
        }
        proof {
            if self.routes(path@) {
                let j = choose|j: int|
                    0 <= j < self.entries().len() && self.entries()[j].path@ == path@;
                assert(self.entries@[j].path@ != path@);
            }
        }
        Err(ActorError::NoSuchPath)
    }

    /// Detaches whatever live actor a path reaches; detaching a path
    /// that reaches none changes nothing.
    pub fn remove(&mut self, path: &ActorPath) -> (removed: bool)
        requires
            old(self).wf(),
        ensures
            final(self).wf(),
            removed <==> old(self).routes(path@),
            !final(self).routes(path@),
            forall|q: PathModel|
                q != path@ ==> (final(self).routes(q) <==> old(self).routes(q)),
    {
        let n = self.entries.len();
        let mut i: usize = 0;
        while i < n
            invariant
                i <= n,
                n == self.entries@.len(),
                *self == *old(self),
                old(self).wf(),
                forall|j: int| 0 <= j < i ==> self.entries@[j].path@ != path@,
            decreases n - i,
        {
            if self.entries[i].path == *path {
                let ghost pre = self.entries@;
                self.entries.remove(i);
                proof {
                    pre.remove_ensures(i as int);
                    assert(pre[i as int].path@ == path@);
                    assert forall|a: int, b: int|
                        0 <= a < b < self.entries@.len() implies self.entries@[a].path@
                        != self.entries@[b].path@ by {
                        assert(self.entries@[a] == if a < i {
                            pre[a]
                        } else {
                            pre[a + 1]
                        });
                        assert(self.entries@[b] == if b < i {
                            pre[b]
                        } else {
                            pre[b + 1]
                        });
                    }
                    assert forall|j: int|
                        0 <= j < self.entries@.len() implies (#[trigger] self.entries@[j].path@)
                        != path@ && self.entries@[j].path@.scope != ActorScope::DeadLetter by {
                        assert(self.entries@[j] == if j < i {
                            pre[j]
                        } else {
                            pre[j + 1]
                        });
                    }
                    assert(!self.routes(path@));
                    assert forall|q: PathModel| q != path@ && old(self).routes(q) implies self
                        .routes(q) by {
                        let j = choose|j: int| 0 <= j < pre.len() && pre[j].path@ == q;
                        if j < i {
                            assert(self.entries()[j].path@ == q);
                        } else {
                            assert(self.entries()[j - 1].path@ == q);
                        }
                    }
                    assert forall|q: PathModel| q != path@ && self.routes(q) implies old(
                        self,
                    ).routes(q) by {
                        let j = choose|j: int|
                            0 <= j < self.entries().len() && self.entries()[j].path@ == q;
                        if j < i {
                            assert(old(self).entries()[j].path@ == q);
                        } else {
                            assert(old(self).entries()[j + 1].path@ == q);
                        }
                    }
                    assert(old(self).routes(path@)) by {
                        assert(old(self).entries()[i as int].path@ == path@);
                    }
                }
                return true;
            }
            i = i + 1;
        }
        proof {
            if old(self).routes(path@) {
                let j = choose|j: int|
                    0 <= j < old(self).entries().len() && old(self).entries()[j].path@ == path@;
                assert(self.entries@[j].path@ != path@);
            }
        }
        false
    }
}

/// At most one live actor is reachable by any path at any instant: two
/// live entries with the same path are the same entry.
pub proof fn lemma_path_reaches_at_most_one(t: RouteTable, i: int, j: int)
    requires
        t.wf(),
        0 <= i < t.entries().len(),
        0 <= j < t.entries().len(),
        t.entries()[i].path@ == t.entries()[j].path@,
    ensures
        i == j,
{
    if i < j {
        assert(t.entries()[i].path@ != t.entries()[j].path@);
    }
    if j < i {
        assert(t.entries()[j].path@ != t.entries()[i].path@);
    }
}

/// The dead-letter scope is a sink: no live actor is ever reachable by
/// a dead-letter path.
pub proof fn lemma_dead_letter_routes_nothing(t: RouteTable, p: PathModel)
    requires
        t.wf(),
        p.scope == ActorScope::DeadLetter,
    ensures
        !t.routes(p),
{
    if t.routes(p) {
        let i = choose|i: int| 0 <= i < t.entries().len() && t.entries()[i].path@ == p;
        assert(t.entries()[i].path@.scope != ActorScope::DeadLetter);
    }
}

/// Where a broadcast is aimed: every actor, a named group, or the
/// children reachable by one path.
pub enum BroadcastTarget {
    /// Every actor of the tree.
    All,
    /// The group registered under this name.
    Group(String),
    /// The actor reachable by this path.
    Children(ActorPath),
}

/// Where a broadcast goes after routing.
#[derive(Clone, Copy, PartialEq, Eq, Structural, Debug)]
pub enum Delivery {
    /// Fan out to every actor of the tree.
    Everyone,
    /// Deliver to the named group.
    ToGroup(ActorId),
    /// Deliver to the one actor behind the path.
    ToActor(ActorId),
}

/// Routes one broadcast target. An unknown group name, a path that
/// reaches no live actor, and any dead-letter path are routed to
/// dead-letter: the result is [`ActorError::NoSuchPath`] and nothing
/// is delivered anywhere else.
pub fn route_target(
    target: &BroadcastTarget,
    groups: &crate::dispatcher::GroupRegistry,
    table: &RouteTable,
) -> (r: Result<Delivery, ActorError>)
    requires
        groups.wf(),
        table.wf(),
    ensures
        match target {
            BroadcastTarget::All => r == Result::<Delivery, ActorError>::Ok(Delivery::Everyone),
            BroadcastTarget::Group(name) => if groups.has_name(name@) {
                r == Result::<Delivery, ActorError>::Ok(Delivery::ToGroup(groups.group_of(name@)))
            } else {
                r == Result::<Delivery, ActorError>::Err(ActorError::NoSuchPath)
            },
            BroadcastTarget::Children(path) => if table.routes(path@) {
                r == Result::<Delivery, ActorError>::Ok(Delivery::ToActor(table.actor_at(path@)))
            } else {
                r == Result::<Delivery, ActorError>::Err(ActorError::NoSuchPath)
            },
        },
{
    match target {
        BroadcastTarget::All => Ok(Delivery::Everyone),
        BroadcastTarget::Group(name) => match groups.lookup(name.as_str()) {
            Ok(group) => Ok(Delivery::ToGroup(group)),
            Err(e) => Err(e),
        },
        BroadcastTarget::Children(path) => match table.resolve(path) {
            Ok(actor) => Ok(Delivery::ToActor(actor)),
            Err(e) => Err(e),
        },
    }
}

} // verus!

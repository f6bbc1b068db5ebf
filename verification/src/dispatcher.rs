//! Dispatchers: routing policies over a children group's current
//! members, and the registry of named groups.
//!
//! A round-robin dispatcher selects the next live member with a
//! counter that advances exactly once per accepted message; within one
//! membership epoch the selection is fair: any window of `k * n`
//! consecutive dispatches selects each of the `n` members exactly `k`
//! times.

use vstd::prelude::*;

verus! {

use crate::{ActorError, ActorId};

/// The routing policy of a children group.
pub enum DispatcherKind {
    /// Every accepted message goes to all members.
    Default,
    /// Like `Default`, but the group is registered under a name so
    /// that other groups can target it without knowing member ids.
    Named(String),
    /// Registered under a name; each accepted message goes to the
    /// next live member in round-robin order.
    RoundRobin(String),
}

/// Where one accepted message goes.
#[derive(Clone, Copy, PartialEq, Eq, Structural, Debug)]
pub enum DispatchDecision {
    /// Deliver to every current member.
    All,
    /// Deliver to this single member.
    One(ActorId),
}

/// The counter value after one accepted message, on `n` members.
pub open spec fn rr_next(c: int, n: int) -> int {
    if c + 1 == n {
        0
    } else {
        c + 1
    }
}

/// The counter value after `i` accepted messages from `c0`, on `n`
/// members.
pub open spec fn rr_counter(c0: int, n: int, i: int) -> int
    decreases i,
{
    if i <= 0 {
        c0
    } else {
        rr_next(rr_counter(c0, n, i - 1), n)
    }
}

/// How many of the first `m` dispatches from counter `c0`, on `n`
/// members, select the member at position `r`.
pub open spec fn rr_hits(c0: int, n: int, m: int, r: int) -> int
    decreases m,
{
    if m <= 0 {
        0
    } else {
        rr_hits(c0, n, m - 1, r) + if rr_counter(c0, n, m - 1) == r {
            1 as int
        } else {
            0 as int
        }
    }
}

proof fn lemma_counter_closed_form(c0: int, n: int, i: int)
    requires
        0 <= c0 < n,
        0 <= i <= n,
    ensures
        rr_counter(c0, n, i) == if c0 + i < n {
            c0 + i
        } else {
            c0 + i - n
        },
    decreases i,
{
    if i > 0 {
        lemma_counter_closed_form(c0, n, i - 1);
    }
}

proof fn lemma_hits_prefix(c0: int, n: int, m: int, r: int)
    requires
        0 <= c0 < n,
        0 <= r < n,
        0 <= m <= n,
    ensures
        rr_hits(c0, n, m, r) == if (r - c0 + if r >= c0 {
            0 as int
        } else {
            n
        }) < m {
            1 as int
        } else {
            0 as int
        },
    decreases m,
{
    let i0 = r - c0 + if r >= c0 {
        0 as int
    } else {
        n
    };
    if m > 0 {
        lemma_hits_prefix(c0, n, m - 1, r);
        lemma_counter_closed_form(c0, n, m - 1);
        assert(rr_counter(c0, n, m - 1) == r <==> m - 1 == i0);
    }
}

proof fn lemma_counter_add(c0: int, n: int, a: int, b: int)
    requires
        a >= 0,
        b >= 0,
    ensures
        rr_counter(c0, n, a + b) == rr_counter(rr_counter(c0, n, a), n, b),
    decreases b,
{
    if b > 0 {
        lemma_counter_add(c0, n, a, b - 1);
        assert(rr_counter(c0, n, a + b) == rr_next(rr_counter(c0, n, a + b - 1), n));
    }
}

proof fn lemma_hits_add(c0: int, n: int, a: int, b: int, r: int)
    requires
        a >= 0,
        b >= 0,
    ensures
        rr_hits(c0, n, a + b, r) == rr_hits(c0, n, a, r) + rr_hits(
            rr_counter(c0, n, a),
            n,
            b,
            r,
        ),
    decreases b,
{
    if b > 0 {
        lemma_hits_add(c0, n, a, b - 1, r);
        lemma_counter_add(c0, n, a, b - 1);
    }
}

proof fn lemma_counter_full_cycle(c0: int, n: int)
    requires
        0 <= c0 < n,
    ensures
        rr_counter(c0, n, n) == c0,
{
    lemma_counter_closed_form(c0, n, n);
}

/// Round-robin fairness within one membership epoch: starting at any
/// reachable counter `c0`, among any `k * n` consecutive dispatches on
/// `n` members, the member at each position `r` is selected exactly
/// `k` times.
pub proof fn lemma_round_robin_fair(c0: int, n: int, k: int, r: int)
    requires
        0 <= c0 < n,
        0 <= r < n,
        k >= 0,
    ensures
        rr_hits(c0, n, k * n, r) == k,
    decreases k,
{
    if k == 0 {
        assert(rr_hits(c0, n, 0, r) == 0);
    } else {
        lemma_round_robin_fair(c0, n, k - 1, r);
        assert((k - 1) * n >= 0) by (nonlinear_arith)
            requires
                k >= 1,
                n > 0,
        ;
        lemma_hits_add(c0, n, (k - 1) * n, n, r);
        lemma_counter_cycles(c0, n, k - 1);
        lemma_hits_prefix(c0, n, n, r);
        assert(rr_hits(c0, n, (k - 1) * n + n, r) == k);
        assert((k - 1) * n + n == k * n) by (nonlinear_arith);
        assert(rr_hits(c0, n, k * n, r) == rr_hits(c0, n, (k - 1) * n + n, r));
    }
}

proof fn lemma_counter_cycles(c0: int, n: int, k: int)
    requires
        0 <= c0 < n,
        k >= 0,
    ensures
        rr_counter(c0, n, k * n) == c0,
    decreases k,
{
    if k == 0 {
        assert(k * n == 0) by (nonlinear_arith)
            requires
                k == 0,
        ;
    } else {
        lemma_counter_cycles(c0, n, k - 1);
        assert((k - 1) * n >= 0) by (nonlinear_arith)
            requires
                k >= 1,
                n > 0,
        ;
        lemma_counter_add(c0, n, (k - 1) * n, n);
        lemma_counter_full_cycle(c0, n);
        assert(rr_counter(c0, n, (k - 1) * n + n) == c0);
        assert((k - 1) * n + n == k * n) by (nonlinear_arith);
        assert(rr_counter(c0, n, k * n) == rr_counter(c0, n, (k - 1) * n + n));
    }
}

/// A routing policy together with the group's current members and the
/// round-robin counter.
pub struct Dispatcher {
    kind: DispatcherKind,
    members: Vec<ActorId>,
    counter: usize,
}

impl Dispatcher {
    /// The current members, in insertion order.
    pub closed spec fn members(&self) -> Seq<ActorId> {
        self.members@
    }

    /// The round-robin counter: the position the next accepted
    /// message is delivered to.
    pub closed spec fn counter(&self) -> int {
        self.counter as int
    }

    /// The routing policy.
    pub closed spec fn kind(&self) -> DispatcherKind {
        self.kind
    }

    /// True of a round-robin dispatcher.
    pub open spec fn is_round_robin(&self) -> bool {
        self.kind() is RoundRobin
    }

    /// The internal invariant: no member appears twice, and the
    /// counter always refers to a live member (or is zero while the
    /// group is empty).
    pub closed spec fn wf(&self) -> bool {
        &&& forall|i: int, j: int|
            0 <= i < j < self.members@.len() ==> self.members@[i] != self.members@[j]
        &&& if self.members@.len() == 0 {
            self.counter == 0
        } else {
            (self.counter as int) < self.members@.len()
        }
    }

    /// A dispatcher with the given policy and no members yet.
    pub fn new(kind: DispatcherKind) -> (r: Self)
        ensures
            r.wf(),
            r.members() =~= Seq::<ActorId>::empty(),
            r.counter() == 0,
            r.kind() == kind,
    {
        Dispatcher { kind, members: Vec::new(), counter: 0 }
    }

    /// Appends a new member at the tail; refuses a member that is
    /// already present. The counter is unchanged, so the selection
    /// order of the old members is kept.
    pub fn add_member(&mut self, id: ActorId) -> (added: bool)
        requires
            old(self).wf(),
        ensures
            final(self).wf(),
            final(self).kind() == old(self).kind(),
            final(self).counter() == old(self).counter(),
            added <==> !old(self).members().contains(id),
            added ==> final(self).members() =~= old(self).members().push(id),
            !added ==> final(self).members() =~= old(self).members(),
    {
        let n = self.members.len();
        let mut i: usize = 0;
        while i < n
            invariant
                i <= n,
                n == self.members@.len(),
                *self == *old(self),
                old(self).wf(),
                forall|j: int| 0 <= j < i ==> self.members@[j] != id,
            decreases n - i,
        {
            if self.members[i] == id {
                proof {
                    assert(old(self).members()[i as int] == id);
                }
                return false;
            }
            i = i + 1;
        }
        self.members.push(id);
        true
    }

    /// Detaches a member; detaching an absent member changes nothing.
    /// The counter is clamped so that no index ever refers to a
    /// departed member.
    pub fn remove_member(&mut self, id: ActorId) -> (removed: bool)
        requires
            old(self).wf(),
        ensures
            final(self).wf(),
            final(self).kind() == old(self).kind(),
            removed <==> old(self).members().contains(id),
            !removed ==> final(self).members() =~= old(self).members() && final(self).counter()
                == old(self).counter(),
            removed ==> !final(self).members().contains(id) && final(self).members().len() == old(self).members().len() - 1,
            forall|x: ActorId|
                x != id ==> (final(self).members().contains(x) <==> old(self).members().contains(
                    x,
                )),
    {
        let n = self.members.len();
        let mut i: usize = 0;
        while i < n
            invariant
                i <= n,
                n == self.members@.len(),
                *self == *old(self),
                old(self).wf(),
                forall|j: int| 0 <= j < i ==> self.members@[j] != id,
            decreases n - i,
        {
            if self.members[i] == id {
                let ghost pre = self.members@;
                self.members.remove(i);
                proof {
                    pre.remove_ensures(i as int);
                }
                if self.counter >= self.members.len() {
                    self.counter = 0;
                }
                proof {
                    assert forall|a: int, b: int|
                        0 <= a < b < self.members@.len() implies self.members@[a]
                        != self.members@[b] by {
                        assert(self.members@[a] == if a < i {
                            pre[a]
                        } else {
                            pre[a + 1]
                        });
                        assert(self.members@[b] == if b < i {
                            pre[b]
                        } else {
                            pre[b + 1]
                        });
                    }
                    assert forall|j: int|
                        0 <= j < self.members@.len() implies self.members@[j] != id by {
                        assert(self.members@[j] == if j < i {
                            pre[j]
                        } else {
                            pre[j + 1]
                        });
                    }
                    assert(!self.members@.contains(id));
                    assert forall|x: ActorId| x != id && pre.contains(x) implies self.members@
                        .contains(x) by {
                        let j = choose|j: int| 0 <= j < pre.len() && pre[j] == x;
                        if j < i {
                            assert(self.members@[j] == x);
                        } else {
                            assert(self.members@[j - 1] == x);
                        }
                    }
                    assert forall|x: ActorId| self.members@.contains(x) implies pre.contains(
                        x,
                    ) by {
                        let j = choose|j: int|
                            0 <= j < self.members@.len() && self.members@[j] == x;
                        if j < i {
                            assert(pre[j] == x);
                        } else {
                            assert(pre[j + 1] == x);
                        }
                    }
                    assert(pre.contains(id)) by {
                        assert(pre[i as int] == id);
                    }
                }
                return true;
            }
            i = i + 1;
        }
        false
    }

    /// The number of current members.
    pub fn member_count(&self) -> (r: usize)
        ensures
            r == self.members().len(),
    {
        self.members.len()
    }

    /// Accepts one message. With no live member the dispatch fails
    /// with [`ActorError::NoSuchPath`]. A round-robin dispatcher
    /// selects the member at the counter and advances the counter
    /// exactly once; any other policy delivers to all members and
    /// leaves the counter alone.
    pub fn dispatch(&mut self) -> (r: Result<DispatchDecision, ActorError>)
        requires
            old(self).wf(),
        ensures
            final(self).wf(),
            final(self).kind() == old(self).kind(),
            final(self).members() =~= old(self).members(),
            old(self).members().len() == 0 ==> r == Result::<
                DispatchDecision,
                ActorError,
            >::Err(ActorError::NoSuchPath) && final(self).counter() == old(self).counter(),
            old(self).members().len() > 0 && old(self).is_round_robin() ==> r == Result::<
                DispatchDecision,
                ActorError,
            >::Ok(DispatchDecision::One(old(self).members()[old(self).counter()])) && final(self).counter() == rr_next(old(self).counter(), old(self).members().len() as int),
            old(self).members().len() > 0 && !old(self).is_round_robin() ==> r == Result::<
                DispatchDecision,
                ActorError,
            >::Ok(DispatchDecision::All) && final(self).counter() == old(self).counter(),
    {
        let n = self.members.len();
        if n == 0 {
            return Err(ActorError::NoSuchPath);
        }
        match &self.kind {
            DispatcherKind::RoundRobin(_) => {
                let chosen = self.members[self.counter];
                self.counter = if self.counter + 1 == n {
                    0
                } else {
                    self.counter + 1
                };
                Ok(DispatchDecision::One(chosen))
            },
            _ => Ok(DispatchDecision::All),
        }
    }
}

/// One entry of the registry of named groups.
pub struct GroupEntry {
    /// The name the group registered itself under.
    pub name: String,
    /// The group reachable under that name.
    pub group: ActorId,
}

/// The registry that maps a group name to the group registered under
/// it, so that a broadcast can target a group without knowing member
/// ids.
pub struct GroupRegistry {
    entries: Vec<GroupEntry>,
}

impl GroupRegistry {
    /// The registered entries, in registration order.
    pub closed spec fn entries(&self) -> Seq<GroupEntry> {
        self.entries@
    }

    /// True when some group is registered under the name.
    pub open spec fn has_name(&self, name: Seq<char>) -> bool {
        exists|i: int| 0 <= i < self.entries().len() && self.entries()[i].name@ == name
    }

    /// The group registered under a name.
    pub open spec fn group_of(&self, name: Seq<char>) -> ActorId {
        self.entries()[choose|i: int|
            0 <= i < self.entries().len() && self.entries()[i].name@ == name].group
    }

    /// The internal invariant: no name is registered twice.
    pub closed spec fn wf(&self) -> bool {
        forall|i: int, j: int|
            0 <= i < j < self.entries@.len() ==> self.entries@[i].name@ != self.entries@[j].name@
    }

    /// An empty registry.
    pub fn new() -> (r: Self)
        ensures
            r.wf(),
            r.entries() =~= Seq::<GroupEntry>::empty(),
    {
        GroupRegistry { entries: Vec::new() }
    }

    /// Registers a group under a name; refuses a name that is already
    /// taken.
    pub fn register(&mut self, name: String, group: ActorId) -> (added: bool)
        requires
            old(self).wf(),
        ensures
            final(self).wf(),
            added <==> !old(self).has_name(name@),
            added ==> final(self).entries().len() == old(self).entries().len() + 1 && final(self).has_name(name@) && final(self).group_of(name@) == group,
            !added ==> final(self).entries() =~= old(self).entries(),
            forall|other: Seq<char>|
                other != name@ ==> (final(self).has_name(other) <==> old(self).has_name(other)),
    {
        let n = self.entries.len();
        let mut i: usize = 0;
        while i < n
            invariant
                i <= n,
                n == self.entries@.len(),
                *self == *old(self),
                old(self).wf(),
                forall|j: int| 0 <= j < i ==> self.entries@[j].name@ != name@,
            decreases n - i,
        {
            if self.entries[i].name == name {
                proof {
                    assert(old(self).entries()[i as int].name@ == name@);
                }
                return false;
            }
            i = i + 1;
        }
        self.entries.push(GroupEntry { name, group });
        proof {
            let m = self.entries().len() - 1;
            assert(self.entries()[m].name@ == name@);
            assert forall|other: Seq<char>|
                other != name@ && old(self).has_name(other) implies self.has_name(other) by {
                let j = choose|j: int|
                    0 <= j < old(self).entries().len() && old(self).entries()[j].name@ == other;
                assert(self.entries()[j].name@ == other);
            }
            assert forall|other: Seq<char>|
                other != name@ && self.has_name(other) implies old(self).has_name(other) by {
                let j = choose|j: int|
                    0 <= j < self.entries().len() && self.entries()[j].name@ == other;
                assert(j < m);
                assert(old(self).entries()[j].name@ == other);
            }
        }
        true
    }

    /// Resolves a name to the group registered under it; an unknown
    /// name is routed to dead-letter with [`ActorError::NoSuchPath`].
    pub fn lookup(&self, name: &str) -> (r: Result<ActorId, ActorError>)
        requires
            self.wf(),
        ensures
            r is Ok <==> self.has_name(name@),
            self.has_name(name@) ==> r == Result::<ActorId, ActorError>::Ok(
                self.group_of(name@),
            ),
            !self.has_name(name@) ==> r == Result::<ActorId, ActorError>::Err(
                ActorError::NoSuchPath,
            ),
    {
        let key = name.to_owned();
        let n = self.entries.len();
        let mut i: usize = 0;
        while i < n
            invariant
                i <= n,
                n == self.entries@.len(),
                key@ == name@,
                self.wf(),
                forall|j: int| 0 <= j < i ==> self.entries@[j].name@ != name@,
            decreases n - i,
        {
            if self.entries[i].name == key {
                proof {
                    assert(self.entries()[i as int].name@ == name@);
                    let w = choose|w: int|
                        0 <= w < self.entries().len() && self.entries()[w].name@ == name@;
                    assert(w == i as int);
                }
                return Ok(self.entries[i].group);
            }
            i = i + 1;
        }
        Err(ActorError::NoSuchPath)
    }
}

} // verus!

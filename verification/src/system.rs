//! The root system loop, as a state machine.
//!
//! The root owns the top-level supervisor set and a dead-set. Each
//! scheduler turn hands the loop one ready event — an inbound control
//! message, a newly submitted supervisor, or a closed channel — and
//! [`SystemState::step`] decides the next state and the action the
//! runtime performs: detach, relaunch, fan out, broadcast the final
//! stop, or leave the loop. Relaunching a faulted supervisor is
//! subject to a sliding-window restart budget per supervisor; when a
//! supervisor exhausts its budget it is discarded, that counts against
//! the root's own budget, and when the root's budget is exhausted too
//! the system transitions to stopping.

use vstd::prelude::*;

verus! {

use crate::ActorId;
use crate::mailbox::Envelope;
use crate::supervision::{RestartWindow, count_recent};

/// True when one more restart at `now` still fits the budget.
pub open spec fn budget_allows(times: Seq<u64>, now: int, max: int, within: int) -> bool {
    count_recent(times, now, within) + 1 <= max
}

/// One registered top-level supervisor and its restart budget.
pub struct SupervisorSlot {
    /// The supervisor's identifier.
    pub id: ActorId,
    /// The sliding-window restart budget of this supervisor.
    pub window: RestartWindow,
}

/// True when some slot of the sequence carries the identifier.
pub open spec fn slots_contain(slots: Seq<SupervisorSlot>, id: ActorId) -> bool {
    exists|i: int| 0 <= i < slots.len() && slots[i].id == id
}

/// True when no identifier appears in two slots of the sequence.
pub open spec fn slots_distinct(slots: Seq<SupervisorSlot>) -> bool {
    forall|a: int, b: int| 0 <= a < b < slots.len() ==> slots[a].id != slots[b].id
}

/// The well-formedness of one restart window against the system's
/// configuration and clock.
pub open spec fn window_ok(w: RestartWindow, max: usize, within: u64, clock: u64) -> bool {
    &&& w.wf()
    &&& forall|t: int| 0 <= t < w.times().len() ==> #[trigger] w.times()[t] <= clock
    &&& w.max_restarts() == max
    &&& w.within() == within
}

/// The well-formedness of every slot of the sequence: its window is
/// sound and its identifier is not among the dead.
pub open spec fn slots_ok(
    slots: Seq<SupervisorSlot>,
    dead: Seq<ActorId>,
    max: usize,
    within: u64,
    clock: u64,
) -> bool {
    forall|a: int|
        0 <= a < slots.len() ==> window_ok((#[trigger] slots[a]).window, max, within, clock)
            && !dead.contains(slots[a].id)
}

/// What the root loop observes on one scheduler turn.
pub enum SystemEvent {
    /// A supervisor ended cleanly.
    SupervisorDead(ActorId),
    /// A supervisor faulted and awaits a relaunch decision.
    SupervisorFaulted(ActorId),
    /// A user message to fan out to the children.
    Deliver(Envelope),
    /// The request to begin an orderly shutdown.
    PoisonPill,
    /// A newly constructed supervisor was submitted.
    Intake(ActorId),
    /// The inbound broadcast channel closed.
    InboundClosed,
    /// The supervisor intake channel closed.
    IntakeClosed,
}

/// What the runtime performs after one step of the loop.
pub enum SystemAction {
    /// Nothing to perform.
    Ignore,
    /// Detach the broadcast edge of a finished supervisor.
    Detach(ActorId),
    /// Await the faulted supervisor's handle and launch it again.
    Relaunch(ActorId),
    /// Drop a supervisor whose restart budget is exhausted.
    Discard(ActorId),
    /// Clone the message to every child's broadcast handle.
    FanOut(Envelope),
    /// Broadcast the final stop message down the tree.
    BroadcastStop,
    /// Launch and register the newly submitted supervisor.
    Launch(ActorId),
    /// Drop a submission that cannot be registered.
    Reject(ActorId),
    /// Leave the loop.
    ExitLoop,
}

/// The state the root loop carries between scheduler turns.
pub struct SystemState {
    supervisors: Vec<SupervisorSlot>,
    dead: Vec<ActorId>,
    window: RestartWindow,
    max_restarts: usize,
    within: u64,
    clock: u64,
    stopping: bool,
}

impl SystemState {
    /// The registered supervisors, in registration order.
    pub closed spec fn slots(&self) -> Seq<SupervisorSlot> {
        self.supervisors@
    }

    /// True when the supervisor is currently registered (live).
    pub open spec fn live_has(&self, id: ActorId) -> bool {
        slots_contain(self.slots(), id)
    }

    /// The restart instants recorded for a live supervisor.
    pub open spec fn sup_times(&self, id: ActorId) -> Seq<u64> {
        self.slots()[choose|i: int|
            0 <= i < self.slots().len() && self.slots()[i].id == id].window.times()
    }

    /// The identifiers of supervisors that have ended; none of them
    /// ever returns as live.
    pub closed spec fn dead_ids(&self) -> Seq<ActorId> {
        self.dead@
    }

    /// The restart instants recorded against the root's own budget.
    pub closed spec fn root_times(&self) -> Seq<u64> {
        self.window.times()
    }

    /// The restart budget bound shared by every window of the system.
    pub closed spec fn max_restarts(&self) -> usize {
        self.max_restarts
    }

    /// The sliding-window length shared by every window of the system.
    pub closed spec fn within(&self) -> u64 {
        self.within
    }

    /// The largest instant the loop has observed.
    pub closed spec fn clock(&self) -> u64 {
        self.clock
    }

    /// True once the system has begun its orderly shutdown.
    pub closed spec fn is_stopping(&self) -> bool {
        self.stopping
    }

    /// The internal invariant: no supervisor is registered twice, a
    /// dead supervisor is never live, and every restart window is
    /// sound, bounded by the clock, and configured like the system.
    pub closed spec fn wf(&self) -> bool {
        &&& slots_distinct(self.slots())
        &&& slots_ok(
            self.slots(),
            self.dead_ids(),
            self.max_restarts(),
            self.within(),
            self.clock(),
        )
        &&& window_ok(self.window, self.max_restarts(), self.within(), self.clock())
    }

    /// A fresh system: no supervisor registered, nothing dead, not
    /// stopping, with the given restart budget for the root and for
    /// each registered supervisor.
    pub fn new(max_restarts: usize, within: u64) -> (r: Self)
        ensures
            r.wf(),
            r.slots().len() == 0,
            r.dead_ids() =~= Seq::<ActorId>::empty(),
            r.root_times() =~= Seq::<u64>::empty(),
            !r.is_stopping(),
            r.max_restarts() == max_restarts,
            r.within() == within,
            r.clock() == 0,
    {
        SystemState {
            supervisors: Vec::new(),
            dead: Vec::new(),
            window: RestartWindow::new(max_restarts, within),
            max_restarts,
            within,
            clock: 0,
            stopping: false,
        }
    }

    fn find_slot(&self, id: ActorId) -> (r: Option<usize>)
        ensures
            r is Some <==> self.live_has(id),
            r matches Some(i) ==> i < self.slots().len() && self.slots()[i as int].id == id,
    {
        let n = self.supervisors.len();
        let mut i: usize = 0;
        while i < n
            invariant
                i <= n,
                n == self.slots().len(),
                forall|j: int| 0 <= j < i ==> self.slots()[j].id != id,
            decreases n - i,
        {
            if self.supervisors[i].id == id {
                proof {
                    assert(self.slots()[i as int].id == id);
                }
                return Some(i);
            }
            i = i + 1;
        }
        proof {
            if self.live_has(id) {
                let j = choose|j: int| 0 <= j < self.slots().len() && self.slots()[j].id == id;
                assert(self.slots()[j].id != id);
            }
        }
        None
    }

    fn dead_contains(&self, id: ActorId) -> (r: bool)
        ensures
            r == self.dead_ids().contains(id),
    {
        let n = self.dead.len();
        let mut i: usize = 0;
        while i < n
            invariant
                i <= n,
                n == self.dead_ids().len(),
                forall|j: int| 0 <= j < i ==> self.dead_ids()[j] != id,
            decreases n - i,
        {
            if self.dead[i] == id {
                proof {
                    assert(self.dead_ids()[i as int] == id);
                }
                return true;
            }
            i = i + 1;
        }
        proof {
            if self.dead_ids().contains(id) {
                let j = choose|j: int|
                    0 <= j < self.dead_ids().len() && self.dead_ids()[j] == id;
                assert(self.dead_ids()[j] != id);
            }
        }
        false
    }

    /// One turn of the root loop: reacts to one ready event, observed
    /// at instant `now`, and returns the action the runtime performs.
    ///
    /// A supervisor that ends or exhausts its budget joins the
    /// dead-set and never returns as live: a later submission under a
    /// dead identifier is rejected, and the dead-set only grows.
    pub fn step(&mut self, event: SystemEvent, now: u64) -> (action: SystemAction)
        requires
            old(self).wf(),
            now >= old(self).clock(),
        ensures
            final(self).wf(),
            final(self).clock() == now,
            final(self).max_restarts() == old(self).max_restarts(),
            final(self).within() == old(self).within(),
            forall|x: ActorId|
                old(self).dead_ids().contains(x) ==> final(self).dead_ids().contains(x),
            match event {
                SystemEvent::SupervisorDead(id) => {
                    &&& action == SystemAction::Detach(id)
                    &&& !final(self).live_has(id)
                    &&& final(self).dead_ids().contains(id)
                    &&& forall|x: ActorId|
                        x != id ==> (final(self).live_has(x) <==> old(self).live_has(x))
                    &&& forall|x: ActorId|
                        x != id ==> (final(self).dead_ids().contains(x) <==> old(self).dead_ids().contains(x))
                    &&& final(self).is_stopping() == old(self).is_stopping()
                },
                SystemEvent::SupervisorFaulted(id) => {
                    if !old(self).live_has(id) {
                        action == SystemAction::Ignore && final(self).is_stopping() == old(self).is_stopping()
                            && final(self).slots() == old(self).slots()
                            && final(self).dead_ids() == old(self).dead_ids()
                    } else if budget_allows(
                        old(self).sup_times(id),
                        now as int,
                        old(self).max_restarts() as int,
                        old(self).within() as int,
                    ) {
                        action == SystemAction::Relaunch(id) && final(self).live_has(id)
                            && (forall|x: ActorId| final(self).live_has(x) <==> old(self).live_has(x))
                            && final(self).dead_ids() == old(self).dead_ids()
                            && final(self).is_stopping() == old(self).is_stopping()
                    } else {
                        !final(self).live_has(id) && final(self).dead_ids().contains(id)
                            && (forall|x: ActorId| x != id ==> (final(self).live_has(x) <==> old(self).live_has(x)))
                            && (forall|x: ActorId| x != id ==> (final(self).dead_ids().contains(x) <==> old(self).dead_ids().contains(x)))
                            && if budget_allows(
                                old(self).root_times(),
                                now as int,
                                old(self).max_restarts() as int,
                                old(self).within() as int,
                            ) {
                                action == SystemAction::Discard(id)
                                    && final(self).is_stopping() == old(self).is_stopping()
                            } else {
                                action == SystemAction::BroadcastStop && final(self).is_stopping()
                            }
                    }
                },
                SystemEvent::Deliver(env) => {
                    &&& action == if old(self).is_stopping() {
                        SystemAction::Ignore
                    } else {
                        SystemAction::FanOut(env)
                    }
                    &&& final(self).is_stopping() == old(self).is_stopping()
                    &&& final(self).slots() == old(self).slots()
                    &&& final(self).dead_ids() == old(self).dead_ids()
                },
                SystemEvent::PoisonPill => {
                    &&& action == if old(self).is_stopping() {
                        SystemAction::Ignore
                    } else {
                        SystemAction::BroadcastStop
                    }
                    &&& final(self).is_stopping()
                    &&& final(self).slots() == old(self).slots()
                    &&& final(self).dead_ids() == old(self).dead_ids()
                },
                SystemEvent::Intake(id) => {
                    if old(self).is_stopping() || old(self).dead_ids().contains(id) || old(self).live_has(id) {
                        action == SystemAction::Reject(id)
                            && final(self).slots() == old(self).slots()
                            && final(self).dead_ids() == old(self).dead_ids()
                            && final(self).is_stopping() == old(self).is_stopping()
                    } else {
                        action == SystemAction::Launch(id) && final(self).live_has(id)
                            && final(self).sup_times(id) =~= Seq::<u64>::empty()
                            && (forall|x: ActorId| x != id ==> (final(self).live_has(x) <==> old(self).live_has(x)))
                            && final(self).dead_ids() == old(self).dead_ids()
                            && final(self).is_stopping() == old(self).is_stopping()
                    }
                },
                SystemEvent::InboundClosed => {
                    &&& action == SystemAction::ExitLoop
                    &&& final(self).is_stopping()
                    &&& final(self).slots() == old(self).slots()
                    &&& final(self).dead_ids() == old(self).dead_ids()
                },
                SystemEvent::IntakeClosed => {
                    &&& action == SystemAction::ExitLoop
                    &&& final(self).is_stopping()
                    &&& final(self).slots() == old(self).slots()
                    &&& final(self).dead_ids() == old(self).dead_ids()
                },
            },
    {
        self.clock = now;
        proof {
            lemma_windows_clock_advance(
                self.slots(),
                self.dead_ids(),
                self.max_restarts,
                self.within,
                old(self).clock(),
                now,
            );
            lemma_window_clock_advance(
                self.window,
                self.max_restarts,
                self.within,
                old(self).clock(),
                now,
            );
        }
        match event {
            SystemEvent::SupervisorDead(id) => self.on_dead(id),
            SystemEvent::SupervisorFaulted(id) => self.on_faulted(id, now),
            SystemEvent::Deliver(env) => {
                if self.stopping {
                    SystemAction::Ignore
                } else {
                    SystemAction::FanOut(env)
                }
            },
            SystemEvent::PoisonPill => {
                let was_stopping = self.stopping;
                self.stopping = true;
                if was_stopping {
                    SystemAction::Ignore
                } else {
                    SystemAction::BroadcastStop
                }
            },
            SystemEvent::Intake(id) => self.on_intake(id),
            SystemEvent::InboundClosed => {
                self.stopping = true;
                SystemAction::ExitLoop
            },
            SystemEvent::IntakeClosed => {
                self.stopping = true;
                SystemAction::ExitLoop
            },
        }
    }

    fn on_dead(&mut self, id: ActorId) -> (action: SystemAction)
        requires
            old(self).wf(),
        ensures
            final(self).wf(),
            final(self).clock() == old(self).clock(),
            final(self).max_restarts() == old(self).max_restarts(),
            final(self).within() == old(self).within(),
            final(self).is_stopping() == old(self).is_stopping(),
            action == SystemAction::Detach(id),
            !final(self).live_has(id),
            final(self).dead_ids().contains(id),
            forall|x: ActorId| x != id ==> (final(self).live_has(x) <==> old(self).live_has(x)),
            forall|x: ActorId|
                x != id ==> (final(self).dead_ids().contains(x) <==> old(self).dead_ids().contains(x)),
            forall|x: ActorId|
                old(self).dead_ids().contains(x) ==> final(self).dead_ids().contains(x),
    {
        match self.find_slot(id) {
            Some(i) => {
                let ghost pre = self.supervisors@;
                self.supervisors.remove(i);
                proof {
                    lemma_slots_remove(pre, self.slots(), i as int, id);
                    lemma_slots_ok_remove(
                        pre,
                        self.slots(),
                        i as int,
                        self.dead_ids(),
                        self.max_restarts,
                        self.within,
                        self.clock,
                    );
                }
            },
            None => {},
        }
        proof {
            lemma_absent_id(self.slots(), id);
        }
        if !self.dead_contains(id) {
            let ghost predead = self.dead@;
            self.dead.push(id);
            proof {
                lemma_dead_push(
                    predead,
                    self.dead_ids(),
                    id,
                    self.slots(),
                    self.max_restarts,
                    self.within,
                    self.clock,
                );
            }
        }
        SystemAction::Detach(id)
    }

    fn on_faulted(&mut self, id: ActorId, now: u64) -> (action: SystemAction)
        requires
            old(self).wf(),
            old(self).clock() == now,
        ensures
            final(self).wf(),
            final(self).clock() == now,
            final(self).max_restarts() == old(self).max_restarts(),
            final(self).within() == old(self).within(),
            forall|x: ActorId|
                old(self).dead_ids().contains(x) ==> final(self).dead_ids().contains(x),
            if !old(self).live_has(id) {
                action == SystemAction::Ignore && final(self).is_stopping() == old(self).is_stopping()
                    && final(self).slots() == old(self).slots()
                    && final(self).dead_ids() == old(self).dead_ids()
            } else if budget_allows(
                old(self).sup_times(id),
                now as int,
                old(self).max_restarts() as int,
                old(self).within() as int,
            ) {
                action == SystemAction::Relaunch(id) && final(self).live_has(id)
                    && (forall|x: ActorId| final(self).live_has(x) <==> old(self).live_has(x))
                    && final(self).dead_ids() == old(self).dead_ids()
                    && final(self).is_stopping() == old(self).is_stopping()
            } else {
                !final(self).live_has(id) && final(self).dead_ids().contains(id)
                    && (forall|x: ActorId| x != id ==> (final(self).live_has(x) <==> old(self).live_has(x)))
                    && (forall|x: ActorId| x != id ==> (final(self).dead_ids().contains(x) <==> old(self).dead_ids().contains(x)))
                    && if budget_allows(
                        old(self).root_times(),
                        now as int,
                        old(self).max_restarts() as int,
                        old(self).within() as int,
                    ) {
                        action == SystemAction::Discard(id)
                            && final(self).is_stopping() == old(self).is_stopping()
                    } else {
                        action == SystemAction::BroadcastStop && final(self).is_stopping()
                    }
            },
    {
        let found = self.find_slot(id);
        match found {
            None => SystemAction::Ignore,
            Some(i) => {
                let ghost pre = self.supervisors@;
                let mut slot = self.supervisors.remove(i);
                proof {
                    lemma_slots_remove(pre, self.slots(), i as int, id);
                    lemma_slots_ok_remove(
                        pre,
                        self.slots(),
                        i as int,
                        self.dead_ids(),
                        self.max_restarts,
                        self.within,
                        self.clock,
                    );
                    let w = choose|w: int| 0 <= w < pre.len() && pre[w].id == id;
                    if w != i as int {
                        if w < i as int {
                            assert(pre[w].id != pre[i as int].id);
                        } else {
                            assert(pre[i as int].id != pre[w].id);
                        }
                    }
                    assert(old(self).sup_times(id) =~= slot.window.times());
                    assert(window_ok(slot.window, self.max_restarts, self.within, self.clock));
                }
                let budget = slot.window.note_restart(now);
                match budget {
                    Ok(_) => {
                        let ghost removed = self.supervisors@;
                        self.supervisors.insert(i, slot);
                        proof {
                            lemma_slots_insert(removed, self.slots(), i as int, id, slot);
                            lemma_slots_ok_insert(
                                removed,
                                self.slots(),
                                i as int,
                                slot,
                                self.dead_ids(),
                                self.max_restarts,
                                self.within,
                                self.clock,
                            );
                            let w = choose|w: int|
                                0 <= w < self.slots().len() && self.slots()[w].id == id;
                            assert(self.slots()[i as int] == slot);
                            if w != i as int {
                                assert(self.slots()[w].id != id);
                            }
                            assert(self.sup_times(id) =~= slot.window.times());
                        }
                        SystemAction::Relaunch(id)
                    },
                    Err(_) => {
                        proof {
                            lemma_absent_id(self.slots(), id);
                        }
                        let ghost predead = self.dead@;
                        self.dead.push(id);
                        proof {
                            lemma_dead_push(
                                predead,
                                self.dead_ids(),
                                id,
                                self.slots(),
                                self.max_restarts,
                                self.within,
                                self.clock,
                            );
                        }
                        let root = self.window.note_restart(now);
                        match root {
                            Ok(_) => SystemAction::Discard(id),
                            Err(_) => {
                                self.stopping = true;
                                SystemAction::BroadcastStop
                            },
                        }
                    },
                }
            },
        }
    }

    fn on_intake(&mut self, id: ActorId) -> (action: SystemAction)
        requires
            old(self).wf(),
        ensures
            final(self).wf(),
            final(self).clock() == old(self).clock(),
            final(self).max_restarts() == old(self).max_restarts(),
            final(self).within() == old(self).within(),
            final(self).is_stopping() == old(self).is_stopping(),
            forall|x: ActorId|
                old(self).dead_ids().contains(x) ==> final(self).dead_ids().contains(x),
            if old(self).is_stopping() || old(self).dead_ids().contains(id) || old(self).live_has(id) {
                action == SystemAction::Reject(id)
                    && final(self).slots() == old(self).slots()
                    && final(self).dead_ids() == old(self).dead_ids()
            } else {
                action == SystemAction::Launch(id) && final(self).live_has(id)
                    && final(self).sup_times(id) =~= Seq::<u64>::empty()
                    && (forall|x: ActorId| x != id ==> (final(self).live_has(x) <==> old(self).live_has(x)))
                    && final(self).dead_ids() == old(self).dead_ids()
            },
    {
        if self.stopping {
            return SystemAction::Reject(id);
        }
        if self.dead_contains(id) {
            return SystemAction::Reject(id);
        }
        match self.find_slot(id) {
            Some(_) => SystemAction::Reject(id),
            None => {
                let window = RestartWindow::new(self.max_restarts, self.within);
                let slot = SupervisorSlot { id, window };
                let ghost pre = self.supervisors@;
                self.supervisors.push(slot);
                proof {
                    lemma_absent_id(pre, id);
                    assert(self.slots() =~= pre.insert(pre.len() as int, slot));
                    lemma_slots_insert(pre, self.slots(), pre.len() as int, id, slot);
                    lemma_slots_ok_insert(
                        pre,
                        self.slots(),
                        pre.len() as int,
                        slot,
                        self.dead_ids(),
                        self.max_restarts,
                        self.within,
                        self.clock,
                    );
                    let w = choose|w: int|
                        0 <= w < self.slots().len() && self.slots()[w].id == id;
                    assert(self.slots()[pre.len() as int] == slot);
                    if w != pre.len() as int {
                        assert(self.slots()[w].id != id);
                    }
                    assert(self.sup_times(id) =~= slot.window.times());
                }
                SystemAction::Launch(id)
            },
        }
    }
}

/// A set of sound windows stays sound when the clock advances.
proof fn lemma_windows_clock_advance(
    slots: Seq<SupervisorSlot>,
    dead: Seq<ActorId>,
    max: usize,
    within: u64,
    clock0: u64,
    clock1: u64,
)
    requires
        slots_ok(slots, dead, max, within, clock0),
        clock0 <= clock1,
    ensures
        slots_ok(slots, dead, max, within, clock1),
{
    assert forall|a: int| 0 <= a < slots.len() implies window_ok(
        (#[trigger] slots[a]).window,
        max,
        within,
        clock1,
    ) && !dead.contains(slots[a].id) by {
        lemma_window_clock_advance(slots[a].window, max, within, clock0, clock1);
    }
}

/// A sound window stays sound when the clock advances.
proof fn lemma_window_clock_advance(
    w: RestartWindow,
    max: usize,
    within: u64,
    clock0: u64,
    clock1: u64,
)
    requires
        window_ok(w, max, within, clock0),
        clock0 <= clock1,
    ensures
        window_ok(w, max, within, clock1),
{
    assert forall|t: int| 0 <= t < w.times().len() implies #[trigger] w.times()[t] <= clock1 by {
        assert(w.times()[t] <= clock0);
    }
}

/// An identifier in no slot: from the absence of a witness.
proof fn lemma_absent_id(slots: Seq<SupervisorSlot>, id: ActorId)
    requires
        !slots_contain(slots, id),
    ensures
        forall|a: int| 0 <= a < slots.len() ==> (#[trigger] slots[a]).id != id,
{
    assert forall|a: int| 0 <= a < slots.len() implies (#[trigger] slots[a]).id != id by {
        if slots[a].id == id {
            assert(slots_contain(slots, id));
        }
    }
}

/// Removing the slot at `i` removes exactly its identifier from the
/// slot set and keeps the rest, distinctness included.
proof fn lemma_slots_remove(
    pre: Seq<SupervisorSlot>,
    post: Seq<SupervisorSlot>,
    i: int,
    id: ActorId,
)
    requires
        0 <= i < pre.len(),
        pre[i].id == id,
        post =~= pre.remove(i),
        slots_distinct(pre),
    ensures
        slots_distinct(post),
        !slots_contain(post, id),
        forall|x: ActorId| x != id ==> (slots_contain(post, x) <==> slots_contain(pre, x)),
        forall|j: int|
            0 <= j < post.len() ==> #[trigger] post[j] == if j < i {
                pre[j]
            } else {
                pre[j + 1]
            },
{
    pre.remove_ensures(i);
    assert forall|j: int| 0 <= j < post.len() implies #[trigger] post[j] == if j < i {
        pre[j]
    } else {
        pre[j + 1]
    } by {}
    if slots_contain(post, id) {
        let j = choose|j: int| 0 <= j < post.len() && post[j].id == id;
        if j < i {
            assert(pre[j].id != pre[i].id);
        } else {
            assert(pre[i].id != pre[j + 1].id);
        }
    }
    assert forall|x: ActorId| x != id && slots_contain(pre, x) implies slots_contain(
        post,
        x,
    ) by {
        let j = choose|j: int| 0 <= j < pre.len() && pre[j].id == x;
        if j < i {
            assert(post[j].id == x);
        } else {
            assert(post[j - 1].id == x);
        }
    }
    assert forall|x: ActorId| x != id && slots_contain(post, x) implies slots_contain(
        pre,
        x,
    ) by {
        let j = choose|j: int| 0 <= j < post.len() && post[j].id == x;
        if j < i {
            assert(pre[j].id == x);
        } else {
            assert(pre[j + 1].id == x);
        }
    }
    assert forall|a: int, b: int| 0 <= a < b < post.len() implies post[a].id != post[b].id by {
        assert(post[a] == if a < i {
            pre[a]
        } else {
            pre[a + 1]
        });
        assert(post[b] == if b < i {
            pre[b]
        } else {
            pre[b + 1]
        });
    }
}

/// A slot set whose slots are sound stays sound after removing one.
proof fn lemma_slots_ok_remove(
    pre: Seq<SupervisorSlot>,
    post: Seq<SupervisorSlot>,
    i: int,
    dead: Seq<ActorId>,
    max: usize,
    within: u64,
    clock: u64,
)
    requires
        0 <= i < pre.len(),
        post =~= pre.remove(i),
        slots_ok(pre, dead, max, within, clock),
    ensures
        slots_ok(post, dead, max, within, clock),
{
    pre.remove_ensures(i);
    assert forall|a: int| 0 <= a < post.len() implies window_ok(
        (#[trigger] post[a]).window,
        max,
        within,
        clock,
    ) && !dead.contains(post[a].id) by {
        if a < i {
            assert(post[a] == pre[a]);
            assert(window_ok(pre[a].window, max, within, clock));
            assert(!dead.contains(pre[a].id));
        } else {
            assert(post[a] == pre[a + 1]);
            assert(window_ok(pre[a + 1].window, max, within, clock));
            assert(!dead.contains(pre[a + 1].id));
        }
    }
}

/// Inserting a slot with a fresh identifier at `i` adds exactly that
/// identifier to the slot set and keeps the rest, distinctness
/// included.
proof fn lemma_slots_insert(
    pre: Seq<SupervisorSlot>,
    post: Seq<SupervisorSlot>,
    i: int,
    id: ActorId,
    slot: SupervisorSlot,
)
    requires
        0 <= i <= pre.len(),
        slot.id == id,
        post =~= pre.insert(i, slot),
        slots_distinct(pre),
        forall|j: int| 0 <= j < pre.len() ==> (#[trigger] pre[j]).id != id,
    ensures
        slots_distinct(post),
        slots_contain(post, id),
        forall|x: ActorId| x != id ==> (slots_contain(post, x) <==> slots_contain(pre, x)),
        forall|j: int|
            0 <= j < post.len() ==> #[trigger] post[j] == if j < i {
                pre[j]
            } else if j == i {
                slot
            } else {
                pre[j - 1]
            },
        post[i] == slot,
        forall|j: int| 0 <= j < post.len() && j != i ==> (#[trigger] post[j]).id != id,
{
    assert forall|j: int| 0 <= j < post.len() implies #[trigger] post[j] == if j < i {
        pre[j]
    } else if j == i {
        slot
    } else {
        pre[j - 1]
    } by {}
    assert(post[i].id == id);
    assert(slots_contain(post, id));
    assert forall|x: ActorId| x != id && slots_contain(pre, x) implies slots_contain(
        post,
        x,
    ) by {
        let j = choose|j: int| 0 <= j < pre.len() && pre[j].id == x;
        if j < i {
            assert(post[j].id == x);
        } else {
            assert(post[j + 1].id == x);
        }
    }
    assert forall|x: ActorId| x != id && slots_contain(post, x) implies slots_contain(
        pre,
        x,
    ) by {
        let j = choose|j: int| 0 <= j < post.len() && post[j].id == x;
        if j < i {
            assert(pre[j].id == x);
        } else if j > i {
            assert(pre[j - 1].id == x);
        }
    }
    assert forall|a: int, b: int| 0 <= a < b < post.len() implies post[a].id != post[b].id by {
        assert(post[a] == if a < i {
            pre[a]
        } else if a == i {
            slot
        } else {
            pre[a - 1]
        });
        assert(post[b] == if b < i {
            pre[b]
        } else if b == i {
            slot
        } else {
            pre[b - 1]
        });
    }
}

/// A slot set whose slots are sound stays sound after inserting a
/// sound slot whose identifier is not among the dead.
proof fn lemma_slots_ok_insert(
    pre: Seq<SupervisorSlot>,
    post: Seq<SupervisorSlot>,
    i: int,
    slot: SupervisorSlot,
    dead: Seq<ActorId>,
    max: usize,
    within: u64,
    clock: u64,
)
    requires
        0 <= i <= pre.len(),
        post =~= pre.insert(i, slot),
        slots_ok(pre, dead, max, within, clock),
        window_ok(slot.window, max, within, clock),
        !dead.contains(slot.id),
    ensures
        slots_ok(post, dead, max, within, clock),
{
    assert forall|a: int| 0 <= a < post.len() implies window_ok(
        (#[trigger] post[a]).window,
        max,
        within,
        clock,
    ) && !dead.contains(post[a].id) by {
        if a < i {
            assert(post[a] == pre[a]);
            assert(window_ok(pre[a].window, max, within, clock));
            assert(!dead.contains(pre[a].id));
        } else if a == i {
            assert(post[a] == slot);
        } else {
            assert(post[a] == pre[a - 1]);
            assert(window_ok(pre[a - 1].window, max, within, clock));
            assert(!dead.contains(pre[a - 1].id));
        }
    }
}

/// Pushing one identifier onto the dead-set adds exactly it, and a
/// slot set disjoint from the dead-set and free of that identifier
/// stays sound.
proof fn lemma_dead_push(
    predead: Seq<ActorId>,
    dead: Seq<ActorId>,
    id: ActorId,
    slots: Seq<SupervisorSlot>,
    max: usize,
    within: u64,
    clock: u64,
)
    requires
        dead =~= predead.push(id),
        slots_ok(slots, predead, max, within, clock),
        forall|a: int| 0 <= a < slots.len() ==> (#[trigger] slots[a]).id != id,
    ensures
        dead.contains(id),
        forall|x: ActorId| x != id ==> (dead.contains(x) <==> predead.contains(x)),
        forall|x: ActorId| predead.contains(x) ==> dead.contains(x),
        slots_ok(slots, dead, max, within, clock),
{
    assert(dead[predead.len() as int] == id);
    assert forall|x: ActorId| predead.contains(x) implies dead.contains(x) by {
        let j = choose|j: int| 0 <= j < predead.len() && predead[j] == x;
        assert(dead[j] == x);
    }
    assert forall|x: ActorId| x != id && dead.contains(x) implies predead.contains(x) by {
        let j = choose|j: int| 0 <= j < dead.len() && dead[j] == x;
        assert(predead[j] == x);
    }
    assert forall|a: int| 0 <= a < slots.len() implies window_ok(
        (#[trigger] slots[a]).window,
        max,
        within,
        clock,
    ) && !dead.contains(slots[a].id) by {
        assert(window_ok(slots[a].window, max, within, clock));
        assert(!predead.contains(slots[a].id));
        if dead.contains(slots[a].id) {
            assert(predead.contains(slots[a].id));
        }
    }
}

} // verus!

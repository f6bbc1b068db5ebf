//! Supervision strategies and the sliding-window restart budget.
//!
//! A supervisor reacts to a fault in one of its children by restarting
//! a subset of the child set that depends on its strategy, and escalates
//! to its own parent when the same logical child is restarted too often
//! within a sliding time window.

use vstd::prelude::*;

verus! {

use crate::ActorError;

/// How a supervisor reacts to a fault in one of its children.
#[derive(Clone, Copy, PartialEq, Eq, Structural, Debug)]
pub enum SupervisionStrategy {
    /// Restart just the faulted child.
    OneForOne,
    /// Stop and restart every child in the supervisor's set.
    OneForAll,
    /// Stop and restart the faulted child and every child created
    /// after it, in insertion order.
    RestForOne,
}

/// The positions a strategy restarts out of `n` children when the
/// child at position `faulted` faults, in insertion order.
pub open spec fn restart_positions(strategy: SupervisionStrategy, n: int, faulted: int) -> Seq<
    int,
> {
    match strategy {
        SupervisionStrategy::OneForOne => seq![faulted],
        SupervisionStrategy::OneForAll => Seq::new(n as nat, |i: int| i),
        SupervisionStrategy::RestForOne => Seq::new((n - faulted) as nat, |i: int| faulted + i),
    }
}

/// The positions out of `n` children, in insertion order, that a
/// supervisor with the given strategy restarts when the child at
/// position `faulted` faults.
pub fn restart_targets(strategy: SupervisionStrategy, n: usize, faulted: usize) -> (r: Vec<usize>)
    requires
        faulted < n,
    ensures
        r@.len() == restart_positions(strategy, n as int, faulted as int).len(),
        forall|j: int|
            0 <= j < r@.len() ==> r@[j] as int == restart_positions(
                strategy,
                n as int,
                faulted as int,
            )[j],
{
    match strategy {
        SupervisionStrategy::OneForOne => {
            let mut v: Vec<usize> = Vec::new();
            v.push(faulted);
            v
        },
        SupervisionStrategy::OneForAll => {
            let mut v: Vec<usize> = Vec::new();
            let mut i: usize = 0;
            while i < n
                invariant
                    i <= n,
                    v@.len() == i,
                    forall|j: int| 0 <= j < i ==> v@[j] == j,
                decreases n - i,
            {
                v.push(i);
                i = i + 1;
            }
            v
        },
        SupervisionStrategy::RestForOne => {
            let mut v: Vec<usize> = Vec::new();
            let mut i: usize = faulted;
            while i < n
                invariant
                    faulted <= i <= n,
                    v@.len() == i - faulted,
                    forall|j: int| 0 <= j < v@.len() ==> v@[j] == faulted + j,
                decreases n - i,
            {
                v.push(i);
                i = i + 1;
            }
            v
        },
    }
}

/// Under `OneForOne`, a fault in one child never restarts a sibling:
/// the restarted set is exactly the faulted position.
pub proof fn lemma_one_for_one_spares_siblings(n: int, faulted: int, other: int)
    requires
        0 <= faulted < n,
        0 <= other < n,
        other != faulted,
    ensures
        !restart_positions(SupervisionStrategy::OneForOne, n, faulted).contains(other),
        restart_positions(SupervisionStrategy::OneForOne, n, faulted).contains(faulted),
{
    let s = restart_positions(SupervisionStrategy::OneForOne, n, faulted);
    assert(s[0] == faulted);
    assert(forall|i: int| 0 <= i < s.len() ==> s[i] == faulted);
}

/// Under `RestForOne`, a fault at position `faulted` restarts exactly
/// the children at positions at or after `faulted`.
pub proof fn lemma_rest_for_one_exact(n: int, faulted: int, p: int)
    requires
        0 <= faulted < n,
    ensures
        restart_positions(SupervisionStrategy::RestForOne, n, faulted).contains(p) <==> (faulted
            <= p < n),
{
    let s = restart_positions(SupervisionStrategy::RestForOne, n, faulted);
    if faulted <= p < n {
        assert(s[p - faulted] == p);
        assert(s.contains(p));
    }
    if s.contains(p) {
        let i = choose|i: int| 0 <= i < s.len() && s[i] == p;
        assert(s[i] == faulted + i);
    }
}

/// Under `OneForAll`, every child of the supervisor is restarted.
pub proof fn lemma_one_for_all_restarts_all(n: int, faulted: int, p: int)
    requires
        0 <= faulted < n,
    ensures
        restart_positions(SupervisionStrategy::OneForAll, n, faulted).contains(p) <==> (0 <= p
            < n),
{
    let s = restart_positions(SupervisionStrategy::OneForAll, n, faulted);
    if 0 <= p < n {
        assert(s[p] == p);
        assert(s.contains(p));
    }
}

/// True when a restart at instant `t` still lies inside the sliding
/// window of length `within` that ends at `now`.
pub open spec fn in_window(t: int, now: int, within: int) -> bool {
    t + within > now
}

/// How many recorded restart instants still lie inside the sliding
/// window of length `within` that ends at `now`.
pub open spec fn count_recent(times: Seq<u64>, now: int, within: int) -> int
    decreases times.len(),
{
    if times.len() == 0 {
        0
    } else {
        count_recent(times.drop_last(), now, within) + if in_window(
            times.last() as int,
            now,
            within,
        ) {
            1 as int
        } else {
            0 as int
        }
    }
}

/// The sliding-window restart budget of one logical child: at most
/// `max_restarts` restarts within any window of length `within`.
pub struct RestartWindow {
    times: Vec<u64>,
    max_restarts: usize,
    within: u64,
}

impl RestartWindow {
    /// The instants of the restarts recorded so far, oldest first.
    pub closed spec fn times(&self) -> Seq<u64> {
        self.times@
    }

    /// The largest number of restarts the window admits.
    pub closed spec fn max_restarts(&self) -> usize {
        self.max_restarts
    }

    /// The length of the sliding window.
    pub closed spec fn within(&self) -> u64 {
        self.within
    }

    /// The recorded instants never decrease: restarts are observed in
    /// clock order.
    pub closed spec fn wf(&self) -> bool {
        forall|i: int, j: int|
            0 <= i <= j < self.times@.len() ==> self.times@[i] <= self.times@[j]
    }

    /// A fresh budget with no restart recorded yet.
    pub fn new(max_restarts: usize, within: u64) -> (r: Self)
        ensures
            r.wf(),
            r.times() =~= Seq::<u64>::empty(),
            r.max_restarts() == max_restarts,
            r.within() == within,
    {
        RestartWindow { times: Vec::new(), max_restarts, within }
    }

    /// Records one more restart at instant `now`. Admits it when, this
    /// restart included, at most `max_restarts` restarts lie within the
    /// sliding window ending at `now`; otherwise refuses it with
    /// [`ActorError::RestartBudgetExceeded`] and leaves the record
    /// unchanged, and the caller escalates.
    pub fn note_restart(&mut self, now: u64) -> (r: Result<(), ActorError>)
        requires
            old(self).wf(),
            forall|i: int| 0 <= i < old(self).times().len() ==> old(self).times()[i] <= now,
        ensures
            final(self).wf(),
            final(self).max_restarts() == old(self).max_restarts(),
            final(self).within() == old(self).within(),
            r is Ok <==> count_recent(old(self).times(), now as int, old(self).within() as int) + 1
                <= old(self).max_restarts(),
            r is Ok ==> final(self).times() =~= old(self).times().push(now),
            r is Err ==> r == Result::<(), ActorError>::Err(ActorError::RestartBudgetExceeded)
                && final(self).times() =~= old(self).times(),
    {
        let ghost t0 = self.times@;
        let mut recent: usize = 0;
        let mut i: usize = 0;
        let n = self.times.len();
        while i < n
            invariant
                i <= n,
                n == self.times@.len(),
                self.times@ =~= t0,
                self.wf(),
                self.within == old(self).within(),
                self.max_restarts == old(self).max_restarts(),
                recent == count_recent(t0.take(i as int), now as int, self.within as int),
                recent <= i,
            decreases n - i,
        {
            let t = self.times[i];
            let recorded_in_window = if now >= self.within {
                t > now - self.within
            } else {
                true
            };
            proof {
                assert(t0.take(i as int + 1).drop_last() =~= t0.take(i as int));
                assert(t0.take(i as int + 1).last() == t0[i as int]);
                assert(recorded_in_window == in_window(
                    t as int,
                    now as int,
                    self.within as int,
                ));
            }
            if recorded_in_window {
                recent = recent + 1;
            }
            i = i + 1;
        }
        proof {
            assert(t0.take(n as int) =~= t0);
        }
        if recent >= self.max_restarts {
            Err(ActorError::RestartBudgetExceeded)
        } else {
            self.times.push(now);
            proof {
                assert forall|a: int, b: int|
                    0 <= a <= b < self.times@.len() implies self.times@[a]
                    <= self.times@[b] by {
                    if b < t0.len() {
                        assert(t0[a] <= t0[b]);
                    } else {
                        assert(self.times@[b] == now);
                        if a < t0.len() {
                            assert(old(self).times()[a] <= now);
                        }
                    }
                }
            }
            Ok(())
        }
    }
}

/// The well-formedness of every restart window of a supervisor: each
/// is sound, bounded by the clock, and configured like the supervisor.
pub open spec fn windows_ok(ws: Seq<RestartWindow>, max: usize, within: u64, clock: u64) -> bool {
    forall|a: int|
        0 <= a < ws.len() ==> (#[trigger] ws[a]).wf() && ws[a].max_restarts() == max
            && ws[a].within() == within && (forall|t: int|
            0 <= t < ws[a].times().len() ==> #[trigger] ws[a].times()[t] <= clock)
}

/// The supervisor state machine: a strategy, one restart budget per
/// logical child (by position, which survives restarts), and the
/// largest instant observed.
pub struct SupervisorState {
    strategy: SupervisionStrategy,
    windows: Vec<RestartWindow>,
    max_restarts: usize,
    within: u64,
    clock: u64,
}

impl SupervisorState {
    /// The supervisor's restart strategy.
    pub closed spec fn strategy(&self) -> SupervisionStrategy {
        self.strategy
    }

    /// One restart budget per logical child, in insertion order.
    pub closed spec fn windows(&self) -> Seq<RestartWindow> {
        self.windows@
    }

    /// The restart instants recorded for the logical child at a
    /// position.
    pub open spec fn child_times(&self, position: int) -> Seq<u64> {
        self.windows()[position].times()
    }

    /// The number of children the supervisor observes.
    pub open spec fn child_count(&self) -> int {
        self.windows().len() as int
    }

    /// The largest number of restarts any one logical child may see
    /// within the sliding window.
    pub closed spec fn max_restarts(&self) -> usize {
        self.max_restarts
    }

    /// The length of the sliding window.
    pub closed spec fn within(&self) -> u64 {
        self.within
    }

    /// The largest instant the supervisor has observed.
    pub closed spec fn clock(&self) -> u64 {
        self.clock
    }

    /// The internal invariant: every child's window is sound, bounded
    /// by the clock, and configured like the supervisor.
    pub closed spec fn wf(&self) -> bool {
        windows_ok(self.windows(), self.max_restarts(), self.within(), self.clock())
    }

    /// A fresh supervisor over `children` logical children, none of
    /// them restarted yet.
    pub fn new(
        strategy: SupervisionStrategy,
        children: usize,
        max_restarts: usize,
        within: u64,
    ) -> (r: Self)
        ensures
            r.wf(),
            r.strategy() == strategy,
            r.child_count() == children,
            r.max_restarts() == max_restarts,
            r.within() == within,
            r.clock() == 0,
            forall|p: int| 0 <= p < children ==> #[trigger] r.child_times(p) =~= Seq::<u64>::empty(),
    {
        let mut windows: Vec<RestartWindow> = Vec::new();
        let mut i: usize = 0;
        while i < children
            invariant
                i <= children,
                windows@.len() == i,
                forall|a: int|
                    0 <= a < i ==> (#[trigger] windows@[a]).wf() && windows@[a].max_restarts()
                        == max_restarts && windows@[a].within() == within
                        && windows@[a].times() =~= Seq::<u64>::empty(),
            decreases children - i,
        {
            windows.push(RestartWindow::new(max_restarts, within));
            i = i + 1;
        }
        SupervisorState { strategy, windows, max_restarts, within, clock: 0 }
    }

    /// One fault observed in the child at `faulted`, at instant `now`.
    ///
    /// The restart is charged to that logical child's sliding-window
    /// budget. Within budget, the result is the set of positions the
    /// strategy stops and restarts, in insertion order: the faulted
    /// child alone, every child, or the children at or after the
    /// faulted position. Over budget, the supervisor escalates with
    /// [`ActorError::RestartBudgetExceeded`] and becomes a faulted
    /// actor toward its own parent; no child is restarted.
    pub fn on_child_fault(&mut self, faulted: usize, now: u64) -> (r: Result<
        Vec<usize>,
        ActorError,
    >)
        requires
            old(self).wf(),
            faulted < old(self).child_count(),
            now >= old(self).clock(),
        ensures
            final(self).wf(),
            final(self).strategy() == old(self).strategy(),
            final(self).child_count() == old(self).child_count(),
            final(self).max_restarts() == old(self).max_restarts(),
            final(self).within() == old(self).within(),
            final(self).clock() == now,
            r is Ok <==> count_recent(
                old(self).child_times(faulted as int),
                now as int,
                old(self).within() as int,
            ) + 1 <= old(self).max_restarts(),
            r matches Ok(targets) ==> targets@.len() == restart_positions(
                old(self).strategy(),
                old(self).child_count(),
                faulted as int,
            ).len() && (forall|j: int|
                0 <= j < targets@.len() ==> targets@[j] as int == restart_positions(
                    old(self).strategy(),
                    old(self).child_count(),
                    faulted as int,
                )[j]) && final(self).child_times(faulted as int) =~= old(self).child_times(
                faulted as int,
            ).push(now),
            r is Err ==> r == Result::<Vec<usize>, ActorError>::Err(
                ActorError::RestartBudgetExceeded,
            ) && final(self).child_times(faulted as int) =~= old(self).child_times(
                faulted as int,
            ),
            forall|p: int|
                0 <= p < old(self).child_count() && p != faulted ==> #[trigger] final(self).child_times(p) =~= old(self).child_times(p),
    {
        self.clock = now;
        let n = self.windows.len();
        let ghost pre = self.windows@;
        let mut window = self.windows.remove(faulted);
        proof {
            pre.remove_ensures(faulted as int);
        }
        let verdict = window.note_restart(now);
        let outcome = match verdict {
            Ok(_) => Ok(restart_targets(self.strategy, n, faulted)),
            Err(e) => Err(e),
        };
        self.windows.insert(faulted, window);
        proof {
            assert forall|p: int|
                0 <= p < self.windows@.len() implies #[trigger] self.windows@[p] == if p
                < faulted as int {
                pre[p]
            } else if p == faulted as int {
                window
            } else {
                pre[p]
            } by {
                let removed = pre.remove(faulted as int);
                if p < faulted as int {
                    assert(self.windows@[p] == removed[p]);
                } else if p > faulted as int {
                    assert(self.windows@[p] == removed[p - 1]);
                }
            }
            assert(self.windows@.len() == pre.len());
            assert forall|a: int|
                0 <= a < self.windows@.len() implies (#[trigger] self.windows@[a]).wf()
                && self.windows@[a].max_restarts() == self.max_restarts
                && self.windows@[a].within() == self.within && (forall|t: int|
                0 <= t < self.windows@[a].times().len()
                    ==> #[trigger] self.windows@[a].times()[t] <= self.clock) by {
                if a != faulted as int {
                    assert(pre[a].wf());
                    assert forall|t: int|
                        0 <= t < self.windows@[a].times().len()
                            implies #[trigger] self.windows@[a].times()[t] <= self.clock by {
                        assert(pre[a].times()[t] <= old(self).clock());
                    }
                }
            }
        }
        outcome
    }
}

} // verus!

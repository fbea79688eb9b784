//! The bookkeeping of the cooperative, single-threaded fiber scheduler: a slab of live
//! fibers indexed by id (with a free list for reuse), the ready queue, and the timers of
//! fibers parked on a deadline.
//!
//! The run loop takes the next ready fiber out of its slot, resumes it, and hands it
//! back: parked with a deadline (it goes onto the timers) or finished (its slot is
//! freed). When nothing is ready, it waits until the nearest deadline and moves every
//! due timer back to the ready queue; with nothing ready and no timers, every fiber has
//! finished. Deadlines are clock ticks of a monotonic clock.

use vstd::prelude::*;
use std::collections::VecDeque;

verus! {

broadcast use vstd::std_specs::vec::group_vec_axioms;

/// No id occurs twice.
pub open spec fn distinct(s: Seq<usize>) -> bool {
    forall|i: int, j: int| 0 <= i < j < s.len() ==> #[trigger] s[i] != #[trigger] s[j]
}

/// The ids of a list of timers.
pub open spec fn timer_ids(ts: Seq<(u64, usize)>) -> Seq<usize> {
    ts.map_values(|t: (u64, usize)| t.1)
}

/// The earliest deadline among the timers.
pub open spec fn earliest(ts: Seq<(u64, usize)>) -> u64
    recommends
        ts.len() > 0,
    decreases ts.len(),
{
    if ts.len() <= 1 {
        ts[0].0
    } else {
        let m = earliest(ts.drop_last());
        if ts.last().0 < m {
            ts.last().0
        } else {
            m
        }
    }
}

/// How long to wait from `now` for `deadline`: nothing once it has come.
pub open spec fn wait_until(deadline: u64, now: u64) -> u64 {
    if deadline > now {
        (deadline - now) as u64
    } else {
        0u64
    }
}

/// The earliest deadline is one of the timers' deadlines, and no timer's deadline is
/// earlier: the scheduler waits for the nearest deadline, so no fiber oversleeps.
pub proof fn law_earliest_is_the_nearest_deadline(ts: Seq<(u64, usize)>)
    requires
        ts.len() > 0,
    ensures
        forall|j: int| 0 <= j < ts.len() ==> earliest(ts) <= #[trigger] ts[j].0,
        exists|j: int| 0 <= j < ts.len() && earliest(ts) == #[trigger] ts[j].0,
    decreases ts.len(),
{
    if ts.len() > 1 {
        let t = ts.drop_last();
        law_earliest_is_the_nearest_deadline(t);
        assert forall|j: int| 0 <= j < ts.len() implies earliest(ts) <= #[trigger] ts[j].0 by {
            if j < ts.len() - 1 {
                assert(ts[j] == t[j]);
            }
        }
        if earliest(ts) == earliest(t) {
            let k = choose|k: int| 0 <= k < t.len() && earliest(t) == #[trigger] t[k].0;
            assert(ts[k] == t[k]);
        } else {
            assert(earliest(ts) == ts[ts.len() - 1].0);
        }
    } else {
        assert(earliest(ts) == ts[0].0);
    }
}

/// The cooperative scheduler's state; `F` is a fiber.
pub struct Scheduler<F> {
    /// Live fibers indexed by id; `None` marks a free slot or the fiber now running.
    fibers: Vec<Option<F>>,
    /// Free slots, reused last-freed first.
    free: Vec<usize>,
    /// Fibers ready to run, in order.
    ready: VecDeque<usize>,
    /// Fibers parked until a deadline: `(deadline, id)`.
    timers: Vec<(u64, usize)>,
}

impl<F> Scheduler<F> {
    /// The slots: a parked or ready fiber, or `None`.
    pub closed spec fn slots(&self) -> Seq<Option<F>> {
        self.fibers@
    }

    /// The ready queue, front first.
    pub closed spec fn ready_ids(&self) -> Seq<usize> {
        self.ready@
    }

    /// The parked fibers' timers.
    pub closed spec fn timer_list(&self) -> Seq<(u64, usize)> {
        self.timers@
    }

    /// The free slots; the last one is reused first.
    pub closed spec fn free_ids(&self) -> Seq<usize> {
        self.free@
    }

    /// Whether fiber `id` is the one taken out to run: its slot is empty but not free.
    pub open spec fn is_running(&self, id: usize) -> bool {
        &&& id < self.slots().len()
        &&& self.slots()[id as int] is None
        &&& !self.free_ids().contains(id)
    }

    /// Every fiber in a slot is ready or parked on a timer: none is lost.
    pub open spec fn placed(&self) -> bool {
        forall|k: int|
            0 <= k < self.slots().len() && (#[trigger] self.slots()[k]) is Some ==> self.ready_ids().contains(
                k as usize,
            ) || timer_ids(self.timer_list()).contains(k as usize)
    }

    /// The bookkeeping is well formed and no fiber is lost.
    pub open spec fn wf(&self) -> bool {
        self.consistent() && self.placed()
    }

    /// Every ready or parked id holds a fiber, and is ready or parked only once; every
    /// free id is an empty slot, listed once.
    pub open spec fn consistent(&self) -> bool {
        &&& forall|i: int|
            0 <= i < self.free_ids().len() ==> {
                let id = #[trigger] self.free_ids()[i];
                id < self.slots().len() && self.slots()[id as int] is None
            }
        &&& distinct(self.free_ids())
        &&& forall|i: int|
            0 <= i < self.ready_ids().len() ==> {
                let id = #[trigger] self.ready_ids()[i];
                id < self.slots().len() && self.slots()[id as int] is Some
            }
        &&& distinct(self.ready_ids())
        &&& forall|i: int|
            0 <= i < self.timer_list().len() ==> {
                let id = (#[trigger] self.timer_list()[i]).1;
                id < self.slots().len() && self.slots()[id as int] is Some
            }
        &&& distinct(timer_ids(self.timer_list()))
        &&& forall|i: int, j: int|
            0 <= i < self.ready_ids().len() && 0 <= j < self.timer_list().len() ==> #[trigger] self.ready_ids()[i]
                != (#[trigger] self.timer_list()[j]).1
    }

    /// A scheduler with no fibers.
    pub fn new() -> (r: Scheduler<F>)
        ensures
            r.wf(),
            r.slots() == Seq::<Option<F>>::empty(),
            r.ready_ids() == Seq::<usize>::empty(),
            r.timer_list() == Seq::<(u64, usize)>::empty(),
            r.free_ids() == Seq::<usize>::empty(),
    {
        Scheduler { fibers: Vec::new(), free: Vec::new(), ready: VecDeque::new(), timers: Vec::new() }
    }

    /// Put `fiber` into a slot: the most recently freed one, or a new one at the end.
    /// Returns the fiber's id. The fiber is not yet ready: the caller queues it.
    fn alloc_slot(&mut self, fiber: F) -> (id: usize)
        requires
            old(self).wf(),
        ensures
            final(self).consistent(),
            final(self).ready_ids() == old(self).ready_ids(),
            final(self).timer_list() == old(self).timer_list(),
            old(self).free_ids().len() > 0 ==> {
                &&& id == old(self).free_ids().last()
                &&& final(self).free_ids() == old(self).free_ids().drop_last()
                &&& final(self).slots() == old(self).slots().update(id as int, Some(fiber))
            },
            old(self).free_ids().len() == 0 ==> {
                &&& id == old(self).slots().len()
                &&& final(self).free_ids() == old(self).free_ids()
                &&& final(self).slots() == old(self).slots().push(Some(fiber))
            },
            !old(self).ready_ids().contains(id),
            !timer_ids(old(self).timer_list()).contains(id),
    {
        let ghost old_free = self.free@;
        match self.free.pop() {
            Some(id) => {
                proof {
                    assert(old_free[old_free.len() - 1] == id);
                }
                self.fibers.set(id, Some(fiber));
                proof {
                    assert forall|i: int| 0 <= i < self.free@.len() implies #[trigger] self.free@[i]
                        != id by {
                        assert(old_free[i] != old_free[old_free.len() - 1]);
                    }
                    assert forall|i: int| 0 <= i < self.ready@.len() implies #[trigger] self.ready@[i]
                        != id by {}
                    assert forall|i: int| 0 <= i < self.timers@.len() implies (
                    #[trigger] self.timers@[i]).1 != id by {}
                    assert(!timer_ids(self.timers@).contains(id));
                }
                id
            },
            None => {
                self.fibers.push(Some(fiber));
                let id = self.fibers.len() - 1;
                proof {
                    assert(!timer_ids(self.timers@).contains(id));
                }
                id
            },
        }
    }

    /// Spawn `fiber`: give it a slot and enqueue it as ready. Returns its id.
    pub fn spawn(&mut self, fiber: F) -> (id: usize)
        requires
            old(self).wf(),
        ensures
            final(self).wf(),
            final(self).ready_ids() == old(self).ready_ids().push(id),
            final(self).timer_list() == old(self).timer_list(),
            final(self).slots()[id as int] == Some(fiber),
            id < final(self).slots().len(),
            old(self).free_ids().len() > 0 ==> {
                &&& id == old(self).free_ids().last()
                &&& final(self).free_ids() == old(self).free_ids().drop_last()
                &&& final(self).slots() == old(self).slots().update(id as int, Some(fiber))
            },
            old(self).free_ids().len() == 0 ==> {
                &&& id == old(self).slots().len()
                &&& final(self).free_ids() == old(self).free_ids()
                &&& final(self).slots() == old(self).slots().push(Some(fiber))
            },
    {
        let id = self.alloc_slot(fiber);
        self.ready.push_back(id);
        proof {
            assert(self.ready@.contains(id)) by {
                assert(self.ready@[self.ready@.len() - 1] == id);
            }
            assert forall|k: int|
                0 <= k < self.fibers@.len() && (#[trigger] self.fibers@[k]) is Some implies self.ready@.contains(
                k as usize,
            ) || timer_ids(self.timers@).contains(k as usize) by {
                if k != id {
                    assert(old(self).fibers@[k] is Some);
                    if old(self).ready@.contains(k as usize) {
                        let i = choose|i: int| 0 <= i < old(self).ready@.len() && old(self).ready@[i] == k as usize;
                        assert(self.ready@[i] == k as usize);
                    }
                }
            }
            assert forall|i: int, j: int|
                0 <= i < self.ready@.len() && 0 <= j < self.timers@.len() implies #[trigger] self.ready@[i]
                != (#[trigger] self.timers@[j]).1 by {
                if i == self.ready@.len() - 1 {
                    assert(timer_ids(self.timers@)[j] == self.timers@[j].1);
                }
            }
        }
        id
    }

    /// Take the next ready fiber out of its slot to run it: the front of the ready queue.
    pub fn next_ready(&mut self) -> (r: Option<(usize, F)>)
        requires
            old(self).wf(),
        ensures
            final(self).wf(),
            final(self).timer_list() == old(self).timer_list(),
            final(self).free_ids() == old(self).free_ids(),
            match r {
                Some((id, fiber)) => {
                    &&& old(self).ready_ids().len() > 0
                    &&& id == old(self).ready_ids()[0]
                    &&& old(self).slots()[id as int] == Some(fiber)
                    &&& final(self).ready_ids() == old(self).ready_ids().drop_first()
                    &&& final(self).slots() == old(self).slots().update(id as int, None)
                    &&& final(self).is_running(id)
                },
                None => old(self).ready_ids().len() == 0 && final(self).ready_ids() == old(self).ready_ids()
                    && final(self).slots() == old(self).slots(),
            },
    {
        match self.ready.pop_front() {
            Some(id) => {
                let mut slot: Option<F> = None;
                std::mem::swap(&mut slot, &mut self.fibers[id]);
                let fiber = slot.unwrap();
                proof {
                    assert(self.ready@ =~= old(self).ready@.drop_first());
                    assert forall|i: int| 0 <= i < self.free@.len() implies #[trigger] self.free@[i]
                        != id by {}
                    assert forall|i: int| 0 <= i < self.timers@.len() implies (
                    #[trigger] self.timers@[i]).1 != id by {
                        assert(old(self).ready@[0] != old(self).timers@[i].1);
                    }
                    assert forall|i: int| 0 <= i < self.ready@.len() implies #[trigger] self.ready@[i]
                        != id by {
                        assert(old(self).ready@[i + 1] != old(self).ready@[0]);
                    }
                    assert forall|k: int|
                        0 <= k < self.fibers@.len() && (#[trigger] self.fibers@[k]) is Some implies self.ready@.contains(
                        k as usize,
                    ) || timer_ids(self.timers@).contains(k as usize) by {
                        assert(k != id);
                        assert(old(self).fibers@[k] is Some);
                        assert(old(self).fibers@.len() == old(self).fibers.len());
                        assert(k as usize == k);
                        if old(self).ready@.contains(k as usize) {
                            let i = choose|i: int|
                                0 <= i < old(self).ready@.len() && old(self).ready@[i] == k as usize;
                            if i == 0 {
                                assert(old(self).ready@[0] == id);
                                assert(k as usize == id);
                            }
                            assert(old(self).ready@.drop_first()[i - 1] == old(self).ready@[i]);
                            assert(self.ready@[i - 1] == k as usize);
                            assert(self.ready@.contains(k as usize));
                        }
                    }
                }
                Some((id, fiber))
            },
            None => None,
        }
    }

    /// Hand back the running fiber `id`, parked until `deadline`.
    pub fn park(&mut self, id: usize, fiber: F, deadline: u64)
        requires
            old(self).wf(),
            old(self).is_running(id),
        ensures
            final(self).wf(),
            final(self).slots() == old(self).slots().update(id as int, Some(fiber)),
            final(self).timer_list() == old(self).timer_list().push((deadline, id)),
            final(self).ready_ids() == old(self).ready_ids(),
            final(self).free_ids() == old(self).free_ids(),
    {
        self.fibers.set(id, Some(fiber));
        self.timers.push((deadline, id));
        proof {
            assert forall|i: int| 0 <= i < self.ready@.len() implies #[trigger] self.ready@[i]
                != id by {}
            assert forall|i: int| 0 <= i < old(self).timers@.len() implies (
            #[trigger] old(self).timers@[i]).1 != id by {}
            assert forall|a: int, b: int|
                0 <= a < b < timer_ids(self.timers@).len() implies #[trigger] timer_ids(
                self.timers@,
            )[a] != #[trigger] timer_ids(self.timers@)[b] by {
                if b == self.timers@.len() - 1 {
                    assert(timer_ids(self.timers@)[a] == old(self).timers@[a].1);
                } else {
                    assert(timer_ids(self.timers@)[a] == timer_ids(old(self).timers@)[a]);
                    assert(timer_ids(self.timers@)[b] == timer_ids(old(self).timers@)[b]);
                }
            }
            assert forall|i: int| 0 <= i < self.free@.len() implies #[trigger] self.free@[i]
                != id by {}
            assert(timer_ids(self.timers@)[self.timers@.len() - 1] == id);
            assert forall|k: int|
                0 <= k < self.fibers@.len() && (#[trigger] self.fibers@[k]) is Some implies self.ready@.contains(
                k as usize,
            ) || timer_ids(self.timers@).contains(k as usize) by {
                if k != id {
                    assert(old(self).fibers@[k] is Some);
                    if timer_ids(old(self).timers@).contains(k as usize) {
                        let j = choose|j: int|
                            0 <= j < timer_ids(old(self).timers@).len() && timer_ids(old(self).timers@)[j]
                                == k as usize;
                        assert(timer_ids(self.timers@)[j] == timer_ids(old(self).timers@)[j]);
                    }
                }
            }
        }
    }

    /// The running fiber `id` has finished: free its slot for reuse.
    pub fn finish(&mut self, id: usize)
        requires
            old(self).wf(),
            old(self).is_running(id),
        ensures
            final(self).wf(),
            final(self).slots() == old(self).slots(),
            final(self).free_ids() == old(self).free_ids().push(id),
            final(self).ready_ids() == old(self).ready_ids(),
            final(self).timer_list() == old(self).timer_list(),
    {
        self.free.push(id);
    }

    /// How long to wait for the nearest deadline, from `now`: `None` when no fiber is
    /// parked on a timer (then, with nothing ready, every fiber has finished).
    pub fn next_timeout(&self, now: u64) -> (r: Option<u64>)
        ensures
            self.timer_list().len() == 0 ==> r is None,
            self.timer_list().len() > 0 ==> r == Some(
                if earliest(self.timer_list()) > now {
                    (earliest(self.timer_list()) - now) as u64
                } else {
                    0u64
                },
            ),
            forall|j: int|
                0 <= j < self.timer_list().len() ==> (r matches Some(w) && w <= wait_until(
                    #[trigger] self.timer_list()[j].0,
                    now,
                )),
            self.timer_list().len() > 0 ==> exists|j: int|
                0 <= j < self.timer_list().len() && r == Some(
                    wait_until(#[trigger] self.timer_list()[j].0, now),
                ),
    {
        proof {
            if self.timers@.len() > 0 {
                law_earliest_is_the_nearest_deadline(self.timers@);
            }
        }
        if self.timers.len() == 0 {
            return None;
        }
        let mut m = self.timers[0].0;
        let mut i: usize = 1;
        assert(self.timers@.take(1).drop_last().len() == 0);
        while i < self.timers.len()
            invariant
                1 <= i <= self.timers@.len(),
                m == earliest(self.timers@.take(i as int)),
            decreases self.timers@.len() - i,
        {
            assert(self.timers@.take(i + 1).drop_last() =~= self.timers@.take(i as int));
            if self.timers[i].0 < m {
                m = self.timers[i].0;
            }
            i += 1;
        }
        assert(self.timers@.take(i as int) =~= self.timers@);
        Some(
            if m > now {
                m - now
            } else {
                0
            },
        )
    }

    /// Move every timer due by `now` back to the ready queue. The timers are swept
    /// front to back; a due timer is taken out by moving the last timer into its place
    /// (which is then looked at in turn), and its fiber is queued.
    pub fn wake_due(&mut self, now: u64)
        requires
            old(self).wf(),
        ensures
            final(self).wf(),
            final(self).slots() == old(self).slots(),
            final(self).free_ids() == old(self).free_ids(),
            final(self).ready_ids() == old(self).ready_ids() + sweep(
                old(self).timer_list(),
                0,
                now,
            ).1,
            final(self).timer_list() == sweep(old(self).timer_list(), 0, now).0,
    {
        let ghost ts = self.timers@;
        let ghost r0 = self.ready@;
        let mut i: usize = 0;
        assert(self.ready@.skip(r0.len() as int) =~= Seq::<usize>::empty());
        while i < self.timers.len()
            invariant
                i <= self.timers@.len(),
                self.fibers@ == old(self).fibers@,
                self.free@ == old(self).free@,
                ts == old(self).timers@,
                r0 == old(self).ready@,
                r0.len() <= self.ready@.len(),
                self.ready@.take(r0.len() as int) == r0,
                sweep(ts, 0, now) == (
                    sweep(self.timers@, i as nat, now).0,
                    self.ready@.skip(r0.len() as int) + sweep(self.timers@, i as nat, now).1,
                ),
            decreases self.timers@.len() - i,
        {
            if self.timers[i].0 <= now {
                let ghost cur = self.timers@;
                let ghost woken = self.ready@.skip(r0.len() as int);
                let (_, id) = self.timers.swap_remove(i);
                self.ready.push_back(id);
                proof {
                    assert(self.timers@ == cur.update(i as int, cur.last()).drop_last());
                    assert(self.ready@.take(r0.len() as int) =~= r0);
                    assert(self.ready@.skip(r0.len() as int) =~= woken.push(id));
                    assert(woken + (seq![id] + sweep(self.timers@, i as nat, now).1) =~= woken.push(
                        id,
                    ) + sweep(self.timers@, i as nat, now).1);
                }
            } else {
                i += 1;
            }
        }
        proof {
            assert(self.ready@ =~= r0 + sweep(ts, 0, now).1);
            lemma_sweep(ts, 0, now);
            self.lemma_wake_wf(ts, r0, now);
        }
    }

    /// The state after waking the due timers is well formed.
    proof fn lemma_wake_wf(&self, ts: Seq<(u64, usize)>, r0: Seq<usize>, now: u64)
        requires
            self.ready@ == r0 + sweep(ts, 0, now).1,
            self.timers@ == sweep(ts, 0, now).0,
            forall|x: (u64, usize)| #[trigger] sweep(ts, 0, now).0.contains(x) ==> ts.contains(x),
            forall|id: usize|
                #[trigger] sweep(ts, 0, now).1.contains(id) ==> exists|j: int|
                    0 <= j < ts.len() && ts[j].1 == id && ts[j].0 <= now,
            forall|x: (u64, usize)| #[trigger] sweep(ts, 0, now).0.contains(x) ==> x.0 > now,
            distinct(sweep(ts, 0, now).1),
            distinct(timer_ids(sweep(ts, 0, now).0)),
            forall|i: int|
                0 <= i < self.free@.len() ==> {
                    let id = #[trigger] self.free@[i];
                    id < self.fibers@.len() && self.fibers@[id as int] is None
                },
            distinct(self.free@),
            forall|i: int|
                0 <= i < r0.len() ==> {
                    let id = #[trigger] r0[i];
                    id < self.fibers@.len() && self.fibers@[id as int] is Some
                },
            distinct(r0),
            forall|i: int|
                0 <= i < ts.len() ==> {
                    let id = (#[trigger] ts[i]).1;
                    id < self.fibers@.len() && self.fibers@[id as int] is Some
                },
            distinct(timer_ids(ts)),
            forall|i: int, j: int|
                0 <= i < r0.len() && 0 <= j < ts.len() ==> #[trigger] r0[i] != (#[trigger] ts[j]).1,
            forall|k: int|
                0 <= k < self.fibers@.len() && (#[trigger] self.fibers@[k]) is Some ==> r0.contains(
                    k as usize,
                ) || timer_ids(ts).contains(k as usize),
            forall|j: int|
                0 <= j < ts.len() && ts[j].0 > now ==> sweep(ts, 0, now).0.contains(#[trigger] ts[j]),
            forall|j: int|
                0 <= j < ts.len() && ts[j].0 <= now ==> sweep(ts, 0, now).1.contains(#[trigger] ts[j].1),
        ensures
            self.wf(),
    {
        let rest = sweep(ts, 0, now).0;
        let woken = sweep(ts, 0, now).1;
        assert forall|k: int|
            0 <= k < self.fibers@.len() && (#[trigger] self.fibers@[k]) is Some implies self.ready@.contains(
            k as usize,
        ) || timer_ids(self.timers@).contains(k as usize) by {
            if r0.contains(k as usize) {
                let i = choose|i: int| 0 <= i < r0.len() && r0[i] == k as usize;
                assert(self.ready@[i] == k as usize);
            } else {
                let j = choose|j: int| 0 <= j < timer_ids(ts).len() && timer_ids(ts)[j] == k as usize;
                assert(ts[j].1 == k as usize);
                if ts[j].0 <= now {
                    assert(woken.contains(ts[j].1));
                    let m = choose|m: int| 0 <= m < woken.len() && woken[m] == ts[j].1;
                    assert(self.ready@[r0.len() + m] == k as usize);
                } else {
                    assert(rest.contains(ts[j]));
                    let m = choose|m: int| 0 <= m < rest.len() && rest[m] == ts[j];
                    assert(timer_ids(self.timers@)[m] == k as usize);
                }
            }
        }
        assert forall|i: int| 0 <= i < self.ready@.len() implies {
            let id = #[trigger] self.ready@[i];
            id < self.fibers@.len() && self.fibers@[id as int] is Some
        } by {
            if i >= r0.len() {
                let k = i - r0.len();
                assert(self.ready@[i] == woken[k]);
                assert(woken.contains(woken[k]));
            }
        }
        assert(distinct(self.ready@)) by {
            assert forall|a: int, b: int| 0 <= a < b < self.ready@.len() implies #[trigger] self.ready@[a]
                != #[trigger] self.ready@[b] by {
                if b >= r0.len() {
                    let kb = b - r0.len();
                    assert(self.ready@[b] == woken[kb]);
                    if a >= r0.len() {
                        assert(self.ready@[a] == woken[a - r0.len()]);
                    } else {
                        assert(woken.contains(woken[kb]));
                        let j = choose|j: int|
                            0 <= j < ts.len() && ts[j].1 == woken[kb] && ts[j].0 <= now;
                        assert(r0[a] != ts[j].1);
                    }
                }
            }
        }
        assert forall|i: int| 0 <= i < self.timers@.len() implies {
            let id = (#[trigger] self.timers@[i]).1;
            id < self.fibers@.len() && self.fibers@[id as int] is Some
        } by {
            assert(rest.contains(rest[i]));
        }
        assert forall|i: int, j: int|
            0 <= i < self.ready@.len() && 0 <= j < self.timers@.len() implies #[trigger] self.ready@[i]
            != (#[trigger] self.timers@[j]).1 by {
            assert(rest.contains(rest[j]));
            let jp = choose|jj: int| 0 <= jj < ts.len() && ts[jj] == rest[j];
            if i < r0.len() {
                assert(r0[i] != ts[jp].1);
            } else {
                let k = i - r0.len();
                assert(self.ready@[i] == woken[k]);
                assert(woken.contains(woken[k]));
                let jd = choose|jj: int| 0 <= jj < ts.len() && ts[jj].1 == woken[k] && ts[jj].0 <= now;
                assert(ts[jp].0 > now);
                assert(timer_ids(ts)[jd] == ts[jd].1);
                assert(timer_ids(ts)[jp] == ts[jp].1);
            }
        }
    }
}

/// The timers with the one at `i` taken out by moving the last into its place.
pub open spec fn swap_removed(ts: Seq<(u64, usize)>, i: int) -> Seq<(u64, usize)> {
    ts.update(i, ts.last()).drop_last()
}

/// Sweep the timers from position `i` on: a due timer is taken out (the last one moves
/// into its place and is looked at next) and its id woken; a pending one is kept.
/// Returns the timers left and the ids woken, in waking order.
pub open spec fn sweep(ts: Seq<(u64, usize)>, i: nat, now: u64) -> (Seq<(u64, usize)>, Seq<usize>)
    decreases ts.len() - i,
{
    if i >= ts.len() {
        (ts, Seq::empty())
    } else if ts[i as int].0 <= now {
        let rest = sweep(swap_removed(ts, i as int), i, now);
        (rest.0, seq![ts[i as int].1] + rest.1)
    } else {
        sweep(ts, i + 1, now)
    }
}

/// Where an element of the shortened timers came from.
proof fn lemma_swap_removed(ts: Seq<(u64, usize)>, i: int)
    requires
        0 <= i < ts.len(),
    ensures
        swap_removed(ts, i).len() == ts.len() - 1,
        forall|k: int|
            0 <= k < ts.len() - 1 ==> #[trigger] swap_removed(ts, i)[k] == if k == i {
                ts[ts.len() - 1]
            } else {
                ts[k]
            },
        forall|j: int|
            0 <= j < ts.len() && j != i ==> swap_removed(ts, i).contains(#[trigger] ts[j]),
        forall|x: (u64, usize)| #[trigger] swap_removed(ts, i).contains(x) ==> ts.contains(x),
{
    let r = swap_removed(ts, i);
    assert forall|j: int| 0 <= j < ts.len() && j != i implies r.contains(#[trigger] ts[j]) by {
        if j == ts.len() - 1 {
            assert(r[i] == ts[j]);
        } else {
            assert(r[j] == ts[j]);
        }
    }
    assert forall|x: (u64, usize)| #[trigger] r.contains(x) implies ts.contains(x) by {
        let k = choose|k: int| 0 <= k < r.len() && r[k] == x;
        if k == i {
            assert(ts[ts.len() - 1] == x);
        } else {
            assert(ts[k] == x);
        }
    }
}

/// What a sweep leaves and wakes: the timers left are the pending ones, the ids woken
/// are those of the due ones, each once.
proof fn lemma_sweep(ts: Seq<(u64, usize)>, i: nat, now: u64)
    requires
        i <= ts.len(),
        forall|k: int| 0 <= k < i ==> (#[trigger] ts[k]).0 > now,
        distinct(timer_ids(ts)),
    ensures
        forall|x: (u64, usize)| #[trigger] sweep(ts, i, now).0.contains(x) ==> ts.contains(x),
        forall|x: (u64, usize)| #[trigger] sweep(ts, i, now).0.contains(x) ==> x.0 > now,
        forall|j: int|
            0 <= j < ts.len() && ts[j].0 > now ==> sweep(ts, i, now).0.contains(#[trigger] ts[j]),
        forall|id: usize|
            #[trigger] sweep(ts, i, now).1.contains(id) ==> exists|j: int|
                0 <= j < ts.len() && ts[j].1 == id && ts[j].0 <= now,
        forall|j: int|
            0 <= j < ts.len() && ts[j].0 <= now ==> sweep(ts, i, now).1.contains(#[trigger] ts[j].1),
        distinct(sweep(ts, i, now).1),
        distinct(timer_ids(sweep(ts, i, now).0)),
    decreases ts.len() - i,
{
    if i >= ts.len() {
        assert forall|x: (u64, usize)| #[trigger] ts.contains(x) implies x.0 > now by {
            let k = choose|k: int| 0 <= k < ts.len() && ts[k] == x;
            assert(ts[k].0 > now);
        }
    } else if ts[i as int].0 <= now {
        let t2 = swap_removed(ts, i as int);
        lemma_swap_removed(ts, i as int);
        assert forall|k: int| 0 <= k < i implies (#[trigger] t2[k]).0 > now by {
            assert(t2[k] == ts[k]);
        }
        // Each position of the shortened list comes from a distinct position of `ts`.
        let src = |k: int| if k == i { ts.len() - 1 } else { k };
        assert forall|k: int| 0 <= k < t2.len() implies #[trigger] timer_ids(t2)[k]
            == timer_ids(ts)[src(k)] && src(k) != i && 0 <= src(k) < ts.len() by {
            assert(t2[k] == ts[src(k)]);
        }
        assert(distinct(timer_ids(t2))) by {
            assert forall|a: int, b: int| 0 <= a < b < timer_ids(t2).len() implies #[trigger] timer_ids(
                t2,
            )[a] != #[trigger] timer_ids(t2)[b] by {
                assert(timer_ids(t2)[a] == timer_ids(ts)[src(a)]);
                assert(timer_ids(t2)[b] == timer_ids(ts)[src(b)]);
            }
        }
        lemma_sweep(t2, i, now);
        let r = sweep(t2, i, now);
        let id = ts[i as int].1;
        assert(sweep(ts, i, now).1 == seq![id] + r.1);
        assert forall|j: int| 0 <= j < ts.len() && ts[j].0 > now implies sweep(ts, i, now).0.contains(
            #[trigger] ts[j],
        ) by {
            assert(t2.contains(ts[j]));
            let k = choose|k: int| 0 <= k < t2.len() && t2[k] == ts[j];
            assert(r.0.contains(t2[k]));
        }
        assert forall|x: usize| #[trigger] sweep(ts, i, now).1.contains(x) implies exists|j: int|
            0 <= j < ts.len() && ts[j].1 == x && ts[j].0 <= now by {
            let w = sweep(ts, i, now).1;
            let k = choose|k: int| 0 <= k < w.len() && w[k] == x;
            if k == 0 {
                assert(ts[i as int].1 == x);
            } else {
                assert(r.1[k - 1] == x);
                assert(r.1.contains(x));
                let j2 = choose|j2: int| 0 <= j2 < t2.len() && t2[j2].1 == x && t2[j2].0 <= now;
                assert(ts[src(j2)] == t2[j2]);
            }
        }
        assert forall|j: int| 0 <= j < ts.len() && ts[j].0 <= now implies sweep(
            ts,
            i,
            now,
        ).1.contains(#[trigger] ts[j].1) by {
            let w = sweep(ts, i, now).1;
            if j == i {
                assert(w[0] == ts[j].1);
            } else {
                assert(t2.contains(ts[j]));
                let k = choose|k: int| 0 <= k < t2.len() && t2[k] == ts[j];
                assert(r.1.contains(t2[k].1));
                let m = choose|m: int| 0 <= m < r.1.len() && r.1[m] == t2[k].1;
                assert(w[m + 1] == r.1[m]);
            }
        }
        assert(distinct(sweep(ts, i, now).1)) by {
            let w = sweep(ts, i, now).1;
            assert forall|a: int, b: int| 0 <= a < b < w.len() implies #[trigger] w[a] != #[trigger] w[b] by {
                assert(w[b] == r.1[b - 1]);
                if a == 0 {
                    assert(r.1.contains(r.1[b - 1]));
                    let j2 = choose|j2: int|
                        0 <= j2 < t2.len() && t2[j2].1 == r.1[b - 1] && t2[j2].0 <= now;
                    assert(timer_ids(t2)[j2] == timer_ids(ts)[src(j2)]);
                    assert(timer_ids(ts)[i as int] == id);
                } else {
                    assert(w[a] == r.1[a - 1]);
                }
            }
        }
    } else {
        assert forall|k: int| 0 <= k < i + 1 implies (#[trigger] ts[k]).0 > now by {}
        lemma_sweep(ts, i + 1, now);
    }
}

/// A wake moves exactly the due timers: a parked fiber is queued exactly when its
/// deadline has come, at most once, and every other timer stays parked.
pub proof fn law_wake_takes_exactly_the_due(ts: Seq<(u64, usize)>, now: u64)
    requires
        distinct(timer_ids(ts)),
    ensures
        forall|j: int|
            0 <= j < ts.len() ==> (sweep(ts, 0, now).1.contains(#[trigger] ts[j].1) <==> ts[j].0
                <= now),
        forall|j: int|
            0 <= j < ts.len() ==> (sweep(ts, 0, now).0.contains(#[trigger] ts[j]) <==> ts[j].0
                > now),
        forall|x: (u64, usize)| #[trigger] sweep(ts, 0, now).0.contains(x) ==> ts.contains(x),
        distinct(sweep(ts, 0, now).1),
{
    lemma_sweep(ts, 0, now);
    assert forall|j: int| 0 <= j < ts.len() && sweep(ts, 0, now).1.contains(
        #[trigger] ts[j].1,
    ) implies ts[j].0 <= now by {
        let j2 = choose|j2: int| 0 <= j2 < ts.len() && ts[j2].1 == ts[j].1 && ts[j2].0 <= now;
        assert(timer_ids(ts)[j] == ts[j].1);
        assert(timer_ids(ts)[j2] == ts[j2].1);
    }
}

/// Timers wake in deadline order: when a wake queues one fiber, it queues every fiber
/// parked with an earlier or equal deadline too.
pub proof fn law_earlier_deadlines_wake_first(ts: Seq<(u64, usize)>, now: u64, a: int, b: int)
    requires
        distinct(timer_ids(ts)),
        0 <= a < ts.len(),
        0 <= b < ts.len(),
        ts[a].0 <= ts[b].0,
        sweep(ts, 0, now).1.contains(ts[b].1),
    ensures
        sweep(ts, 0, now).1.contains(ts[a].1),
{
    law_wake_takes_exactly_the_due(ts, now);
}

/// No fiber is lost: every fiber in a slot is ready or parked on a timer, so when
/// nothing is ready and no timer is pending, no slot holds a fiber; the run loop stops
/// only once every fiber has finished.
pub proof fn law_no_fiber_is_lost<F>(s: Scheduler<F>)
    requires
        s.wf(),
        s.ready_ids().len() == 0,
        s.timer_list().len() == 0,
    ensures
        forall|k: int| 0 <= k < s.slots().len() ==> (#[trigger] s.slots()[k]) is None,
{
    assert forall|k: int| 0 <= k < s.slots().len() implies (#[trigger] s.slots()[k]) is None by {
        if s.slots()[k] is Some {
            assert(s.ready_ids().contains(k as usize) || timer_ids(s.timer_list()).contains(
                k as usize,
            ));
            assert(timer_ids(s.timer_list()).len() == 0);
        }
    }
}

/// A fiber is never both ready and parked on a timer.
pub proof fn law_parked_fiber_is_not_ready<F>(s: Scheduler<F>, id: usize)
    requires
        s.wf(),
        timer_ids(s.timer_list()).contains(id),
    ensures
        !s.ready_ids().contains(id),
{
    let j = choose|j: int| 0 <= j < timer_ids(s.timer_list()).len() && timer_ids(s.timer_list())[j] == id;
    assert(s.timer_list()[j].1 == id);
    if s.ready_ids().contains(id) {
        let i = choose|i: int| 0 <= i < s.ready_ids().len() && s.ready_ids()[i] == id;
        assert(s.ready_ids()[i] != s.timer_list()[j].1);
    }
}

} // verus!

//! The scheduling heart of the executor.
//!
//! The runtime interleaves the progress of a finite set of tasks on one
//! thread. Its state is (1) an id generator, (2) a FIFO of freshly spawned
//! tasks, (3) the set of parked tasks — those whose most recent poll
//! returned pending — and (4) the readiness-registry model. A task id
//! lives in at most one of the FIFO and the parked set, and every id ever
//! handed out is below the generator's next value.
//!
//! The task bodies themselves — pinned, type-erased computations — cannot
//! be inspected here; they are owned by the unverified shell, keyed by id.
//! The shell drives the loop: it asks `admit_next` for the next admission,
//! polls that task, and reports the outcome through `on_admitted_poll`;
//! when the FIFO is empty it blocks in the kernel event queue, asks
//! `is_parked` what to do with the id the kernel returned, and reports a
//! re-poll's outcome through `on_parked_poll`. `block` runs the very same
//! algorithm over abstract task behaviours and proves it terminates, polls
//! fresh tasks in FIFO order, and never skips or loses a task.

use vstd::prelude::*;
use std::collections::VecDeque;
use crate::future_id::{FutureId, FutureIdGenerator};
use crate::registry::{Registry, spec_add, spec_contains_fd, spec_fds_unique, spec_owner_of};

verus! {

/// Whether some identifier in `s` wraps the value `v`.
pub open spec fn contains_id(s: Seq<FutureId>, v: u64) -> bool {
    exists|i: int| 0 <= i < s.len() && (#[trigger] s[i]).spec_value() == v
}

/// The identifiers in `s` are strictly increasing (so in spawn order, and
/// pairwise distinct).
pub open spec fn ids_increasing(s: Seq<FutureId>) -> bool {
    forall|i: int, j: int|
        0 <= i < j < s.len() ==> (#[trigger] s[i]).spec_value() < (#[trigger] s[j]).spec_value()
}

/// The identifiers in `s` are pairwise distinct.
pub open spec fn ids_distinct(s: Seq<FutureId>) -> bool {
    forall|i: int, j: int|
        0 <= i < j < s.len() ==> (#[trigger] s[i]).spec_value() != (#[trigger] s[j]).spec_value()
}

/// Every identifier in `s` is below `bound`.
pub open spec fn ids_below(s: Seq<FutureId>, bound: u64) -> bool {
    forall|i: int| 0 <= i < s.len() ==> (#[trigger] s[i]).spec_value() < bound
}

/// No identifier value occurs in both `a` and `b`.
pub open spec fn ids_disjoint(a: Seq<FutureId>, b: Seq<FutureId>) -> bool {
    forall|i: int, j: int|
        0 <= i < a.len() && 0 <= j < b.len()
            ==> (#[trigger] a[i]).spec_value() != (#[trigger] b[j]).spec_value()
}

/// The part of the runtime that is reachable from a polling task: the id
/// generator, the FIFO of freshly spawned tasks, and the readiness
/// registry. A task may spawn further tasks or register descriptors while
/// it is being polled, so this state is what the ambient context mutates.
pub struct RuntimeInner {
    /// The next task id to hand out.
    future_id_generator: FutureIdGenerator,
    /// Ids of spawned tasks that have not yet been polled for the first
    /// time, oldest first.
    new_futures: VecDeque<FutureId>,
    /// The readiness-registry model: which task owns each registered
    /// file descriptor.
    registry: Registry,
}

impl RuntimeInner {
    /// The id the next spawn will receive.
    pub closed spec fn spec_next_id(&self) -> u64 {
        self.future_id_generator.spec_next()
    }

    /// The admission FIFO, oldest first.
    pub closed spec fn queued(&self) -> Seq<FutureId> {
        self.new_futures@
    }

    /// The readiness registry's subscriptions.
    pub closed spec fn registered(&self) -> Seq<(i32, FutureId)> {
        self.registry@
    }

    /// Queued ids were handed out in FIFO order and are all allocated;
    /// the registry subscribes no descriptor twice.
    pub open spec fn wf(&self) -> bool {
        &&& ids_increasing(self.queued())
        &&& ids_below(self.queued(), self.spec_next_id())
        &&& spec_fds_unique(self.registered())
    }

    /// Fresh inner state: no tasks yet, ids starting at zero, an empty
    /// registry.
    pub fn new() -> (r: Self)
        ensures
            r.wf(),
            r.spec_next_id() == 0,
            r.queued() =~= Seq::<FutureId>::empty(),
            r.registered() =~= Seq::<(i32, FutureId)>::empty(),
    {
        RuntimeInner {
            future_id_generator: FutureIdGenerator::default(),
            new_futures: VecDeque::new(),
            registry: Registry::new(),
        }
    }

    /// Admit a new task: allocate a fresh id and append it to the FIFO.
    /// The shell stores the task body under the returned id.
    pub fn spawn(&mut self) -> (id: FutureId)
        requires
            old(self).wf(),
            old(self).spec_next_id() < u64::MAX,
        ensures
            final(self).wf(),
            id.spec_value() == old(self).spec_next_id(),
            final(self).spec_next_id() == old(self).spec_next_id() + 1,
            final(self).queued() =~= old(self).queued().push(id),
            final(self).registered() == old(self).registered(),
    {
        let id = self.future_id_generator.fresh();
        self.new_futures.push_back(id);
        id
    }

    /// Subscribe `fd` under task `id`, idempotently: a descriptor that is
    /// already present keeps its original owner. Returns whether the
    /// subscription is new — exactly when the shell must issue the kernel
    /// registration call.
    pub fn register(&mut self, fd: i32, id: FutureId) -> (newly_added: bool)
        requires
            old(self).wf(),
        ensures
            final(self).wf(),
            final(self).registered() =~= spec_add(old(self).registered(), fd, id),
            newly_added == !spec_contains_fd(old(self).registered(), fd),
            final(self).queued() == old(self).queued(),
            final(self).spec_next_id() == old(self).spec_next_id(),
    {
        self.registry.add(fd, id)
    }

    /// Drop the subscription of `fd`, mirroring the kernel's teardown
    /// when the descriptor is closed; see [`Registry::remove_fd`].
    pub fn unregister(&mut self, fd: i32) -> (was_present: bool)
        requires
            old(self).wf(),
        ensures
            final(self).wf(),
            was_present == spec_contains_fd(old(self).registered(), fd),
            !spec_contains_fd(final(self).registered(), fd),
            !was_present ==> final(self).registered() == old(self).registered(),
            forall|f: i32|
                f != fd ==> #[trigger] spec_contains_fd(final(self).registered(), f)
                    == spec_contains_fd(old(self).registered(), f)
                    && spec_owner_of(final(self).registered(), f)
                        == spec_owner_of(old(self).registered(), f),
            final(self).queued() == old(self).queued(),
            final(self).spec_next_id() == old(self).spec_next_id(),
    {
        self.registry.remove_fd(fd)
    }

    /// Pop the oldest freshly spawned task, if there is one.
    fn pop_new(&mut self) -> (r: Option<FutureId>)
        requires
            old(self).wf(),
        ensures
            final(self).wf(),
            final(self).spec_next_id() == old(self).spec_next_id(),
            final(self).registered() == old(self).registered(),
            r is None ==> old(self).queued().len() == 0 && final(self).queued() == old(self).queued(),
            r is Some ==> old(self).queued().len() > 0
                && r == Some(old(self).queued()[0])
                && final(self).queued() =~= old(self).queued().drop_first(),
    {
        let r = self.new_futures.pop_front();
        proof {
            if old(self).queued().len() > 0 {
                assert(self.queued() =~= old(self).queued().drop_first());
            }
        }
        r
    }
}

/// The executor: the shared inner state plus the parked-task set.
///
/// A parked task is one whose most recent poll returned pending; it waits
/// for the kernel event queue to hand its id back. The parked set is
/// owned exclusively by the executor loop.
pub struct Runtime {
    /// State that polling tasks may reach through the ambient context.
    inner: RuntimeInner,
    /// Ids of parked tasks, in the order they first parked.
    futures: Vec<FutureId>,
}

impl Runtime {
    /// The id the next spawn will receive.
    pub closed spec fn spec_next_id(&self) -> u64 {
        self.inner.spec_next_id()
    }

    /// The admission FIFO, oldest first.
    pub closed spec fn queued(&self) -> Seq<FutureId> {
        self.inner.queued()
    }

    /// The parked tasks.
    pub closed spec fn parked(&self) -> Seq<FutureId> {
        self.futures@
    }

    /// The readiness registry's subscriptions.
    pub closed spec fn registered(&self) -> Seq<(i32, FutureId)> {
        self.inner.registered()
    }

    /// The executor invariant: the inner state is well-formed, parked ids
    /// are pairwise distinct and all allocated, and no id is both queued
    /// and parked.
    pub open spec fn wf(&self) -> bool {
        &&& ids_increasing(self.queued())
        &&& ids_below(self.queued(), self.spec_next_id())
        &&& spec_fds_unique(self.registered())
        &&& ids_distinct(self.parked())
        &&& ids_below(self.parked(), self.spec_next_id())
        &&& ids_disjoint(self.queued(), self.parked())
    }

    /// A fresh executor with no tasks.
    ///
    /// The kernel event queue that accompanies this state is created by
    /// the shell (and creating it may fail there); the scheduling state
    /// itself always starts empty.
    pub fn new() -> (r: Self)
        ensures
            r.wf(),
            r.spec_next_id() == 0,
            r.queued() =~= Seq::<FutureId>::empty(),
            r.parked() =~= Seq::<FutureId>::empty(),
            r.registered() =~= Seq::<(i32, FutureId)>::empty(),
    {
        Runtime { inner: RuntimeInner::new(), futures: Vec::new() }
    }

    /// Admit a new task into the FIFO and return its fresh id.
    ///
    /// Admission has no observable effect besides joining the FIFO: the
    /// parked set and the registry are untouched, and the new id collides
    /// with nothing already known.
    pub fn spawn(&mut self) -> (id: FutureId)
        requires
            old(self).wf(),
            old(self).spec_next_id() < u64::MAX,
        ensures
            final(self).wf(),
            id.spec_value() == old(self).spec_next_id(),
            final(self).spec_next_id() == old(self).spec_next_id() + 1,
            final(self).queued() =~= old(self).queued().push(id),
            final(self).parked() == old(self).parked(),
            final(self).registered() == old(self).registered(),
            !contains_id(old(self).queued(), id.spec_value()),
            !contains_id(old(self).parked(), id.spec_value()),
    {
        let id = self.inner.spawn();
        id
    }

    /// Subscribe `fd` under task `id` in the registry model; see
    /// [`RuntimeInner::register`].
    pub fn register(&mut self, fd: i32, id: FutureId) -> (newly_added: bool)
        requires
            old(self).wf(),
        ensures
            final(self).wf(),
            final(self).registered() =~= spec_add(old(self).registered(), fd, id),
            newly_added == !spec_contains_fd(old(self).registered(), fd),
            final(self).queued() == old(self).queued(),
            final(self).parked() == old(self).parked(),
            final(self).spec_next_id() == old(self).spec_next_id(),
    {
        self.inner.register(fd, id)
    }

    /// Drop the subscription of `fd`, mirroring the kernel's teardown
    /// when the descriptor is closed; see [`Registry::remove_fd`].
    pub fn unregister(&mut self, fd: i32) -> (was_present: bool)
        requires
            old(self).wf(),
        ensures
            final(self).wf(),
            was_present == spec_contains_fd(old(self).registered(), fd),
            !spec_contains_fd(final(self).registered(), fd),
            !was_present ==> final(self).registered() == old(self).registered(),
            forall|f: i32|
                f != fd ==> #[trigger] spec_contains_fd(final(self).registered(), f)
                    == spec_contains_fd(old(self).registered(), f)
                    && spec_owner_of(final(self).registered(), f)
                        == spec_owner_of(old(self).registered(), f),
            final(self).queued() == old(self).queued(),
            final(self).parked() == old(self).parked(),
            final(self).spec_next_id() == old(self).spec_next_id(),
    {
        self.inner.unregister(fd)
    }

    /// The loop's termination check: true exactly when no task is waiting
    /// to be admitted and none is parked — there is nothing left to run.
    pub fn is_done(&self) -> (r: bool)
        ensures
            r <==> (self.queued().len() == 0 && self.parked().len() == 0),
    {
        self.inner.new_futures.len() == 0 && self.futures.len() == 0
    }

    /// Take the oldest freshly spawned task for its first poll.
    ///
    /// New tasks are admitted strictly in FIFO order, and always take
    /// priority over waiting for the kernel. The returned id is in
    /// neither the FIFO nor the parked set afterwards: it is in flight,
    /// owned by the poll the shell is about to make.
    pub fn admit_next(&mut self) -> (r: Option<FutureId>)
        requires
            old(self).wf(),
        ensures
            final(self).wf(),
            final(self).spec_next_id() == old(self).spec_next_id(),
            final(self).parked() == old(self).parked(),
            final(self).registered() == old(self).registered(),
            r is None ==> old(self).queued().len() == 0 && final(self).queued() == old(self).queued(),
            r is Some ==> {
                &&& old(self).queued().len() > 0
                &&& r == Some(old(self).queued()[0])
                &&& final(self).queued() =~= old(self).queued().drop_first()
                &&& !contains_id(final(self).queued(), old(self).queued()[0].spec_value())
                &&& !contains_id(final(self).parked(), old(self).queued()[0].spec_value())
                &&& old(self).queued()[0].spec_value() < old(self).spec_next_id()
            },
    {
        let r = self.inner.pop_new();
        proof {
            if r is Some {
                assert(forall|k: int|
                    0 <= k < self.queued().len()
                        ==> (#[trigger] self.queued()[k]).spec_value()
                            == old(self).queued()[k + 1].spec_value());
            }
        }
        r
    }

    /// Whether `id` is queued for admission. The shell uses this to guard
    /// its calls, failing loudly on an internal invariant violation as the
    /// executor does.
    pub fn is_queued(&self, id: FutureId) -> (r: bool)
        ensures
            r == contains_id(self.queued(), id.spec_value()),
    {
        let n = self.inner.new_futures.len();
        let mut i: usize = 0;
        while i < n
            invariant
                0 <= i <= n,
                n == self.queued().len(),
                forall|k: int|
                    0 <= k < i ==> (#[trigger] self.queued()[k]).spec_value() != id.spec_value(),
            decreases n - i,
        {
            if self.inner.new_futures[i].to_u64() == id.to_u64() {
                return true;
            }
            i = i + 1;
        }
        false
    }

    /// The dispatch decision for an id the kernel event queue handed back:
    /// true exactly when a task with this id is parked and must be polled.
    ///
    /// When false the wakeup is stale — the task completed and dropped its
    /// wakeup descriptor between the kernel noticing readiness and the
    /// loop draining the event — and the loop ignores it with a warning;
    /// no state changes and no task is polled, so a spurious wakeup can
    /// never cost more than this one lookup.
    pub fn is_parked(&self, id: FutureId) -> (r: bool)
        ensures
            r == contains_id(self.parked(), id.spec_value()),
    {
        let n = self.futures.len();
        let mut i: usize = 0;
        while i < n
            invariant
                0 <= i <= n,
                n == self.parked().len(),
                forall|k: int|
                    0 <= k < i ==> (#[trigger] self.parked()[k]).spec_value() != id.spec_value(),
            decreases n - i,
        {
            if self.futures[i].to_u64() == id.to_u64() {
                return true;
            }
            i = i + 1;
        }
        false
    }

    /// Record the outcome of the first poll of a freshly admitted task.
    ///
    /// A completed task is reaped: it simply never enters the parked set
    /// (the shell drops its body and wakeup object). A pending task parks:
    /// it joins the parked set and nothing else changes, so it cannot be
    /// lost — only a later poll that returns ready removes it.
    pub fn on_admitted_poll(&mut self, id: FutureId, completed: bool)
        requires
            old(self).wf(),
            id.spec_value() < old(self).spec_next_id(),
            !contains_id(old(self).queued(), id.spec_value()),
            !contains_id(old(self).parked(), id.spec_value()),
        ensures
            final(self).wf(),
            final(self).spec_next_id() == old(self).spec_next_id(),
            final(self).queued() == old(self).queued(),
            final(self).registered() == old(self).registered(),
            completed ==> final(self).parked() == old(self).parked(),
            !completed ==> final(self).parked() =~= old(self).parked().push(id),
            !completed ==> contains_id(final(self).parked(), id.spec_value()),
    {
        if !completed {
            self.futures.push(id);
            proof {
                assert(self.parked()[self.parked().len() - 1].spec_value() == id.spec_value());
            }
        }
    }

    /// Record the outcome of re-polling a parked task after its wakeup.
    ///
    /// On completion the task — and only that task — leaves the parked
    /// set; while it stays pending it stays parked, exactly where it was.
    pub fn on_parked_poll(&mut self, id: FutureId, completed: bool)
        requires
            old(self).wf(),
            contains_id(old(self).parked(), id.spec_value()),
        ensures
            final(self).wf(),
            final(self).spec_next_id() == old(self).spec_next_id(),
            final(self).queued() == old(self).queued(),
            final(self).registered() == old(self).registered(),
            !completed ==> final(self).parked() == old(self).parked(),
            completed ==> {
                &&& final(self).parked()
                    =~= old(self).parked().remove(index_of_id(old(self).parked(), id.spec_value()))
                &&& !contains_id(final(self).parked(), id.spec_value())
                &&& forall|v: u64|
                    v != id.spec_value()
                        ==> (contains_id(final(self).parked(), v) == contains_id(
                            old(self).parked(),
                            v,
                        ))
            },
    {
        if completed {
            let n = self.futures.len();
            let mut i: usize = 0;
            while i < n
                invariant
                    completed,
                    0 <= i <= n,
                    n == self.parked().len(),
                    self.wf(),
                    self.parked() == old(self).parked(),
                    self.queued() == old(self).queued(),
                    self.registered() == old(self).registered(),
                    self.spec_next_id() == old(self).spec_next_id(),
                    contains_id(self.parked(), id.spec_value()),
                    forall|k: int|
                        0 <= k < i ==> (#[trigger] self.parked()[k]).spec_value()
                            != id.spec_value(),
                decreases n - i,
            {
                if self.futures[i].to_u64() == id.to_u64() {
                    proof {
                        lemma_index_of_id_unique(self.parked(), id.spec_value(), i as int);
                    }
                    self.futures.remove(i);
                    proof {
                        lemma_remove_keeps_others(old(self).parked(), i as int);
                    }
                    return;
                }
                i = i + 1;
            }
            proof {
                assert(false);
            }
        }
    }
}

impl Runtime {
    /// Block until every task has executed to completion.
    ///
    /// This runs the executor algorithm itself — drain the admission FIFO
    /// head-first, poll, park what is pending, then serve wakeups to
    /// parked tasks until nothing is queued and nothing is parked — over
    /// abstract task behaviours: `budgets[i]` is the number of polls the
    /// `i`-th spawned task answers with pending before it completes. The
    /// unverified shell runs the same algorithm over real task bodies,
    /// with the kernel event queue choosing which parked task wakes; here
    /// the longest-parked task wakes, standing for a kernel that
    /// eventually reports every signalled descriptor.
    ///
    /// The returned trace records every poll, in order, by task id. The
    /// contract pins down the loop's laws: it terminates, leaving nothing
    /// queued or parked; it polls exactly `budgets[i] + 1` polls' worth of
    /// work in total; every poll hits a task that was actually spawned;
    /// and the first polls happen in spawn (FIFO) order, before the loop
    /// ever waits.
    pub fn block(&mut self, budgets: Vec<u64>) -> (trace: Vec<u64>)
        requires
            old(self).wf(),
            old(self).queued().len() == 0,
            old(self).parked().len() == 0,
            old(self).spec_next_id() + budgets@.len() <= u64::MAX,
        ensures
            final(self).wf(),
            final(self).queued().len() == 0,
            final(self).parked().len() == 0,
            final(self).registered() == old(self).registered(),
            final(self).spec_next_id() == old(self).spec_next_id() + budgets@.len(),
            trace@.len() == budgets@.len() + seq_sum(budgets@),
            forall|i: int|
                0 <= i < budgets@.len() ==> #[trigger] trace@[i] == old(self).spec_next_id() + i,
            forall|i: int|
                0 <= i < trace@.len()
                    ==> old(self).spec_next_id() <= #[trigger] trace@[i]
                        < old(self).spec_next_id() + budgets@.len(),
            forall|i: int|
                0 <= i < budgets@.len()
                    ==> count_of(trace@, (old(self).spec_next_id() + i) as u64)
                        == #[trigger] budgets@[i] + 1,
    {
        let n = budgets.len();
        let base = self.next_id();
        let ghost b0 = budgets@;

        let mut k: usize = 0;
        while k < n
            invariant
                0 <= k <= n,
                self.wf(),
                base + n <= u64::MAX,
                self.spec_next_id() == base + k,
                self.queued().len() == k,
                forall|i: int|
                    0 <= i < k ==> (#[trigger] self.queued()[i]).spec_value() == base + i,
                self.parked() == old(self).parked(),
                old(self).parked().len() == 0,
                self.registered() == old(self).registered(),
            decreases n - k,
        {
            self.spawn();
            k = k + 1;
        }

        let mut remaining = budgets;
        let mut trace: Vec<u64> = Vec::new();

        proof {
            lemma_seq_sum_nonneg(remaining@);
            assert forall|i: int|
                0 <= i < n implies #[trigger] contains_id(self.queued(), (base + i) as u64) by {
                assert(self.queued()[i].spec_value() == base + i);
            }
        }

        while !self.is_done()
            invariant
                self.wf(),
                base + n <= u64::MAX,
                n == b0.len(),
                remaining@.len() == n,
                self.spec_next_id() == base + n,
                self.queued().len() <= n,
                forall|i: int|
                    0 <= i < self.queued().len()
                        ==> (#[trigger] self.queued()[i]).spec_value()
                            == base + (n - self.queued().len()) + i,
                forall|i: int|
                    0 <= i < self.parked().len()
                        ==> base <= (#[trigger] self.parked()[i]).spec_value(),
                forall|i: int|
                    0 <= i < trace@.len() ==> base <= #[trigger] trace@[i] < base + n,
                forall|i: int|
                    0 <= i < n - self.queued().len() ==> #[trigger] trace@[i] == base + i,
                trace@.len() >= n - self.queued().len(),
                self.queued().len() > 0 ==> trace@.len() == n - self.queued().len(),
                trace@.len() + self.queued().len() + self.parked().len() + seq_sum(remaining@)
                    == n + seq_sum(b0),
                forall|i: int|
                    0 <= i < n && !contains_id(self.queued(), (base + i) as u64)
                        && !contains_id(self.parked(), (base + i) as u64)
                        ==> #[trigger] remaining@[i] == 0,
                forall|i: int|
                    0 <= i < n && contains_id(self.queued(), (base + i) as u64)
                        ==> #[trigger] remaining@[i] == b0[i],
                forall|i: int|
                    0 <= i < n
                        ==> count_of(trace@, (base + i) as u64) == b0[i] - #[trigger] remaining@[i]
                            + (if contains_id(self.queued(), (base + i) as u64) || contains_id(
                            self.parked(),
                            (base + i) as u64,
                        ) {
                            0int
                        } else {
                            1int
                        }),
                seq_sum(remaining@) >= 0,
                self.registered() == old(self).registered(),
            decreases seq_sum(remaining@), self.queued().len() + self.parked().len(),
        {
            let ghost pre = *self;
            let ghost rem0 = remaining@;
            let next = self.admit_next();
            match next {
                Some(id) => {
                    let v = id.to_u64();
                    proof {
                        assert(pre.queued()[0].spec_value()
                            == base + (n - pre.queued().len()));
                    }
                    let idx = (v - base) as usize;
                    let ghost tr0 = trace@;
                    trace.push(v);
                    proof {
                        let a = n - pre.queued().len();
                        assert(trace@[a] == v);
                        assert forall|i: int| 0 <= i < a + 1 implies #[trigger] trace@[i]
                            == base + i by {
                            if i < a {
                                assert(trace@[i] == tr0[i]);
                            }
                        }
                    }
                    let completed = remaining[idx] == 0;
                    if !completed {
                        let cur = remaining[idx];
                        proof {
                            lemma_seq_sum_update(remaining@, idx as int, (cur - 1) as u64);
                        }
                        remaining.set(idx, cur - 1);
                        proof {
                            lemma_seq_sum_nonneg(remaining@);
                        }
                    }
                    self.on_admitted_poll(id, completed);
                    proof {
                        assert forall|i: int|
                            0 <= i < self.queued().len() implies
                            (#[trigger] self.queued()[i]).spec_value()
                                == base + (n - self.queued().len()) + i by {
                            assert(self.queued()[i] == pre.queued()[i + 1]);
                        }
                        assert forall|i: int|
                            0 <= i < n && !contains_id(self.queued(), (base + i) as u64)
                                && !contains_id(self.parked(), (base + i) as u64) implies
                            #[trigger] remaining@[i] == 0 by {
                            let w = (base + i) as u64;
                            if w == v {
                                if completed {
                                    assert(remaining@[i] == 0);
                                }
                            } else {
                                lemma_contains_drop_first(pre.queued(), w);
                                if !completed {
                                    lemma_contains_push(pre.parked(), id, w);
                                }
                            }
                        }
                        assert forall|i: int|
                            0 <= i < n && contains_id(self.queued(), (base + i) as u64) implies
                            #[trigger] remaining@[i] == b0[i] by {
                            let w = (base + i) as u64;
                            assert(w != v);
                            assert(i != idx);
                            lemma_contains_drop_first(pre.queued(), w);
                        }
                        assert forall|i: int| 0 <= i < n implies count_of(trace@, (base + i) as u64)
                            == b0[i] - #[trigger] remaining@[i] + (if contains_id(
                            self.queued(),
                            (base + i) as u64,
                        ) || contains_id(self.parked(), (base + i) as u64) {
                            0int
                        } else {
                            1int
                        }) by {
                            let w = (base + i) as u64;
                            lemma_count_push(tr0, v, w);
                            if w == v {
                                assert(i == idx);
                                assert(pre.queued()[0].spec_value() == v);
                                assert(contains_id(pre.queued(), v));
                                assert(rem0[i] == b0[i]);
                                assert(count_of(tr0, v) == 0);
                                if completed {
                                    assert(remaining@[i] == rem0[i]);
                                    assert(rem0[i] == 0);
                                } else {
                                    assert(remaining@[i] == rem0[i] - 1);
                                    lemma_contains_push(pre.parked(), id, w);
                                }
                            } else {
                                assert(remaining@[i] == rem0[i]);
                                lemma_contains_drop_first(pre.queued(), w);
                                if !completed {
                                    lemma_contains_push(pre.parked(), id, w);
                                }
                            }
                        }
                    }
                }
                None => {
                    proof {
                        assert(self.parked().len() > 0);
                    }
                    let id = self.futures[0];
                    let v = id.to_u64();
                    proof {
                        assert(contains_id(self.parked(), id.spec_value()));
                    }
                    let idx = (v - base) as usize;
                    let ghost tr0 = trace@;
                    trace.push(v);
                    proof {
                        assert forall|i: int| 0 <= i < n implies #[trigger] trace@[i]
                            == base + i by {
                            assert(trace@[i] == tr0[i]);
                        }
                    }
                    let completed = remaining[idx] == 0;
                    if !completed {
                        let cur = remaining[idx];
                        proof {
                            lemma_seq_sum_update(remaining@, idx as int, (cur - 1) as u64);
                        }
                        remaining.set(idx, cur - 1);
                        proof {
                            lemma_seq_sum_nonneg(remaining@);
                        }
                    }
                    self.on_parked_poll(id, completed);
                    proof {
                        assert forall|i: int|
                            0 <= i < n && !contains_id(self.queued(), (base + i) as u64)
                                && !contains_id(self.parked(), (base + i) as u64) implies
                            #[trigger] remaining@[i] == 0 by {
                            let w = (base + i) as u64;
                            if w == v {
                                if completed {
                                    assert(remaining@[i] == 0);
                                }
                            }
                        }
                        assert forall|i: int| 0 <= i < n implies count_of(trace@, (base + i) as u64)
                            == b0[i] - #[trigger] remaining@[i] + (if contains_id(
                            self.queued(),
                            (base + i) as u64,
                        ) || contains_id(self.parked(), (base + i) as u64) {
                            0int
                        } else {
                            1int
                        }) by {
                            let w = (base + i) as u64;
                            lemma_count_push(tr0, v, w);
                            if w == v {
                                assert(i == idx);
                                assert(pre.parked()[0].spec_value() == v);
                                assert(contains_id(pre.parked(), v));
                                assert(count_of(tr0, v) == b0[i] - rem0[i]);
                                if completed {
                                    assert(remaining@[i] == rem0[i]);
                                    assert(rem0[i] == 0);
                                    assert(!contains_id(self.parked(), v));
                                } else {
                                    assert(remaining@[i] == rem0[i] - 1);
                                    assert(contains_id(self.parked(), v));
                                }
                            } else {
                                assert(remaining@[i] == rem0[i]);
                            }
                        }
                    }
                }
            }
        }
        proof {
            assert forall|i: int| 0 <= i < n implies #[trigger] remaining@[i] == 0 by {
            }
            lemma_seq_sum_all_zero(remaining@);
            assert forall|i: int| 0 <= i < n implies count_of(trace@, (base + i) as u64) == b0[i]
                + 1 by {
                assert(remaining@[i] == 0);
                assert(!contains_id(self.queued(), (base + i) as u64));
                assert(!contains_id(self.parked(), (base + i) as u64));
            }
        }
        trace
    }

    /// The id the next spawn will receive, as a value the shell can log
    /// and key its task table by.
    pub fn next_id(&self) -> (r: u64)
        ensures
            r == self.spec_next_id(),
    {
        self.inner.future_id_generator.peek()
    }
}

/// The total of a sequence of poll budgets.
pub open spec fn seq_sum(s: Seq<u64>) -> int
    decreases s.len(),
{
    if s.len() == 0 {
        0
    } else {
        s[0] + seq_sum(s.drop_first())
    }
}

/// How many entries of `s` equal `v`: how often task `v` appears in a
/// poll trace.
pub open spec fn count_of(s: Seq<u64>, v: u64) -> int
    decreases s.len(),
{
    if s.len() == 0 {
        0
    } else {
        count_of(s.drop_last(), v) + if s.last() == v {
            1int
        } else {
            0int
        }
    }
}

/// Appending one entry raises exactly that value's count by one.
proof fn lemma_count_push(s: Seq<u64>, x: u64, v: u64)
    ensures
        count_of(s.push(x), v) == count_of(s, v) + if x == v {
            1int
        } else {
            0int
        },
{
    assert(s.push(x).drop_last() =~= s);
    assert(s.push(x).last() == x);
}

/// A sum of budgets is never negative.
proof fn lemma_seq_sum_nonneg(s: Seq<u64>)
    ensures
        seq_sum(s) >= 0,
    decreases s.len(),
{
    if s.len() > 0 {
        lemma_seq_sum_nonneg(s.drop_first());
    }
}

/// Replacing one budget changes the sum by exactly the difference.
proof fn lemma_seq_sum_update(s: Seq<u64>, i: int, x: u64)
    requires
        0 <= i < s.len(),
    ensures
        seq_sum(s.update(i, x)) == seq_sum(s) - s[i] + x,
    decreases s.len(),
{
    if i == 0 {
        assert(s.update(0, x).drop_first() =~= s.drop_first());
    } else {
        assert(s.update(i, x).drop_first() =~= s.drop_first().update(i - 1, x));
        lemma_seq_sum_update(s.drop_first(), i - 1, x);
    }
}

/// A sequence of all-zero budgets sums to zero.
proof fn lemma_seq_sum_all_zero(s: Seq<u64>)
    requires
        forall|i: int| 0 <= i < s.len() ==> #[trigger] s[i] == 0,
    ensures
        seq_sum(s) == 0,
    decreases s.len(),
{
    if s.len() > 0 {
        lemma_seq_sum_all_zero(s.drop_first());
    }
}

/// Dropping the head changes which values are present only at the head's
/// own value.
proof fn lemma_contains_drop_first(s: Seq<FutureId>, v: u64)
    requires
        s.len() > 0,
        s[0].spec_value() != v,
    ensures
        contains_id(s.drop_first(), v) == contains_id(s, v),
{
    if contains_id(s, v) {
        let i = choose|i: int| 0 <= i < s.len() && (#[trigger] s[i]).spec_value() == v;
        assert(s.drop_first()[i - 1] == s[i]);
    }
    if contains_id(s.drop_first(), v) {
        let i = choose|i: int|
            0 <= i < s.drop_first().len() && (#[trigger] s.drop_first()[i]).spec_value() == v;
        assert(s.drop_first()[i] == s[i + 1]);
    }
}

/// Appending an identifier adds exactly its value to what is present.
proof fn lemma_contains_push(s: Seq<FutureId>, x: FutureId, v: u64)
    ensures
        contains_id(s.push(x), v) == (contains_id(s, v) || x.spec_value() == v),
{
    if contains_id(s, v) {
        let i = choose|i: int| 0 <= i < s.len() && (#[trigger] s[i]).spec_value() == v;
        assert(s.push(x)[i] == s[i]);
    }
    if x.spec_value() == v {
        assert(s.push(x)[s.len() as int] == x);
    }
    if contains_id(s.push(x), v) {
        let i = choose|i: int|
            0 <= i < s.push(x).len() && (#[trigger] s.push(x)[i]).spec_value() == v;
        if i < s.len() {
            assert(s.push(x)[i] == s[i]);
        }
    }
}

/// The index of the (unique, given distinctness) identifier in `s` that
/// wraps `v`.
pub open spec fn index_of_id(s: Seq<FutureId>, v: u64) -> int {
    choose|i: int| 0 <= i < s.len() && (#[trigger] s[i]).spec_value() == v
}

/// With distinct identifiers, any index that matches `v` is the index
/// `index_of_id` speaks of.
proof fn lemma_index_of_id_unique(s: Seq<FutureId>, v: u64, i: int)
    requires
        ids_distinct(s),
        0 <= i < s.len(),
        s[i].spec_value() == v,
    ensures
        index_of_id(s, v) == i,
{
    assert(contains_id(s, v));
    let j = index_of_id(s, v);
    if i < j {
        assert(s[i].spec_value() != s[j].spec_value());
    } else if j < i {
        assert(s[j].spec_value() != s[i].spec_value());
    }
}

/// Removing the entry at `i` removes no other identifier value: every
/// value held by an identifier at another index is still present.
proof fn lemma_remove_keeps_others(s: Seq<FutureId>, i: int)
    requires
        0 <= i < s.len(),
        ids_distinct(s),
    ensures
        ids_distinct(s.remove(i)),
        !contains_id(s.remove(i), s[i].spec_value()),
        forall|v: u64|
            v != s[i].spec_value() ==> (contains_id(s.remove(i), v) == contains_id(s, v)),
{
    let t = s.remove(i);
    assert forall|j: int, k: int| 0 <= j < k < t.len() implies (#[trigger] t[j]).spec_value()
        != (#[trigger] t[k]).spec_value() by {
        let j0 = if j < i { j } else { j + 1 };
        let k0 = if k < i { k } else { k + 1 };
        assert(t[j] == s[j0]);
        assert(t[k] == s[k0]);
    }
    assert forall|j: int| 0 <= j < t.len() implies (#[trigger] t[j]).spec_value()
        != s[i].spec_value() by {
        let j0 = if j < i { j } else { j + 1 };
        assert(t[j] == s[j0]);
    }
    assert forall|v: u64| v != s[i].spec_value() && contains_id(s, v) implies contains_id(t, v) by {
        let j = choose|j: int| 0 <= j < s.len() && (#[trigger] s[j]).spec_value() == v;
        if j < i {
            assert(t[j] == s[j]);
        } else {
            assert(t[j - 1] == s[j]);
        }
    }
    assert forall|v: u64| contains_id(t, v) implies contains_id(s, v) by {
        let j = choose|j: int| 0 <= j < t.len() && (#[trigger] t[j]).spec_value() == v;
        let j0 = if j < i { j } else { j + 1 };
        assert(t[j] == s[j0]);
    }
}

} // verus!

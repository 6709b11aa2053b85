//! The worker pool's dispatcher protocol.
//!
//! A fixed set of slots, each backed by one long-lived worker thread,
//! serves a single ordered job queue. The dispatcher pulls one job at a
//! time, waits (with a bounded timeout) for a slot id on the ready queue,
//! and hands the job to that slot; on a timeout it runs a recovery scan
//! that probes every slot's liveness channel and respawns, under the same
//! id, every worker whose thread has exited — whatever job that worker
//! held is lost, deliberately, and never re-queued. The decision table
//! here is the verified core; the embedding program owns the channels and
//! threads and follows the directives.

use vstd::prelude::*;

verus! {

broadcast use vstd::seq_lib::lemma_seq_contains_after_push;

/// The error a submission gets once the pool is fully torn down.
#[derive(Debug)]
pub struct ThreadPoolError {
    msg: String,
}

impl ThreadPoolError {
    pub closed spec fn spec_msg(&self) -> Seq<char> {
        self.msg@
    }

    pub fn new(msg: String) -> (r: ThreadPoolError)
        ensures
            r.spec_msg() == msg@,
    {
        ThreadPoolError { msg }
    }

    /// The human-readable account of the failure.
    pub fn message(&self) -> (r: &String)
        ensures
            r@ == self.spec_msg(),
    {
        &self.msg
    }
}

/// What a slot's liveness can undergo: its worker thread exits (by
/// completion, panic or a dropped job), or a recovery scan respawns every
/// exited worker.
#[derive(Debug, Clone, Copy, PartialEq, Eq, Structural)]
pub enum SlotEvent {
    Crashed(usize),
    Scanned,
}

/// A slot's liveness after one event.
pub open spec fn apply_slot_event(slots: Seq<bool>, event: SlotEvent) -> Seq<bool> {
    match event {
        SlotEvent::Crashed(id) => if 0 <= id < slots.len() {
            slots.update(id as int, false)
        } else {
            slots
        },
        SlotEvent::Scanned => Seq::new(slots.len(), |i: int| true),
    }
}

/// The slots' liveness after a whole event history.
pub open spec fn run_slot_events(slots: Seq<bool>, events: Seq<SlotEvent>) -> Seq<bool>
    decreases events.len(),
{
    if events.len() == 0 {
        slots
    } else {
        apply_slot_event(run_slot_events(slots, events.drop_last()), events.last())
    }
}

/// Pool capacity law: no crash or recovery ever changes the number of
/// slots, and immediately after any recovery scan every slot is backed by
/// a live worker again — the pool always settles back to full capacity.
pub proof fn lemma_pool_capacity(slots: Seq<bool>, events: Seq<SlotEvent>)
    ensures
        run_slot_events(slots, events).len() == slots.len(),
        events.len() > 0 && events.last() is Scanned ==> forall|i: int|
            0 <= i < slots.len() ==> run_slot_events(slots, events)[i],
    decreases events.len(),
{
    if events.len() > 0 {
        lemma_pool_capacity(slots, events.drop_last());
    }
}

/// The dispatcher's account of the pool: each slot's liveness, the ready
/// queue of idle slot ids, and the job queue, oldest first. Jobs are
/// carried as plain numbers standing for the deferred computations the
/// embedding program holds.
pub struct PoolCore {
    slots: Vec<bool>,
    ready: Vec<usize>,
    jobs: Vec<u64>,
    closed: bool,
}

impl PoolCore {
    /// Every ready id names a slot, a ready slot's worker is alive, and no
    /// slot is ready twice — so no slot is ever handed two jobs at once.
    pub closed spec fn wf(&self) -> bool {
        &&& forall|i: int|
            0 <= i < self.ready@.len() ==> #[trigger] self.ready@[i] < self.slots@.len()
                && self.slots@[self.ready@[i] as int]
        &&& self.ready@.no_duplicates()
    }

    /// The fixed number of slots.
    pub closed spec fn capacity(&self) -> nat {
        self.slots@.len()
    }

    pub closed spec fn spec_slots(&self) -> Seq<bool> {
        self.slots@
    }

    /// Every slot is backed by a live worker.
    pub open spec fn all_live(&self) -> bool {
        forall|i: int| 0 <= i < self.spec_slots().len() ==> #[trigger] self.spec_slots()[i]
    }

    pub closed spec fn spec_ready(&self) -> Seq<usize> {
        self.ready@
    }

    pub closed spec fn spec_jobs(&self) -> Seq<u64> {
        self.jobs@
    }

    pub closed spec fn spec_closed(&self) -> bool {
        self.closed
    }

    /// A pool of `amount` slots, every worker freshly spawned and already
    /// announced on the ready queue in id order.
    pub fn new(amount: usize) -> (r: PoolCore)
        ensures
            r.wf(),
            r.capacity() == amount,
            r.all_live(),
            r.spec_ready().len() == amount,
            forall|i: int| 0 <= i < amount ==> #[trigger] r.spec_ready()[i] == i,
            r.spec_jobs().len() == 0,
            !r.spec_closed(),
    {
        let mut slots: Vec<bool> = Vec::new();
        let mut ready: Vec<usize> = Vec::new();
        let mut i: usize = 0;
        while i < amount
            invariant
                0 <= i <= amount,
                slots@.len() == i,
                ready@.len() == i,
                forall|j: int| 0 <= j < i ==> #[trigger] slots@[j],
                forall|j: int| 0 <= j < i ==> #[trigger] ready@[j] == j,
            decreases amount - i,
        {
            slots.push(true);
            ready.push(i);
            i = i + 1;
        }
        proof {
            assert(ready@.no_duplicates());
        }
        PoolCore { slots, ready, jobs: Vec::new(), closed: false }
    }

    /// Enqueues one job. Submission never blocks beyond the queue itself
    /// and fails exactly when the pool has been fully torn down; an
    /// accepted job is never silently dropped from the queue.
    pub fn submit(&mut self, job: u64) -> (r: Result<(), ThreadPoolError>)
        requires
            old(self).wf(),
        ensures
            final(self).wf(),
            old(self).spec_closed() ==> r is Err && *final(self) == *old(self),
            !old(self).spec_closed() ==> r is Ok && final(self).spec_jobs() == old(self).spec_jobs().push(job),
            final(self).spec_slots() == old(self).spec_slots(),
            final(self).spec_ready() == old(self).spec_ready(),
            final(self).spec_closed() == old(self).spec_closed(),
    {
        if self.closed {
            return Err(ThreadPoolError::new("sending on a closed channel".to_owned()));
        }
        self.jobs.push(job);
        Ok(())
    }

    /// Stops accepting jobs: what the drop of the last facade does to the
    /// sending side of the job queue.
    pub fn close(&mut self)
        requires
            old(self).wf(),
        ensures
            final(self).wf(),
            final(self).spec_closed(),
            final(self).spec_jobs() == old(self).spec_jobs(),
            final(self).spec_slots() == old(self).spec_slots(),
            final(self).spec_ready() == old(self).spec_ready(),
    {
        self.closed = true;
    }

    /// The dispatcher pulls the oldest queued job, if any.
    pub fn next_job(&mut self) -> (r: Option<u64>)
        requires
            old(self).wf(),
        ensures
            final(self).wf(),
            old(self).spec_jobs().len() == 0 ==> r is None && *final(self) == *old(self),
            old(self).spec_jobs().len() > 0 ==> r == Some(old(self).spec_jobs()[0]) && final(self).spec_jobs() == old(self).spec_jobs().drop_first(),
            final(self).spec_slots() == old(self).spec_slots(),
            final(self).spec_ready() == old(self).spec_ready(),
            final(self).spec_closed() == old(self).spec_closed(),
    {
        if self.jobs.len() == 0 {
            return None;
        }
        let job = self.jobs.remove(0);
        proof {
            assert(self.jobs@ =~= old(self).jobs@.drop_first());
        }
        Some(job)
    }

    /// One attempt to obtain an idle slot: the oldest announced id, whose
    /// worker is alive and which is handed out exactly once. `None` is the
    /// bounded timeout elapsing, after which the dispatcher runs a
    /// recovery scan and tries again.
    pub fn take_ready(&mut self) -> (r: Option<usize>)
        requires
            old(self).wf(),
        ensures
            final(self).wf(),
            old(self).spec_ready().len() == 0 ==> r is None && *final(self) == *old(self),
            old(self).spec_ready().len() > 0 ==> {
                &&& r == Some(old(self).spec_ready()[0])
                &&& old(self).spec_ready()[0] < old(self).capacity()
                &&& old(self).spec_slots()[old(self).spec_ready()[0] as int]
                &&& final(self).spec_ready() == old(self).spec_ready().drop_first()
            },
            final(self).spec_slots() == old(self).spec_slots(),
            final(self).spec_jobs() == old(self).spec_jobs(),
            final(self).spec_closed() == old(self).spec_closed(),
    {
        if self.ready.len() == 0 {
            return None;
        }
        let id = self.ready.remove(0);
        proof {
            assert(self.ready@ =~= old(self).ready@.drop_first());
            assert(forall|i: int|
                0 <= i < self.ready@.len() ==> #[trigger] self.ready@[i] == old(self).ready@[i
                    + 1]);
        }
        Some(id)
    }

    /// A worker announces readiness: on start, and again after finishing
    /// each job. A worker announces itself at most once until it is handed
    /// work again.
    pub fn worker_ready(&mut self, id: usize)
        requires
            old(self).wf(),
            id < old(self).capacity(),
            old(self).spec_slots()[id as int],
            !old(self).spec_ready().contains(id),
        ensures
            final(self).wf(),
            final(self).spec_ready() == old(self).spec_ready().push(id),
            final(self).spec_slots() == old(self).spec_slots(),
            final(self).spec_jobs() == old(self).spec_jobs(),
            final(self).spec_closed() == old(self).spec_closed(),
    {
        proof {
            assert(forall|i: int|
                0 <= i < self.ready@.len() ==> #[trigger] self.ready@[i] != id) by {
                assert(forall|i: int|
                    0 <= i < self.ready@.len() ==> self.ready@.contains(#[trigger] self.ready@[i]));
            }
        }
        self.ready.push(id);
        proof {
            assert(forall|i: int|
                0 <= i < old(self).ready@.len() ==> #[trigger] self.ready@[i] == old(self).ready@[i]);
            assert(self.ready@[old(self).ready@.len() as int] == id);
        }
    }

    /// The dispatcher observes, through the slot's liveness channel, that
    /// a worker's thread has exited. An exited worker is not on the ready
    /// queue: it either crashed while holding a job or left after the
    /// queue closed.
    pub fn worker_exited(&mut self, id: usize)
        requires
            old(self).wf(),
            id < old(self).capacity(),
            !old(self).spec_ready().contains(id),
        ensures
            final(self).wf(),
            final(self).spec_slots() == apply_slot_event(
                old(self).spec_slots(),
                SlotEvent::Crashed(id),
            ),
            final(self).spec_ready() == old(self).spec_ready(),
            final(self).spec_jobs() == old(self).spec_jobs(),
            final(self).spec_closed() == old(self).spec_closed(),
    {
        proof {
            assert(forall|i: int|
                0 <= i < self.ready@.len() ==> #[trigger] self.ready@[i] != id) by {
                assert(forall|i: int|
                    0 <= i < self.ready@.len() ==> self.ready@.contains(#[trigger] self.ready@[i]));
            }
        }
        self.slots.set(id, false);
    }

    /// The recovery scan: every slot whose worker has exited is respawned
    /// under the same id, and the fresh worker announces readiness. The
    /// job a crashed worker held is not re-queued; the scan leaves every
    /// slot live and the capacity untouched.
    pub fn recover(&mut self)
        requires
            old(self).wf(),
        ensures
            final(self).wf(),
            final(self).spec_slots() == apply_slot_event(
                old(self).spec_slots(),
                SlotEvent::Scanned,
            ),
            final(self).capacity() == old(self).capacity(),
            final(self).all_live(),
            final(self).spec_ready().subrange(0, old(self).spec_ready().len() as int) == old(self).spec_ready(),
            forall|x: usize|
                #[trigger] final(self).spec_ready().contains(x) <==> (old(self).spec_ready().contains(x) || (x < old(self).capacity() && !old(self).spec_slots()[x as int])),
            final(self).spec_jobs() == old(self).spec_jobs(),
            final(self).spec_closed() == old(self).spec_closed(),
    {
        let n = self.slots.len();
        let mut id: usize = 0;
        while id < n
            invariant
                0 <= id <= n,
                self.slots@.len() == n,
                n == old(self).slots@.len(),
                forall|j: int| 0 <= j < id ==> #[trigger] self.slots@[j],
                forall|j: int| id <= j < n ==> #[trigger] self.slots@[j] == old(self).slots@[j],
                self.ready@.subrange(0, old(self).ready@.len() as int) == old(self).ready@,
                self.ready@.len() >= old(self).ready@.len(),
                forall|x: usize|
                    #[trigger] self.ready@.contains(x) <==> (old(self).ready@.contains(x) || (x
                        < id && !old(self).slots@[x as int])),
                self.ready@.no_duplicates(),
                forall|i: int|
                    0 <= i < self.ready@.len() ==> #[trigger] self.ready@[i] < n
                        && self.slots@[self.ready@[i] as int],
                self.jobs@ == old(self).jobs@,
                self.closed == old(self).closed,
            decreases n - id,
        {
            if !self.slots[id] {
                proof {
                    assert(!self.ready@.contains(id));
                    assert(forall|i: int|
                        0 <= i < self.ready@.len() ==> #[trigger] self.ready@[i] != id) by {
                        assert(forall|i: int|
                            0 <= i < self.ready@.len() ==> self.ready@.contains(
                                #[trigger] self.ready@[i],
                            ));
                    }
                }
                let ghost mid_ready = self.ready@;
                self.slots.set(id, true);
                self.ready.push(id);
                proof {
                    assert(forall|i: int|
                        0 <= i < mid_ready.len() ==> #[trigger] self.ready@[i] == mid_ready[i]);
                    assert(self.ready@[mid_ready.len() as int] == id);
                    assert(self.ready@.subrange(0, old(self).ready@.len() as int) =~= old(self).ready@);
                }
            }
            id = id + 1;
        }
        proof {
            assert(self.slots@ =~= apply_slot_event(old(self).slots@, SlotEvent::Scanned));
        }
    }
}

} // verus!

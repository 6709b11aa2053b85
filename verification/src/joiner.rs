//! The thread joiner's collector protocol.
//!
//! A spawner may start an arbitrary, dynamically-sized number of threads;
//! a collector receives one event per lifecycle change and guarantees that
//! every started thread is eventually joined, exactly once. `Started`
//! records a handle, `Finished` removes and joins it (a guard bound to the
//! thread's lifetime reports `Finished` on normal return and on panic
//! alike), and `Stop` ends the loop and sweeps whatever is still
//! outstanding. The collector core here is the decision table; the
//! embedding program holds the real handles, keyed by the same ids, and
//! performs the joins the directives name.

use vstd::prelude::*;

verus! {

/// One thread lifecycle event, with thread ids as plain numbers.
#[derive(Debug, Clone, Copy, PartialEq, Eq, Structural)]
pub enum ThreadEvent {
    Started(u64),
    Finished(u64),
    Stop,
}

/// What the collector must do after taking one event.
#[derive(Debug)]
pub enum JoinDirective {
    /// A handle was recorded; nothing to join yet.
    Recorded,
    /// Join the named thread's handle now.
    JoinOne(u64),
    /// The named thread had no recorded handle; nothing to do.
    Skip,
    /// Tear down: join every listed handle, then exit the loop.
    Sweep(Vec<u64>),
}

/// The position of `id` in `v`, or `v`'s length when it is absent.
fn index_of_id(v: &Vec<u64>, id: u64) -> (r: usize)
    ensures
        r <= v@.len(),
        r < v@.len() ==> v@[r as int] == id,
        forall|i: int| 0 <= i < r ==> #[trigger] v@[i] != id,
{
    let n = v.len();
    let mut k: usize = 0;
    while k < n
        invariant
            0 <= k <= n,
            n == v@.len(),
            forall|i: int| 0 <= i < k ==> #[trigger] v@[i] != id,
        decreases n - k,
    {
        if v[k] == id {
            return k;
        }
        k = k + 1;
    }
    n
}

/// The collector's bookkeeping: the ids whose handles are recorded and
/// not yet joined, in arrival order.
pub struct JoinerCore {
    pending: Vec<u64>,
    stopped: bool,
}

impl JoinerCore {
    /// No id is recorded twice: the collector never joins a handle twice.
    pub closed spec fn wf(&self) -> bool {
        self.pending@.no_duplicates()
    }

    pub closed spec fn pending_ids(&self) -> Set<u64> {
        self.pending@.to_set()
    }

    pub closed spec fn pending_seq(&self) -> Seq<u64> {
        self.pending@
    }

    pub closed spec fn spec_stopped(&self) -> bool {
        self.stopped
    }

    pub fn new() -> (r: JoinerCore)
        ensures
            r.wf(),
            !r.spec_stopped(),
            r.pending_ids() =~= Set::<u64>::empty(),
    {
        let r = JoinerCore { pending: Vec::new(), stopped: false };
        proof {
            assert(r.pending@.to_set() =~= Set::<u64>::empty());
        }
        r
    }

    /// Takes one event and says what to join. `Started` only ever carries
    /// a fresh id: a thread id is unique while its handle is outstanding,
    /// and the guard that reports `Finished` is created only after the
    /// matching `Started` was recorded.
    pub fn on_event(&mut self, event: ThreadEvent) -> (r: JoinDirective)
        requires
            old(self).wf(),
            !old(self).spec_stopped(),
            event matches ThreadEvent::Started(id) ==> !old(self).pending_ids().contains(id),
        ensures
            final(self).wf(),
            match event {
                ThreadEvent::Started(id) => {
                    &&& final(self).pending_ids() == old(self).pending_ids().insert(id)
                    &&& !final(self).spec_stopped()
                    &&& r is Recorded
                },
                ThreadEvent::Finished(id) => {
                    &&& final(self).pending_ids() == old(self).pending_ids().remove(id)
                    &&& !final(self).spec_stopped()
                    &&& if old(self).pending_ids().contains(id) {
                        r == JoinDirective::JoinOne(id)
                    } else {
                        r is Skip
                    }
                },
                ThreadEvent::Stop => {
                    &&& final(self).pending_ids() =~= Set::<u64>::empty()
                    &&& final(self).spec_stopped()
                    &&& r matches JoinDirective::Sweep(ids) && ids@ == old(self).pending_seq()
                },
            },
    {
        match event {
            ThreadEvent::Started(id) => {
                proof {
                    assert(forall|i: int|
                        0 <= i < self.pending@.len() ==> #[trigger] self.pending@[i] != id) by {
                        assert(forall|i: int|
                            0 <= i < self.pending@.len() ==> self.pending@.contains(
                                #[trigger] self.pending@[i],
                            ));
                    }
                }
                self.pending.push(id);
                proof {
                    assert(self.pending@.drop_last() =~= old(self).pending@);
                    assert(self.pending@.to_set() =~= old(self).pending@.to_set().insert(id)) by {
                        assert(forall|x: u64|
                            #[trigger] self.pending@.contains(x) <==> (old(self).pending@.contains(
                                x,
                            ) || x == id)) by {
                            assert(forall|i: int|
                                0 <= i < old(self).pending@.len() ==> self.pending@[i] == old(
                                    self,
                                ).pending@[i]);
                            assert(self.pending@[old(self).pending@.len() as int] == id);
                        }
                    }
                }
                JoinDirective::Recorded
            },
            ThreadEvent::Finished(id) => {
                let n = self.pending.len();
                let k = index_of_id(&self.pending, id);
                if k == n {
                    proof {
                        assert(!self.pending@.contains(id));
                        assert(self.pending@.to_set() =~= self.pending@.to_set().remove(id));
                    }
                    JoinDirective::Skip
                } else {
                    proof {
                        assert(self.pending@.contains(id)) by {
                            assert(self.pending@[k as int] == id);
                        }
                    }
                    self.pending.remove(k);
                    proof {
                        let before = old(self).pending@;
                        let after = self.pending@;
                        assert(forall|i: int| 0 <= i < k ==> #[trigger] after[i] == before[i]);
                        assert(forall|i: int|
                            k <= i < after.len() ==> #[trigger] after[i] == before[i + 1]);
                        assert(before[k as int] == id);
                        assert forall|i: int| 0 <= i < before.len() && i != k implies #[trigger] before[i]
                            != id by {
                            assert(before[k as int] == id);
                        }
                        assert forall|x: u64| #[trigger] after.contains(x) implies before.contains(
                            x,
                        ) && x != id by {
                            let i = choose|i: int| 0 <= i < after.len() && after[i] == x;
                            if i < k {
                                assert(before[i] == x);
                            } else {
                                assert(before[i + 1] == x);
                            }
                        }
                        assert forall|x: u64| before.contains(x) && x != id implies after.contains(
                            x,
                        ) by {
                            let i = choose|i: int| 0 <= i < before.len() && before[i] == x;
                            if i < k {
                                assert(after[i] == x);
                            } else {
                                assert(i != k);
                                assert(after[i - 1] == x);
                            }
                        }
                        assert(after.to_set() =~= before.to_set().remove(id));
                        assert forall|i: int, j: int| 0 <= i < j < after.len() implies #[trigger] after[i]
                            != #[trigger] after[j] by {
                            if j < k {
                            } else if i < k {
                                assert(after[j] == before[j + 1]);
                            } else {
                                assert(after[i] == before[i + 1]);
                                assert(after[j] == before[j + 1]);
                            }
                        }
                    }
                    JoinDirective::JoinOne(id)
                }
            },
            ThreadEvent::Stop => {
                self.stopped = true;
                let swept = self.pending.split_off(0);
                proof {
                    assert(swept@ =~= old(self).pending@);
                    assert(self.pending@.to_set() =~= Set::<u64>::empty());
                }
                JoinDirective::Sweep(swept)
            },
        }
    }
}

/// One step of the joiner's abstract account: which ids are outstanding
/// and which have been joined.
pub open spec fn joiner_step(pending: Set<u64>, joined: Set<u64>, event: ThreadEvent) -> (
    Set<u64>,
    Set<u64>,
) {
    match event {
        ThreadEvent::Started(id) => (pending.insert(id), joined),
        ThreadEvent::Finished(id) => if pending.contains(id) {
            (pending.remove(id), joined.insert(id))
        } else {
            (pending, joined)
        },
        ThreadEvent::Stop => (Set::empty(), joined.union(pending)),
    }
}

/// The joiner's account after a whole event sequence, starting empty.
pub open spec fn joiner_run(events: Seq<ThreadEvent>) -> (Set<u64>, Set<u64>)
    decreases events.len(),
{
    if events.len() == 0 {
        (Set::empty(), Set::empty())
    } else {
        let prev = joiner_run(events.drop_last());
        joiner_step(prev.0, prev.1, events.last())
    }
}

/// The ids that `Started` events of the sequence announce.
pub open spec fn started_ids(events: Seq<ThreadEvent>) -> Set<u64>
    decreases events.len(),
{
    if events.len() == 0 {
        Set::empty()
    } else {
        let rest = started_ids(events.drop_last());
        match events.last() {
            ThreadEvent::Started(id) => rest.insert(id),
            _ => rest,
        }
    }
}

/// Every started id is accounted for: at any point before teardown, the
/// outstanding and the joined ids together are exactly the started ids.
pub proof fn lemma_joiner_accounts(events: Seq<ThreadEvent>)
    requires
        forall|i: int| 0 <= i < events.len() ==> !(#[trigger] events[i] is Stop),
    ensures
        joiner_run(events).0.union(joiner_run(events).1) =~= started_ids(events),
    decreases events.len(),
{
    if events.len() > 0 {
        assert(forall|i: int|
            0 <= i < events.len() - 1 ==> #[trigger] events.drop_last()[i] == events[i]);
        lemma_joiner_accounts(events.drop_last());
        let prev = joiner_run(events.drop_last());
        match events.last() {
            ThreadEvent::Started(id) => {
                assert(prev.0.insert(id).union(prev.1) =~= prev.0.union(prev.1).insert(id));
            },
            ThreadEvent::Finished(id) => {
                if prev.0.contains(id) {
                    assert(prev.0.remove(id).union(prev.1.insert(id)) =~= prev.0.union(prev.1));
                }
            },
            ThreadEvent::Stop => {
                assert(events[events.len() - 1] is Stop);
            },
        }
    }
}

/// Thread-joiner law: for any sequence of spawns and completions followed
/// by teardown, nothing is left outstanding — every thread that was ever
/// started has been joined, whatever order `Started` and `Finished`
/// arrived in.
pub proof fn lemma_joiner_no_leaks(events: Seq<ThreadEvent>)
    requires
        forall|i: int| 0 <= i < events.len() ==> !(#[trigger] events[i] is Stop),
    ensures
        joiner_run(events.push(ThreadEvent::Stop)).0.is_empty(),
        joiner_run(events.push(ThreadEvent::Stop)).1 =~= started_ids(events),
{
    let full = events.push(ThreadEvent::Stop);
    assert(full.drop_last() =~= events);
    lemma_joiner_accounts(events);
    let prev = joiner_run(events);
    assert(joiner_run(full) == joiner_step(prev.0, prev.1, ThreadEvent::Stop));
    assert(prev.1.union(prev.0) =~= prev.0.union(prev.1));
}

} // verus!

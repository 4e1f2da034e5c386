//! The bookkeeping of a stream of tasks run in parallel: tasks are handed
//! out in order, their results come back in any order, and the results are
//! processed in the order the tasks were submitted. The threads themselves
//! are run by the caller, which asks `next_action` what to do.
use vstd::prelude::*;
use vstd::std_specs::hash::group_hash_axioms;

use std::collections::HashMap;

verus! {

broadcast use group_hash_axioms;

/// What the caller does next.
#[derive(Clone, Copy, PartialEq, Eq, Debug, Structural)]
pub enum StreamAction {
    /// Hand the next task to a thread (`spawned` gives its index).
    Spawn,
    /// Wait for a result from a thread (report it with `received`).
    Wait,
    /// Process the next result in submission order (take it with `deliver`).
    Deliver,
    /// All tasks are done and all results processed.
    Done,
}

/// The state of a stream of tasks.
pub struct TaskStream<R> {
    task_i: usize,
    result_i: usize,
    spawned: usize,
    max_spawned: usize,
    results: HashMap<usize, R>,
    in_flight: Ghost<Set<usize>>,
}

impl<R> TaskStream<R> {
    /// Number of tasks handed out so far.
    pub closed spec fn submitted(self) -> nat {
        self.task_i as nat
    }

    /// Number of results processed so far.
    pub closed spec fn processed(self) -> nat {
        self.result_i as nat
    }

    /// Number of tasks running.
    pub closed spec fn running(self) -> nat {
        self.spawned as nat
    }

    /// The most tasks that may run at once.
    pub closed spec fn capacity(self) -> nat {
        self.max_spawned as nat
    }

    /// The results that came back and wait to be processed, by task index.
    pub closed spec fn waiting(self) -> Map<usize, R> {
        self.results@
    }

    /// The indices of the running tasks.
    pub closed spec fn running_set(self) -> Set<usize> {
        self.in_flight@
    }

    /// What every stream keeps: every task not yet processed is either
    /// running or waiting with its result, never both.
    pub open spec fn wf(self) -> bool {
        &&& self.processed() <= self.submitted()
        &&& self.capacity() >= 1
        &&& self.running() <= self.capacity()
        &&& self.running_set().finite()
        &&& self.running_set().len() == self.running()
        &&& forall|k: usize| #[trigger] self.running_set().contains(k) ==> self.processed() <= k < self.submitted()
        &&& forall|k: usize| #[trigger] self.waiting().contains_key(k) ==> self.processed() <= k < self.submitted()
        &&& forall|k: usize|
            self.processed() <= k < self.submitted() ==> (#[trigger] self.running_set().contains(k)
                != self.waiting().contains_key(k))
    }

    /// A stream with nothing submitted, that runs at most `max_spawned`
    /// tasks at once.
    pub fn new(max_spawned: usize) -> (r: Self)
        requires
            max_spawned >= 1,
        ensures
            r.wf(),
            r.submitted() == 0,
            r.processed() == 0,
            r.running() == 0,
            r.capacity() == max_spawned,
            r.waiting() == Map::<usize, R>::empty(),
    {
        TaskStream {
            task_i: 0,
            result_i: 0,
            spawned: 0,
            max_spawned,
            results: HashMap::new(),
            in_flight: Ghost(Set::empty()),
        }
    }

    /// What to do next, given whether tasks wait to be handed out: finish
    /// once every task is processed and none waits; process the next result
    /// once it is there; otherwise hand out a task if one waits and there is
    /// room; otherwise wait for a result (a task is then running).
    pub fn next_action(&self, tasks_pending: bool) -> (r: StreamAction)
        requires
            self.wf(),
        ensures
            r == (if !(self.processed() < self.submitted() || tasks_pending) {
                StreamAction::Done
            } else if self.waiting().contains_key(self.processed() as usize) {
                StreamAction::Deliver
            } else if self.running() < self.capacity() && tasks_pending {
                StreamAction::Spawn
            } else {
                StreamAction::Wait
            }),
            r == StreamAction::Wait ==> self.running() > 0,
            r == StreamAction::Done ==> self.running() == 0 && self.waiting().dom().is_empty()
                && self.processed() == self.submitted(),
    {
        proof {
            if self.result_i < self.task_i && !self.results@.contains_key(self.result_i) {
                assert(self.in_flight@.contains(self.result_i));
                vstd::set_lib::lemma_set_empty_equivalency_len(self.in_flight@);
            }
            if self.result_i == self.task_i {
                assert(self.in_flight@ =~= Set::empty());
                assert forall|k: usize| !self.results@.dom().contains(k) by {
                    if self.results@.contains_key(k) {
                        assert(self.waiting().contains_key(k));
                    }
                }
                assert(self.results@.dom() =~= Set::empty());
            }
        }
        if !(self.result_i < self.task_i || tasks_pending) {
            StreamAction::Done
        } else if self.results.contains_key(&self.result_i) {
            StreamAction::Deliver
        } else if self.spawned < self.max_spawned && tasks_pending {
            StreamAction::Spawn
        } else {
            StreamAction::Wait
        }
    }

    /// A task is handed out: returns its index.
    pub fn spawned(&mut self) -> (i: usize)
        requires
            old(self).wf(),
            old(self).running() < old(self).capacity(),
            old(self).submitted() < usize::MAX,
        ensures
            final(self).wf(),
            i == old(self).submitted(),
            final(self).submitted() == old(self).submitted() + 1,
            final(self).running() == old(self).running() + 1,
            final(self).processed() == old(self).processed(),
            final(self).capacity() == old(self).capacity(),
            final(self).waiting() == old(self).waiting(),
            stream_step(*old(self), *final(self), None),
    {
        let i = self.task_i;
        let ghost old_set = self.in_flight@;
        proof {
            assert(!self.in_flight@.contains(i));
            assert(!self.results@.contains_key(i)) by {
                if self.results@.contains_key(i) {
                    assert(self.waiting().contains_key(i));
                }
            }
            self.in_flight@ = self.in_flight@.insert(i);
        }
        self.task_i = self.task_i + 1;
        self.spawned = self.spawned + 1;
        proof {
            assert forall|k: usize| #[trigger] self.running_set().contains(k) implies self.processed() <= k
                < self.submitted() by {
                if k != i {
                    assert(old_set.contains(k));
                }
            }
            assert forall|k: usize| #[trigger] self.waiting().contains_key(k) implies self.processed() <= k
                < self.submitted() by {
                assert(old(self).waiting().contains_key(k));
            }
            assert forall|k: usize|
                self.processed() <= k < self.submitted() implies (#[trigger] self.running_set().contains(k)
                != self.waiting().contains_key(k)) by {
                if k != i {
                    assert(old(self).running_set().contains(k) != old(self).waiting().contains_key(k));
                }
            }
        }
        i
    }

    /// Whether a result for task `i` is expected: the task runs.
    pub fn expects(&self, i: usize) -> (r: bool)
        requires
            self.wf(),
        ensures
            r == self.running_set().contains(i),
    {
        proof {
            if self.in_flight@.contains(i) {
                assert(self.result_i <= i < self.task_i);
            }
        }
        self.result_i <= i && i < self.task_i && !self.results.contains_key(&i)
    }

    /// The result `r` of the running task `i` came back.
    pub fn received(&mut self, i: usize, r: R)
        requires
            old(self).wf(),
            old(self).running_set().contains(i),
        ensures
            final(self).wf(),
            final(self).waiting() == old(self).waiting().insert(i, r),
            final(self).running() == old(self).running() - 1,
            final(self).submitted() == old(self).submitted(),
            final(self).processed() == old(self).processed(),
            final(self).capacity() == old(self).capacity(),
            stream_step(*old(self), *final(self), None),
    {
        proof {
            vstd::set_lib::lemma_set_empty_equivalency_len(self.in_flight@);
            self.in_flight@ = self.in_flight@.remove(i);
        }
        self.results.insert(i, r);
        self.spawned = self.spawned - 1;
    }

    /// Take the next result in submission order: the result of the task at
    /// index `processed()`, paired with the number of results processed
    /// including it.
    pub fn deliver(&mut self) -> (out: (usize, R))
        requires
            old(self).wf(),
            old(self).waiting().contains_key(old(self).processed() as usize),
        ensures
            final(self).wf(),
            out.0 == old(self).processed() + 1,
            out.1 == old(self).waiting()[old(self).processed() as usize],
            final(self).processed() == old(self).processed() + 1,
            final(self).waiting() == old(self).waiting().remove(old(self).processed() as usize),
            final(self).submitted() == old(self).submitted(),
            final(self).running() == old(self).running(),
            final(self).capacity() == old(self).capacity(),
            stream_step(*old(self), *final(self), Some(old(self).processed())),
    {
        let k = self.result_i;
        let v = self.results.remove(&k).unwrap();
        self.result_i = self.result_i + 1;
        (self.result_i, v)
    }
}

/// One operation on a stream, from `a` to `b`: handing out a task
/// (`spawned`) or taking back a result (`received`), which process nothing
/// (`delivered` is `None`), or processing the next result (`deliver`), which
/// delivers the task at index `a.processed()`.
pub open spec fn stream_step<R>(a: TaskStream<R>, b: TaskStream<R>, delivered: Option<nat>) -> bool {
    ||| delivered is None && b.processed() == a.processed() && b.submitted() >= a.submitted()
    ||| delivered == Some(a.processed()) && b.processed() == a.processed() + 1 && b.submitted() == a.submitted()
}

/// The indices of the delivered tasks, in the order of the operations.
pub open spec fn delivered_tasks(ds: Seq<Option<nat>>) -> Seq<nat>
    decreases ds.len(),
{
    if ds.len() == 0 {
        Seq::empty()
    } else {
        let prev = delivered_tasks(ds.drop_last());
        match ds.last() {
            Some(i) => prev.push(i),
            None => prev,
        }
    }
}

/// Over a whole run from a new stream, results are delivered in submission
/// order, each task once: the tasks delivered by the operations `ds` leading
/// through the states `ss` are 0, 1, 2, ... up to the number processed.
pub proof fn lemma_delivered_in_order<R>(ss: Seq<TaskStream<R>>, ds: Seq<Option<nat>>)
    requires
        ss.len() == ds.len() + 1,
        ss[0].processed() == 0,
        forall|i: int| 0 <= i < ds.len() ==> #[trigger] stream_step(ss[i], ss[i + 1], ds[i]),
    ensures
        delivered_tasks(ds) == Seq::new(ss.last().processed(), |i: int| i as nat),
    decreases ds.len(),
{
    if ds.len() > 0 {
        let ss2 = ss.drop_last();
        let ds2 = ds.drop_last();
        assert forall|i: int| 0 <= i < ds2.len() implies #[trigger] stream_step(ss2[i], ss2[i + 1], ds2[i]) by {
            assert(stream_step(ss[i], ss[i + 1], ds[i]));
        }
        lemma_delivered_in_order(ss2, ds2);
        let n = ds.len() - 1;
        assert(stream_step(ss[n], ss[n + 1], ds[n]));
        assert(ss2.last() == ss[n]);
        assert(delivered_tasks(ds) =~= Seq::new(ss.last().processed(), |i: int| i as nat));
    } else {
        assert(delivered_tasks(ds) =~= Seq::new(ss.last().processed(), |i: int| i as nat));
    }
}

} // verus!

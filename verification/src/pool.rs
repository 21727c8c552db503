//! The worker-pool lifecycle model.
//!
//! A pool owns a fixed set of workers and the sole producer end of an
//! unbounded job queue. Jobs are identified by the sequence number they
//! receive on submission. The model tracks, for every submitted job, the one
//! place that currently accounts for it: still pending in the queue, being
//! executed by a worker, executed to completion, lost to a worker fault, or
//! dropped undelivered when the queue was closed. The well-formedness
//! predicate [`ThreadPool::wf`] states that this accounting is exact — no
//! job is ever duplicated or silently lost — and every operation of the
//! model preserves it.

use vstd::multiset::Multiset;
use vstd::prelude::*;

verus! {

broadcast use vstd::seq_lib::group_to_multiset_ensures, vstd::multiset::group_multiset_axioms;

/// Phase of one worker in its lifecycle: waiting for the next job, executing
/// the job with the given sequence number, or exited (after observing queue
/// closure, or after a fault in a job confined to this worker's thread).
#[derive(Clone, Copy, Debug, PartialEq, Eq, Structural)]
pub enum WorkerPhase {
    Running,
    Executing(u64),
    Terminated,
}

/// One worker: its lifecycle phase and whether its thread handle has been
/// joined by the pool's teardown.
#[derive(Clone, Copy, Debug, PartialEq, Eq, Structural)]
pub struct Worker {
    pub phase: WorkerPhase,
    pub joined: bool,
}

/// What a worker's blocking wait on the shared queue came back with: a job,
/// or the signal that the queue is closed and empty.
#[derive(Clone, Copy, Debug, PartialEq, Eq, Structural)]
pub enum WorkerMessage {
    NewJob(u64),
    Disconnected,
}

/// What a worker does next: run the received job synchronously, or exit its
/// loop so that the pool can join its thread.
#[derive(Clone, Copy, Debug, PartialEq, Eq, Structural)]
pub enum WorkerAction {
    RunJob(u64),
    Exit,
}

/// The decision a worker owes to each message from the shared queue.
pub open spec fn worker_decision(msg: WorkerMessage) -> WorkerAction {
    match msg {
        WorkerMessage::NewJob(id) => WorkerAction::RunJob(id),
        WorkerMessage::Disconnected => WorkerAction::Exit,
    }
}

/// The step a worker takes on each message it receives from the shared
/// queue: a received job is run, and a closed queue ends the worker's loop.
/// There is no other transition.
pub fn worker_step(msg: WorkerMessage) -> (action: WorkerAction)
    ensures
        action == worker_decision(msg),
{
    match msg {
        WorkerMessage::NewJob(id) => WorkerAction::RunJob(id),
        WorkerMessage::Disconnected => WorkerAction::Exit,
    }
}

/// Number of workers of `ws` currently executing the job `id`. Exactly-once
/// delivery shows up as this count never exceeding one.
pub open spec fn executing_count(ws: Seq<Worker>, id: u64) -> nat
    decreases ws.len(),
{
    if ws.len() == 0 {
        0
    } else {
        executing_count(ws.drop_last(), id) + (if ws.last().phase == WorkerPhase::Executing(id) {
            1nat
        } else {
            0nat
        })
    }
}

/// Number of workers of `ws` whose thread is still live (not terminated).
pub open spec fn live_count(ws: Seq<Worker>) -> nat
    decreases ws.len(),
{
    if ws.len() == 0 {
        0
    } else {
        live_count(ws.drop_last()) + (if ws.last().phase == WorkerPhase::Terminated {
            0nat
        } else {
            1nat
        })
    }
}

/// The fixed-size worker pool, modelled at the level of its hand-off
/// protocol: which job sits where, which worker is in which phase, and
/// whether the producer end of the queue is still open. Jobs are the
/// sequence numbers handed out at submission; the opaque work they stand
/// for never enters the model.
pub struct ThreadPool {
    /// One entry per worker, fixed at construction.
    pub workers: Vec<Worker>,
    /// Jobs submitted but not yet claimed by any worker, oldest first.
    pub queue: Vec<u64>,
    /// Jobs executed to completion, in completion order.
    pub executed: Vec<u64>,
    /// Jobs whose execution faulted, taking their worker's thread with them.
    pub faulted: Vec<u64>,
    /// Jobs dropped undelivered when the queue was closed.
    pub dropped: Vec<u64>,
    /// Number of jobs submitted so far; also the next job's sequence number.
    pub submitted: u64,
    /// Whether the producer end of the queue is still open for submission.
    pub open: bool,
}

impl ThreadPool {
    /// In how many places job `id` is currently accounted for.
    pub open spec fn accounted(self, id: u64) -> nat {
        self.queue@.to_multiset().count(id) + executing_count(self.workers@, id)
            + self.executed@.to_multiset().count(id) + self.faulted@.to_multiset().count(id)
            + self.dropped@.to_multiset().count(id)
    }

    /// Number of workers whose thread is still live.
    pub open spec fn live_workers(self) -> nat {
        live_count(self.workers@)
    }

    /// The pool invariant. Every submitted job is accounted for in exactly
    /// one place and no unsubmitted number appears anywhere; the queue hands
    /// jobs out in submission order; a closed queue holds nothing; nothing
    /// is dropped while the queue is open; and only terminated workers have
    /// had their thread joined.
    pub open spec fn wf(self) -> bool {
        &&& forall|id: u64| #![trigger self.accounted(id)]
            id < self.submitted ==> self.accounted(id) == 1
        &&& forall|id: u64| #![trigger self.accounted(id)]
            id >= self.submitted ==> self.accounted(id) == 0
        &&& forall|i: int, j: int|
            0 <= i < j < self.queue@.len() ==> self.queue@[i] < self.queue@[j]
        &&& forall|i: int| 0 <= i < self.queue@.len() ==> self.queue@[i] < self.submitted
        &&& !self.open ==> self.queue@.len() == 0
        &&& self.open ==> self.dropped@.len() == 0
        &&& forall|i: int|
            0 <= i < self.workers@.len() ==> (#[trigger] self.workers@[i].joined
                ==> self.workers@[i].phase == WorkerPhase::Terminated)
    }
}

/// Changing one worker changes each job's executing count by exactly that
/// worker's own contribution.
proof fn lemma_executing_count_update(ws: Seq<Worker>, w: int, nw: Worker, id: u64)
    requires
        0 <= w < ws.len(),
    ensures
        executing_count(ws.update(w, nw), id) == executing_count(ws, id) - (if ws[w].phase
            == WorkerPhase::Executing(id) {
            1int
        } else {
            0int
        }) + (if nw.phase == WorkerPhase::Executing(id) {
            1int
        } else {
            0int
        }),
    decreases ws.len(),
{
    if w == ws.len() - 1 {
        assert(ws.update(w, nw).drop_last() =~= ws.drop_last());
    } else {
        assert(ws.update(w, nw).drop_last() =~= ws.drop_last().update(w, nw));
        lemma_executing_count_update(ws.drop_last(), w, nw, id);
    }
}

/// A set of workers none of which is executing `id` contributes nothing to
/// `id`'s executing count.
proof fn lemma_executing_count_absent(ws: Seq<Worker>, id: u64)
    requires
        forall|i: int| 0 <= i < ws.len() ==> ws[i].phase != WorkerPhase::Executing(id),
    ensures
        executing_count(ws, id) == 0,
    decreases ws.len(),
{
    if ws.len() > 0 {
        lemma_executing_count_absent(ws.drop_last(), id);
    }
}

/// With no worker terminated, every worker counts as live.
proof fn lemma_live_count_all(ws: Seq<Worker>)
    requires
        forall|i: int| 0 <= i < ws.len() ==> ws[i].phase != WorkerPhase::Terminated,
    ensures
        live_count(ws) == ws.len(),
    decreases ws.len(),
{
    if ws.len() > 0 {
        lemma_live_count_all(ws.drop_last());
    }
}

/// With every worker terminated, no worker counts as live.
proof fn lemma_live_count_none(ws: Seq<Worker>)
    requires
        forall|i: int| 0 <= i < ws.len() ==> ws[i].phase == WorkerPhase::Terminated,
    ensures
        live_count(ws) == 0,
    decreases ws.len(),
{
    if ws.len() > 0 {
        lemma_live_count_none(ws.drop_last());
    }
}

/// An element a sequence does not contain has multiset count zero there.
proof fn lemma_seq_count_zero(s: Seq<u64>, id: u64)
    requires
        !s.contains(id),
    ensures
        s.to_multiset().count(id) == 0,
{
}

impl ThreadPool {
    /// A pool of `size` workers, all live and waiting, with an empty queue
    /// open for submission and no job anywhere yet. A pool of zero workers
    /// could never run a job, so construction refuses it outright.
    pub fn new(size: usize) -> (p: ThreadPool)
        requires
            size >= 1,
        ensures
            p.wf(),
            p.workers@.len() == size,
            forall|i: int|
                0 <= i < size ==> p.workers@[i] == (Worker {
                    phase: WorkerPhase::Running,
                    joined: false,
                }),
            p.live_workers() == size,
            p.open,
            p.submitted == 0,
            p.queue@ == Seq::<u64>::empty(),
            p.executed@ == Seq::<u64>::empty(),
            p.faulted@ == Seq::<u64>::empty(),
            p.dropped@ == Seq::<u64>::empty(),
    {
        let mut workers: Vec<Worker> = Vec::new();
        let mut i: usize = 0;
        while i < size
            invariant
                i <= size,
                workers@.len() == i,
                forall|k: int|
                    0 <= k < i ==> workers@[k] == (Worker {
                        phase: WorkerPhase::Running,
                        joined: false,
                    }),
            decreases size - i,
        {
            workers.push(Worker { phase: WorkerPhase::Running, joined: false });
            i += 1;
        }
        let p = ThreadPool {
            workers,
            queue: Vec::new(),
            executed: Vec::new(),
            faulted: Vec::new(),
            dropped: Vec::new(),
            submitted: 0,
            open: true,
        };
        proof {
            assert forall|id: u64| p.accounted(id) == 0 by {
                lemma_executing_count_absent(p.workers@, id);
                lemma_seq_count_zero(p.queue@, id);
                lemma_seq_count_zero(p.executed@, id);
                lemma_seq_count_zero(p.faulted@, id);
                lemma_seq_count_zero(p.dropped@, id);
            }
            lemma_live_count_all(p.workers@);
        }
        p
    }

    /// Submission: the job takes the next sequence number and joins the back
    /// of the queue; nothing else moves. Submission never blocks and gives
    /// the caller no way to await a result.
    pub fn execute(&mut self) -> (id: u64)
        requires
            old(self).wf(),
            old(self).open,
            old(self).submitted < u64::MAX,
        ensures
            final(self).wf(),
            id == old(self).submitted,
            final(self).submitted == old(self).submitted + 1,
            final(self).queue@ == old(self).queue@.push(id),
            final(self).workers@ == old(self).workers@,
            final(self).executed@ == old(self).executed@,
            final(self).faulted@ == old(self).faulted@,
            final(self).dropped@ == old(self).dropped@,
            final(self).open,
            final(self).live_workers() == old(self).live_workers(),
    {
        let id = self.submitted;
        self.queue.push(id);
        self.submitted = self.submitted + 1;
        proof {
            assert forall|id2: u64| id2 < self.submitted implies self.accounted(id2) == 1 by {
                if id2 == id {
                    assert(old(self).accounted(id2) == 0);
                } else {
                    assert(old(self).accounted(id2) == 1);
                }
            }
            assert forall|id2: u64| id2 >= self.submitted implies self.accounted(id2) == 0 by {
                assert(old(self).accounted(id2) == 0);
            }
        }
        id
    }

    /// Hand-off: a waiting worker claims the oldest pending job and starts
    /// executing it. In the running system this is the moment the worker's
    /// blocking wait returns with a job; the queue itself serializes the
    /// competition between workers.
    pub fn deliver(&mut self, w: usize) -> (id: u64)
        requires
            old(self).wf(),
            w < old(self).workers@.len(),
            old(self).workers@[w as int].phase == WorkerPhase::Running,
            old(self).queue@.len() > 0,
        ensures
            final(self).wf(),
            id == old(self).queue@[0],
            final(self).queue@ == old(self).queue@.drop_first(),
            final(self).workers@ == old(self).workers@.update(
                w as int,
                Worker { phase: WorkerPhase::Executing(id), joined: false },
            ),
            final(self).executed@ == old(self).executed@,
            final(self).faulted@ == old(self).faulted@,
            final(self).dropped@ == old(self).dropped@,
            final(self).submitted == old(self).submitted,
            final(self).open == old(self).open,
    {
        let id = self.queue.remove(0);
        self.workers[w] = Worker { phase: WorkerPhase::Executing(id), joined: false };
        proof {
            assert(old(self).queue@.remove(0) =~= old(self).queue@.drop_first());
            assert forall|id2: u64| #![trigger self.accounted(id2)]
                self.accounted(id2) == old(self).accounted(id2) by {
                lemma_executing_count_update(
                    old(self).workers@,
                    w as int,
                    Worker { phase: WorkerPhase::Executing(id), joined: false },
                    id2,
                );
            }
        }
        id
    }

    /// Completion: the worker finishes its job normally, logs it as
    /// executed, and goes back to waiting for the next one.
    pub fn complete(&mut self, w: usize) -> (id: u64)
        requires
            old(self).wf(),
            w < old(self).workers@.len(),
            old(self).workers@[w as int].phase matches WorkerPhase::Executing(_),
        ensures
            final(self).wf(),
            old(self).workers@[w as int].phase == WorkerPhase::Executing(id),
            final(self).workers@ == old(self).workers@.update(
                w as int,
                Worker { phase: WorkerPhase::Running, joined: false },
            ),
            final(self).executed@ == old(self).executed@.push(id),
            final(self).queue@ == old(self).queue@,
            final(self).faulted@ == old(self).faulted@,
            final(self).dropped@ == old(self).dropped@,
            final(self).submitted == old(self).submitted,
            final(self).open == old(self).open,
    {
        let id = match self.workers[w].phase {
            WorkerPhase::Executing(i) => i,
            _ => 0,
        };
        self.workers[w] = Worker { phase: WorkerPhase::Running, joined: false };
        self.executed.push(id);
        proof {
            assert forall|id2: u64| #![trigger self.accounted(id2)]
                self.accounted(id2) == old(self).accounted(id2) by {
                lemma_executing_count_update(
                    old(self).workers@,
                    w as int,
                    Worker { phase: WorkerPhase::Running, joined: false },
                    id2,
                );
            }
        }
        id
    }

    /// A fault inside the job: it is confined to the owning worker's thread,
    /// which exits and is never replaced, permanently reducing the pool's
    /// capacity by one. The job is logged as faulted, not as executed, and
    /// is never retried.
    pub fn fault(&mut self, w: usize) -> (id: u64)
        requires
            old(self).wf(),
            w < old(self).workers@.len(),
            old(self).workers@[w as int].phase matches WorkerPhase::Executing(_),
        ensures
            final(self).wf(),
            old(self).workers@[w as int].phase == WorkerPhase::Executing(id),
            final(self).workers@ == old(self).workers@.update(
                w as int,
                Worker { phase: WorkerPhase::Terminated, joined: false },
            ),
            final(self).faulted@ == old(self).faulted@.push(id),
            final(self).queue@ == old(self).queue@,
            final(self).executed@ == old(self).executed@,
            final(self).dropped@ == old(self).dropped@,
            final(self).submitted == old(self).submitted,
            final(self).open == old(self).open,
    {
        let id = match self.workers[w].phase {
            WorkerPhase::Executing(i) => i,
            _ => 0,
        };
        self.workers[w] = Worker { phase: WorkerPhase::Terminated, joined: false };
        self.faulted.push(id);
        proof {
            assert forall|id2: u64| #![trigger self.accounted(id2)]
                self.accounted(id2) == old(self).accounted(id2) by {
                lemma_executing_count_update(
                    old(self).workers@,
                    w as int,
                    Worker { phase: WorkerPhase::Terminated, joined: false },
                    id2,
                );
            }
        }
        id
    }

    /// Queue closure, the first half of teardown: the sole producer end is
    /// given up, so nothing further can be submitted, and every job still
    /// undelivered is dropped without execution. Workers still executing
    /// keep running; blocked workers will observe the closure and exit.
    pub fn close(&mut self)
        requires
            old(self).wf(),
            old(self).open,
        ensures
            final(self).wf(),
            !final(self).open,
            final(self).queue@ == Seq::<u64>::empty(),
            final(self).dropped@ == old(self).queue@,
            final(self).workers@ == old(self).workers@,
            final(self).executed@ == old(self).executed@,
            final(self).faulted@ == old(self).faulted@,
            final(self).submitted == old(self).submitted,
    {
        self.open = false;
        self.dropped.append(&mut self.queue);
        proof {
            assert(self.dropped@ =~= old(self).queue@);
            assert forall|id2: u64| #![trigger self.accounted(id2)]
                self.accounted(id2) == old(self).accounted(id2) by {
                lemma_seq_count_zero(self.queue@, id2);
                lemma_seq_count_zero(old(self).dropped@, id2);
            }
        }
    }

    /// A blocked worker observes that the queue is closed and empty — the
    /// terminal signal, not an error to retry on — and exits its loop.
    pub fn observe_closed(&mut self, w: usize)
        requires
            old(self).wf(),
            w < old(self).workers@.len(),
            old(self).workers@[w as int].phase == WorkerPhase::Running,
            !old(self).open,
        ensures
            final(self).wf(),
            final(self).workers@ == old(self).workers@.update(
                w as int,
                Worker { phase: WorkerPhase::Terminated, joined: false },
            ),
            final(self).queue@ == old(self).queue@,
            final(self).executed@ == old(self).executed@,
            final(self).faulted@ == old(self).faulted@,
            final(self).dropped@ == old(self).dropped@,
            final(self).submitted == old(self).submitted,
            !final(self).open,
    {
        self.workers[w] = Worker { phase: WorkerPhase::Terminated, joined: false };
        proof {
            assert forall|id2: u64| #![trigger self.accounted(id2)]
                self.accounted(id2) == old(self).accounted(id2) by {
                lemma_executing_count_update(
                    old(self).workers@,
                    w as int,
                    Worker { phase: WorkerPhase::Terminated, joined: false },
                    id2,
                );
            }
        }
    }

    /// The second half of teardown: the pool joins one worker's thread. A
    /// thread can be joined only once it has terminated — a worker still
    /// executing holds teardown up until its job ends — and each handle is
    /// joined exactly once, so none is ever leaked.
    pub fn join_worker(&mut self, w: usize)
        requires
            old(self).wf(),
            w < old(self).workers@.len(),
            old(self).workers@[w as int].phase == WorkerPhase::Terminated,
            !old(self).workers@[w as int].joined,
        ensures
            final(self).wf(),
            final(self).workers@ == old(self).workers@.update(
                w as int,
                Worker { phase: WorkerPhase::Terminated, joined: true },
            ),
            final(self).queue@ == old(self).queue@,
            final(self).executed@ == old(self).executed@,
            final(self).faulted@ == old(self).faulted@,
            final(self).dropped@ == old(self).dropped@,
            final(self).submitted == old(self).submitted,
            final(self).open == old(self).open,
    {
        self.workers[w] = Worker { phase: WorkerPhase::Terminated, joined: true };
        proof {
            assert forall|id2: u64| #![trigger self.accounted(id2)]
                self.accounted(id2) == old(self).accounted(id2) by {
                lemma_executing_count_update(
                    old(self).workers@,
                    w as int,
                    Worker { phase: WorkerPhase::Terminated, joined: true },
                    id2,
                );
            }
        }
    }

    /// Number of workers the pool was built with.
    pub fn worker_count(&self) -> (n: usize)
        ensures
            n == self.workers@.len(),
    {
        self.workers.len()
    }

    /// Number of workers whose thread is still live.
    pub fn live_worker_count(&self) -> (n: usize)
        ensures
            n == self.live_workers(),
    {
        let mut n: usize = 0;
        let mut i: usize = 0;
        while i < self.workers.len()
            invariant
                i <= self.workers@.len(),
                n == live_count(self.workers@.subrange(0, i as int)),
                n <= i,
            decreases self.workers@.len() - i,
        {
            proof {
                assert(self.workers@.subrange(0, i + 1).drop_last() =~= self.workers@.subrange(
                    0,
                    i as int,
                ));
                assert(self.workers@.subrange(0, i + 1).last() == self.workers@[i as int]);
            }
            if !matches!(self.workers[i].phase, WorkerPhase::Terminated) {
                n = n + 1;
            }
            i = i + 1;
        }
        proof {
            assert(self.workers@.subrange(0, self.workers@.len() as int) =~= self.workers@);
        }
        n
    }

    /// Phase of worker `w`.
    pub fn worker_phase(&self, w: usize) -> (ph: WorkerPhase)
        requires
            w < self.workers@.len(),
        ensures
            ph == self.workers@[w as int].phase,
    {
        self.workers[w].phase
    }

    /// Whether worker `w`'s thread handle has been joined.
    pub fn worker_joined(&self, w: usize) -> (j: bool)
        requires
            w < self.workers@.len(),
        ensures
            j == self.workers@[w as int].joined,
    {
        self.workers[w].joined
    }

    /// Number of submitted jobs not yet claimed by any worker.
    pub fn pending_count(&self) -> (n: usize)
        ensures
            n == self.queue@.len(),
    {
        self.queue.len()
    }

    /// Number of jobs submitted so far.
    pub fn submitted_count(&self) -> (n: u64)
        ensures
            n == self.submitted,
    {
        self.submitted
    }

    /// Whether the producer end of the queue is still open.
    pub fn is_open(&self) -> (b: bool)
        ensures
            b == self.open,
    {
        self.open
    }

    /// The jobs executed to completion, in completion order.
    pub fn executed_ids(&self) -> (ids: &Vec<u64>)
        ensures
            ids@ == self.executed@,
    {
        &self.executed
    }

    /// The jobs whose execution faulted.
    pub fn faulted_ids(&self) -> (ids: &Vec<u64>)
        ensures
            ids@ == self.faulted@,
    {
        &self.faulted
    }

    /// The jobs dropped undelivered at queue closure.
    pub fn dropped_ids(&self) -> (ids: &Vec<u64>)
        ensures
            ids@ == self.dropped@,
    {
        &self.dropped
    }
}

/// The multiset holding each job number below `n` exactly once.
pub open spec fn ids_below(n: nat) -> Multiset<u64>
    decreases n,
{
    if n == 0 {
        Multiset::empty()
    } else {
        ids_below((n - 1) as nat).insert((n - 1) as u64)
    }
}

proof fn lemma_ids_below_count(n: nat, id: u64)
    requires
        n <= u64::MAX,
    ensures
        ids_below(n).count(id) == if (id as nat) < n {
            1nat
        } else {
            0nat
        },
    decreases n,
{
    if n > 0 {
        lemma_ids_below_count((n - 1) as nat, id);
    }
}

proof fn lemma_ids_below_len(n: nat)
    requires
        n <= u64::MAX,
    ensures
        ids_below(n).len() == n,
    decreases n,
{
    if n > 0 {
        lemma_ids_below_len((n - 1) as nat);
    }
}

/// No reachable pool state executes a job twice: however the interleaving
/// went, each job number appears in the execution log at most once, is held
/// by at most one worker, and never both at once.
pub proof fn lemma_never_executed_twice(p: ThreadPool, id: u64)
    requires
        p.wf(),
    ensures
        p.executed@.to_multiset().count(id) + executing_count(p.workers@, id) <= 1,
        p.executed@.to_multiset().count(id) <= 1,
        executing_count(p.workers@, id) <= 1,
{
    assert(p.accounted(id) <= 1);
}

/// While the pool is open no submitted job has been dropped: each one is in
/// exactly one place — still pending, being executed, executed, or lost to
/// a fault — so submission loses nothing and duplicates nothing.
pub proof fn lemma_open_pool_loses_nothing(p: ThreadPool, id: u64)
    requires
        p.wf(),
        p.open,
        id < p.submitted,
    ensures
        p.dropped@.to_multiset().count(id) == 0,
        p.queue@.to_multiset().count(id) + executing_count(p.workers@, id)
            + p.executed@.to_multiset().count(id) + p.faulted@.to_multiset().count(id) == 1,
{
    lemma_seq_count_zero(p.dropped@, id);
    assert(p.accounted(id) == 1);
}

/// When all work has settled — the queue is drained, no worker is mid-job,
/// and nothing was faulted or dropped — the execution log holds exactly the
/// submitted jobs: submitting K jobs yields exactly K executions, each job
/// exactly once, with no duplicate and no loss, in some order.
pub proof fn lemma_all_submitted_executed_exactly_once(p: ThreadPool)
    requires
        p.wf(),
        p.queue@.len() == 0,
        forall|i: int|
            0 <= i < p.workers@.len() ==> !(#[trigger] p.workers@[i].phase matches
                WorkerPhase::Executing(_)),
        p.faulted@.len() == 0,
        p.dropped@.len() == 0,
    ensures
        p.executed@.len() == p.submitted,
        p.executed@.no_duplicates(),
        forall|id: u64| p.executed@.contains(id) <==> id < p.submitted,
{
    assert forall|id: u64| #![trigger p.executed@.to_multiset().count(id)]
        p.executed@.to_multiset().count(id) == (if id < p.submitted {
            1nat
        } else {
            0nat
        }) by {
        lemma_executing_count_absent(p.workers@, id);
        lemma_seq_count_zero(p.queue@, id);
        lemma_seq_count_zero(p.faulted@, id);
        lemma_seq_count_zero(p.dropped@, id);
        assert(p.accounted(id) == (if id < p.submitted {
            1nat
        } else {
            0nat
        }));
    }
    p.executed@.lemma_multiset_has_no_duplicates_conv();
    assert(p.executed@.to_multiset() =~= ids_below(p.submitted as nat)) by {
        assert forall|id: u64|
            p.executed@.to_multiset().count(id) == ids_below(p.submitted as nat).count(id) by {
            lemma_ids_below_count(p.submitted as nat, id);
        }
    }
    lemma_ids_below_len(p.submitted as nat);
    assert forall|id: u64| p.executed@.contains(id) <==> id < p.submitted by {
        assert(p.executed@.to_multiset().count(id) == (if id < p.submitted {
            1nat
        } else {
            0nat
        }));
    }
}

/// Teardown leaves nothing behind: once every worker has been joined, every
/// worker's thread has in fact terminated, none is live, the queue is gone,
/// and every submitted job has reached a final log — executed, faulted, or
/// dropped — exactly once. Joining is what makes the destroying thread wait
/// for the workers, and no thread handle remains un-joined afterwards.
pub proof fn lemma_teardown_complete(p: ThreadPool)
    requires
        p.wf(),
        !p.open,
        forall|i: int| 0 <= i < p.workers@.len() ==> #[trigger] p.workers@[i].joined,
    ensures
        forall|i: int|
            0 <= i < p.workers@.len() ==> #[trigger] p.workers@[i].phase
                == WorkerPhase::Terminated,
        p.live_workers() == 0,
        p.queue@.len() == 0,
        forall|id: u64| #![trigger p.executed@.to_multiset().count(id)]
            id < p.submitted ==> p.executed@.to_multiset().count(id)
                + p.faulted@.to_multiset().count(id) + p.dropped@.to_multiset().count(id) == 1,
{
    assert forall|i: int|
        0 <= i < p.workers@.len() implies #[trigger] p.workers@[i].phase
        == WorkerPhase::Terminated by {
        assert(p.workers@[i].joined);
    }
    lemma_live_count_none(p.workers@);
    assert forall|id: u64| #![trigger p.executed@.to_multiset().count(id)]
        id < p.submitted implies p.executed@.to_multiset().count(id)
        + p.faulted@.to_multiset().count(id) + p.dropped@.to_multiset().count(id) == 1 by {
        lemma_executing_count_absent(p.workers@, id);
        lemma_seq_count_zero(p.queue@, id);
        assert(p.accounted(id) == 1);
    }
}

/// A worker still executing its job has not terminated and cannot have been
/// joined: teardown, which joins every worker, waits on it until its job
/// ends — indefinitely, for a job that never returns.
pub proof fn lemma_executing_worker_blocks_teardown(p: ThreadPool, w: int)
    requires
        p.wf(),
        0 <= w < p.workers@.len(),
        p.workers@[w].phase matches WorkerPhase::Executing(_),
    ensures
        p.workers@[w].phase != WorkerPhase::Terminated,
        !p.workers@[w].joined,
{
}

} // verus!

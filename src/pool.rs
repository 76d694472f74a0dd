//! The pool: a fixed set of workers, one queue of pending jobs, and the
//! order in which submission closes and workers leave.
use vstd::prelude::*;

use crate::queue::{Next, WorkQueue};
use crate::PoolError;

verus! {

/// Where a worker stands in its life.
#[derive(Debug, Clone, Copy, PartialEq, Eq, Structural)]
pub enum WorkerState {
    /// Waiting for, or about to ask for, its next job.
    Idle,
    /// Running a job it was handed.
    Busy,
    /// Left its loop: submission is closed and nothing is pending.
    Exited,
    /// Its thread has been waited for; nothing more happens to it.
    Joined,
}

/// One execution unit of the pool, known by its index.
#[derive(Debug, Clone, Copy, PartialEq, Eq, Structural)]
pub struct Worker {
    pub id: usize,
    pub state: WorkerState,
}

impl Worker {
    /// A worker with index `id` that has not yet been handed a job.
    pub fn new(id: usize) -> (w: Worker)
        ensures
            w.id == id,
            w.state == WorkerState::Idle,
    {
        Worker { id, state: WorkerState::Idle }
    }
}

/// What a worker in state `s` still has to go through before it is joined.
pub open spec fn stage_weight(s: WorkerState) -> nat {
    match s {
        WorkerState::Busy => 3,
        WorkerState::Idle => 2,
        WorkerState::Exited => 1,
        WorkerState::Joined => 0,
    }
}

/// The sum of `stage_weight` over `states`.
pub open spec fn total_weight(states: Seq<WorkerState>) -> nat
    decreases states.len(),
{
    if states.len() == 0 {
        0
    } else {
        total_weight(states.drop_last()) + stage_weight(states.last())
    }
}

proof fn lemma_total_weight_update(states: Seq<WorkerState>, i: int, s: WorkerState)
    requires
        0 <= i < states.len(),
    ensures
        total_weight(states.update(i, s)) + stage_weight(states[i]) == total_weight(states)
            + stage_weight(s),
    decreases states.len(),
{
    let u = states.update(i, s);
    if i == states.len() - 1 {
        assert(u.drop_last() =~= states.drop_last());
    } else {
        lemma_total_weight_update(states.drop_last(), i, s);
        assert(u.drop_last() =~= states.drop_last().update(i, s));
    }
}

proof fn lemma_total_weight_zero(states: Seq<WorkerState>)
    ensures
        total_weight(states) == 0 <==> forall|i: int|
            0 <= i < states.len() ==> #[trigger] states[i] == WorkerState::Joined,
    decreases states.len(),
{
    if states.len() > 0 {
        lemma_total_weight_zero(states.drop_last());
        if total_weight(states) == 0 {
            assert forall|i: int| 0 <= i < states.len() implies #[trigger] states[i]
                == WorkerState::Joined by {
                if i < states.len() - 1 {
                    assert(states[i] == states.drop_last()[i]);
                }
            }
        } else {
            if forall|i: int| 0 <= i < states.len() ==> #[trigger] states[i] == WorkerState::Joined {
                assert forall|i: int| 0 <= i < states.drop_last().len() implies
                    #[trigger] states.drop_last()[i] == WorkerState::Joined by {
                    assert(states[i] == WorkerState::Joined);
                }
                assert(states[states.len() - 1] == WorkerState::Joined);
            }
        }
    }
}

/// A fixed-size pool of workers that share one queue of jobs.
///
/// Every accepted job gets a ticket, its place in the order of acceptance.
/// The jobs with tickets below `started()` have been handed to a worker; of
/// those, each busy worker runs exactly one, and the rest are done.
pub struct ThreadPool<J> {
    workers: Vec<Worker>,
    queue: WorkQueue<J>,
    /// Every job ever accepted, in order of acceptance.
    accepted: Ghost<Seq<J>>,
    /// How many of them have been handed to a worker.
    started: Ghost<nat>,
    /// For each busy worker, the ticket of the job it runs.
    tickets: Ghost<Seq<nat>>,
}

impl<J> ThreadPool<J> {
    /// The number of workers, fixed when the pool was made.
    pub closed spec fn spec_size(&self) -> nat {
        self.workers@.len()
    }

    /// The state of worker `i`.
    pub closed spec fn state(&self, i: int) -> WorkerState {
        self.workers@[i].state
    }

    /// The ticket of the job that worker `i` runs, while it is busy.
    pub closed spec fn ticket(&self, i: int) -> nat {
        self.tickets@[i]
    }

    /// Every job ever accepted, in order of acceptance.
    pub closed spec fn accepted(&self) -> Seq<J> {
        self.accepted@
    }

    /// How many accepted jobs have been handed to a worker.
    pub closed spec fn started(&self) -> nat {
        self.started@
    }

    /// The jobs accepted and not yet handed out, oldest first.
    pub closed spec fn pending(&self) -> Seq<J> {
        self.queue.pending()
    }

    /// Whether jobs are still accepted.
    pub closed spec fn is_open(&self) -> bool {
        self.queue.is_open()
    }

    /// The state of every worker, by index.
    pub closed spec fn states(&self) -> Seq<WorkerState> {
        self.workers@.map_values(|w: Worker| w.state)
    }

    /// What is left to do before every worker is joined: each pending job
    /// still has to be taken and finished, and each worker has to reach
    /// the end of its life.
    pub open spec fn remaining(&self) -> nat {
        2 * self.pending().len() + total_weight(self.states())
    }

    /// Whether worker `i` is running the job with ticket `t`.
    pub open spec fn runs(&self, i: int, t: nat) -> bool {
        0 <= i < self.spec_size() && self.state(i) == WorkerState::Busy && self.ticket(i) == t
    }

    /// Whether the job with ticket `t` has been handed out and has finished.
    pub open spec fn is_done(&self, t: nat) -> bool {
        t < self.started() && forall|i: int| !#[trigger] self.runs(i, t)
    }

    /// Whether every worker has left and has been waited for.
    pub open spec fn spec_terminated(&self) -> bool {
        forall|i: int| 0 <= i < self.spec_size() ==> #[trigger] self.state(i) == WorkerState::Joined
    }

    /// The pool's invariant.
    pub closed spec fn wf(&self) -> bool {
        &&& self.workers@.len() > 0
        &&& self.tickets@.len() == self.workers@.len()
        &&& forall|i: int| 0 <= i < self.workers@.len() ==> #[trigger] self.workers@[i].id == i
        &&& self.started@ <= self.accepted@.len()
        &&& self.queue.pending() == self.accepted@.subrange(self.started@ as int, self.accepted@.len() as int)
        &&& forall|i: int|
            0 <= i < self.workers@.len() && #[trigger] self.workers@[i].state == WorkerState::Busy
                ==> self.tickets@[i] < self.started@
        &&& forall|i: int, j: int|
            0 <= i < self.workers@.len() && 0 <= j < self.workers@.len() && i != j
                && #[trigger] self.workers@[i].state == WorkerState::Busy
                && #[trigger] self.workers@[j].state == WorkerState::Busy
                ==> self.tickets@[i] != self.tickets@[j]
        &&& forall|i: int|
            0 <= i < self.workers@.len() && (#[trigger] self.workers@[i].state == WorkerState::Exited
                || self.workers@[i].state == WorkerState::Joined)
                ==> !self.queue.is_open() && self.queue.pending().len() == 0
    }
    /// A pool of `size` idle workers and an empty queue that accepts jobs;
    /// a pool with no worker is refused.
    pub fn new(size: usize) -> (r: Result<Self, PoolError>)
        ensures
            size == 0 ==> r == Err::<Self, PoolError>(PoolError::InvalidPoolSize),
            size > 0 ==> (r matches Ok(p) && {
                &&& p.wf()
                &&& p.spec_size() == size
                &&& forall|i: int| 0 <= i < size ==> #[trigger] p.state(i) == WorkerState::Idle
                &&& p.is_open()
                &&& p.accepted() == Seq::<J>::empty()
                &&& p.pending() == Seq::<J>::empty()
                &&& p.started() == 0
            }),
    {
        if size == 0 {
            return Err(PoolError::InvalidPoolSize);
        }
        let mut workers: Vec<Worker> = Vec::with_capacity(size);
        let mut i: usize = 0;
        while i < size
            invariant
                i <= size,
                workers@.len() == i,
                forall|k: int| 0 <= k < i ==> (#[trigger] workers@[k]).id == k
                    && workers@[k].state == WorkerState::Idle,
            decreases size - i,
        {
            workers.push(Worker::new(i));
            i = i + 1;
        }
        let pool = ThreadPool {
            workers,
            queue: WorkQueue::new(),
            accepted: Ghost(Seq::empty()),
            started: Ghost(0),
            tickets: Ghost(Seq::new(size as nat, |k: int| 0nat)),
        };
        assert(pool.queue.pending() =~= pool.accepted@.subrange(0, 0));
        Ok(pool)
    }

    /// The number of workers.
    pub fn size(&self) -> (r: usize)
        requires
            self.wf(),
        ensures
            r == self.spec_size(),
    {
        self.workers.len()
    }

    /// Queues `job` behind every job accepted before it; once submission is
    /// closed the job is refused and nothing changes.
    pub fn execute(&mut self, job: J) -> (r: Result<(), PoolError>)
        requires
            old(self).wf(),
        ensures
            final(self).wf(),
            final(self).spec_size() == old(self).spec_size(),
            final(self).started() == old(self).started(),
            final(self).is_open() == old(self).is_open(),
            forall|i: int| 0 <= i < old(self).spec_size() ==> #[trigger] final(self).state(i) == old(self).state(i),
            forall|i: int| 0 <= i < old(self).spec_size() ==> #[trigger] final(self).ticket(i) == old(self).ticket(i),
            old(self).is_open() ==> r is Ok && final(self).accepted() == old(self).accepted().push(job)
                && final(self).pending() == old(self).pending().push(job),
            !old(self).is_open() ==> r == Err::<(), PoolError>(PoolError::QueueClosed)
                && final(self).accepted() == old(self).accepted()
                && final(self).pending() == old(self).pending(),
    {
        let ghost before = self.accepted@;
        let r = self.queue.submit(job);
        if r.is_ok() {
            self.accepted = Ghost(before.push(job));
            proof {
                assert(self.queue.pending() =~= self.accepted@.subrange(
                    self.started@ as int,
                    self.accepted@.len() as int,
                ));
            }
        }
        r
    }
    /// The next step of idle worker `w`: run the oldest pending job, wait
    /// while nothing is pending and submission is open, or leave once
    /// submission is closed and nothing is pending.
    pub fn next_job(&mut self, w: usize) -> (r: Next<J>)
        requires
            old(self).wf(),
            w < old(self).spec_size(),
            old(self).state(w as int) == WorkerState::Idle,
        ensures
            final(self).wf(),
            final(self).spec_size() == old(self).spec_size(),
            final(self).accepted() == old(self).accepted(),
            final(self).is_open() == old(self).is_open(),
            forall|i: int| 0 <= i < old(self).spec_size() && i != w ==> #[trigger] final(self).state(i) == old(self).state(i),
            forall|i: int| 0 <= i < old(self).spec_size() && i != w ==> #[trigger] final(self).ticket(i) == old(self).ticket(i),
            old(self).pending().len() > 0 ==> {
                &&& r == Next::Job(old(self).pending()[0])
                &&& old(self).pending()[0] == old(self).accepted()[old(self).started() as int]
                &&& final(self).pending() == old(self).pending().drop_first()
                &&& final(self).started() == old(self).started() + 1
                &&& final(self).state(w as int) == WorkerState::Busy
                &&& final(self).ticket(w as int) == old(self).started()
            },
            old(self).pending().len() == 0 ==> final(self).started() == old(self).started()
                && final(self).pending() == old(self).pending(),
            old(self).pending().len() == 0 && old(self).is_open() ==> r is Empty
                && final(self).state(w as int) == WorkerState::Idle,
            old(self).pending().len() == 0 && !old(self).is_open() ==> r is Closed
                && final(self).state(w as int) == WorkerState::Exited,
            !old(self).is_open() ==> final(self).remaining() < old(self).remaining(),
    {
        proof {
            lemma_total_weight_update(self.states(), w as int, WorkerState::Busy);
            lemma_total_weight_update(self.states(), w as int, WorkerState::Exited);
        }
        let ghost states0 = self.states();
        let r = self.queue.next();
        match r {
            Next::Job(_) => {
                let ghost t = self.started@;
                self.workers.set(w, Worker { id: w, state: WorkerState::Busy });
                self.tickets = Ghost(self.tickets@.update(w as int, t));
                self.started = Ghost(t + 1);
                proof {
                    assert(self.states() =~= states0.update(w as int, WorkerState::Busy));
                    assert(self.queue.pending() =~= self.accepted@.subrange(
                        self.started@ as int,
                        self.accepted@.len() as int,
                    ));
                }
            },
            Next::Empty => {},
            Next::Closed => {
                self.workers.set(w, Worker { id: w, state: WorkerState::Exited });
                assert(self.states() =~= states0.update(w as int, WorkerState::Exited));
            },
        }
        r
    }

    /// Worker `w` has finished the job it ran, whether the job returned or
    /// failed; the worker is ready for its next job.
    pub fn finish_job(&mut self, w: usize)
        requires
            old(self).wf(),
            w < old(self).spec_size(),
            old(self).state(w as int) == WorkerState::Busy,
        ensures
            final(self).wf(),
            final(self).spec_size() == old(self).spec_size(),
            final(self).accepted() == old(self).accepted(),
            final(self).started() == old(self).started(),
            final(self).pending() == old(self).pending(),
            final(self).is_open() == old(self).is_open(),
            final(self).state(w as int) == WorkerState::Idle,
            forall|i: int| 0 <= i < old(self).spec_size() && i != w ==> #[trigger] final(self).state(i) == old(self).state(i),
            forall|i: int| 0 <= i < old(self).spec_size() ==> #[trigger] final(self).ticket(i) == old(self).ticket(i),
            final(self).is_done(old(self).ticket(w as int)),
            !old(self).is_open() ==> final(self).remaining() < old(self).remaining(),
    {
        proof {
            lemma_total_weight_update(self.states(), w as int, WorkerState::Idle);
        }
        let ghost states0 = self.states();
        self.workers.set(w, Worker { id: w, state: WorkerState::Idle });
        proof {
            assert(self.states() =~= states0.update(w as int, WorkerState::Idle));
            let t = self.tickets@[w as int];
            assert forall|i: int| !#[trigger] self.runs(i, t) by {
                if self.runs(i, t) {
                    assert(old(self).workers@[i].state == WorkerState::Busy);
                }
            }
        }
    }

    /// Closes submission for good. Jobs already accepted are still handed
    /// out; once none is pending, each idle worker is told to leave.
    pub fn shutdown(&mut self)
        requires
            old(self).wf(),
        ensures
            final(self).wf(),
            !final(self).is_open(),
            final(self).spec_size() == old(self).spec_size(),
            final(self).accepted() == old(self).accepted(),
            final(self).started() == old(self).started(),
            final(self).pending() == old(self).pending(),
            forall|i: int| 0 <= i < old(self).spec_size() ==> #[trigger] final(self).state(i) == old(self).state(i),
            forall|i: int| 0 <= i < old(self).spec_size() ==> #[trigger] final(self).ticket(i) == old(self).ticket(i),
    {
        self.queue.close();
    }

    /// Records that the thread of worker `w`, which had left its loop, has
    /// been waited for.
    pub fn join_worker(&mut self, w: usize)
        requires
            old(self).wf(),
            w < old(self).spec_size(),
            old(self).state(w as int) == WorkerState::Exited,
        ensures
            final(self).wf(),
            final(self).spec_size() == old(self).spec_size(),
            final(self).accepted() == old(self).accepted(),
            final(self).started() == old(self).started(),
            final(self).pending() == old(self).pending(),
            final(self).is_open() == old(self).is_open(),
            final(self).state(w as int) == WorkerState::Joined,
            forall|i: int| 0 <= i < old(self).spec_size() && i != w ==> #[trigger] final(self).state(i) == old(self).state(i),
            forall|i: int| 0 <= i < old(self).spec_size() ==> #[trigger] final(self).ticket(i) == old(self).ticket(i),
            !old(self).is_open() ==> final(self).remaining() < old(self).remaining(),
    {
        proof {
            lemma_total_weight_update(self.states(), w as int, WorkerState::Joined);
        }
        let ghost states0 = self.states();
        self.workers.set(w, Worker { id: w, state: WorkerState::Joined });
        assert(self.states() =~= states0.update(w as int, WorkerState::Joined));
    }

    /// The state of worker `w`.
    pub fn worker_state(&self, w: usize) -> (r: WorkerState)
        requires
            self.wf(),
            w < self.spec_size(),
        ensures
            r == self.state(w as int),
    {
        self.workers[w].state
    }

    /// Whether jobs are still accepted.
    pub fn accepts(&self) -> (r: bool)
        ensures
            r == self.is_open(),
    {
        self.queue.accepts()
    }

    /// The number of jobs accepted and not yet handed out.
    pub fn pending_len(&self) -> (r: usize)
        ensures
            r == self.pending().len(),
    {
        self.queue.len()
    }

    /// Whether every worker has left and has been waited for.
    pub fn is_terminated(&self) -> (r: bool)
        requires
            self.wf(),
        ensures
            r == self.spec_terminated(),
    {
        let mut i: usize = 0;
        while i < self.workers.len()
            invariant
                i <= self.workers@.len(),
                forall|k: int| 0 <= k < i ==> #[trigger] self.state(k) == WorkerState::Joined,
            decreases self.workers@.len() - i,
        {
            if self.workers[i].state != WorkerState::Joined {
                assert(!(self.state(i as int) == WorkerState::Joined));
                return false;
            }
            i = i + 1;
        }
        true
    }
}

/// Every accepted job stands at exactly one stage: still pending, at its
/// place in the order of acceptance; run by exactly one worker; or done.
pub proof fn lemma_each_job_once<J>(p: &ThreadPool<J>, t: nat)
    requires
        p.wf(),
        t < p.accepted().len(),
    ensures
        t >= p.started() ==> p.pending()[t - p.started()] == p.accepted()[t as int]
            && forall|i: int| !#[trigger] p.runs(i, t),
        t < p.started() ==> p.is_done(t) || exists|i: int| #[trigger] p.runs(i, t),
        forall|i: int, j: int| #[trigger] p.runs(i, t) && #[trigger] p.runs(j, t) ==> i == j,
{
    assert forall|i: int| t >= p.started() implies !#[trigger] p.runs(i, t) by {
        if p.runs(i, t) {
            assert(p.workers@[i].state == WorkerState::Busy);
        }
    }
    assert forall|i: int, j: int| #[trigger] p.runs(i, t) && #[trigger] p.runs(j, t) implies i == j by {
        if i != j {
            assert(p.workers@[i].state == WorkerState::Busy);
            assert(p.workers@[j].state == WorkerState::Busy);
        }
    }
}

/// With a single worker, jobs run one after another in order of acceptance:
/// whenever the worker is idle, every job handed out so far is done, so the
/// job it takes next starts only after all earlier ones have finished.
pub proof fn lemma_one_worker_in_order<J>(p: &ThreadPool<J>)
    requires
        p.wf(),
        p.spec_size() == 1,
        p.state(0) == WorkerState::Idle,
    ensures
        forall|t: nat| t < p.started() ==> #[trigger] p.is_done(t),
{
    assert forall|t: nat| t < p.started() implies #[trigger] p.is_done(t) by {
        assert forall|i: int| !#[trigger] p.runs(i, t) by {
            if p.runs(i, t) {
                assert(i == 0);
            }
        }
    }
}

/// Once every worker has left and been waited for, submission is closed,
/// nothing is pending, and every accepted job has been run to its end.
pub proof fn lemma_graceful_shutdown<J>(p: &ThreadPool<J>)
    requires
        p.wf(),
        p.spec_terminated(),
    ensures
        !p.is_open(),
        p.pending().len() == 0,
        p.started() == p.accepted().len(),
        forall|t: nat| t < p.accepted().len() ==> #[trigger] p.is_done(t),
{
    assert(p.state(0) == WorkerState::Joined);
    assert(p.workers@[0].state == WorkerState::Joined);
    assert forall|t: nat| t < p.accepted().len() implies #[trigger] p.is_done(t) by {
        assert forall|i: int| !#[trigger] p.runs(i, t) by {
            if p.runs(i, t) {
                assert(p.state(i) == WorkerState::Joined);
            }
        }
    }
}

/// Shutdown cannot hang: once submission is closed, the pool is terminated
/// exactly when `remaining` has reached zero; until then some worker is not
/// yet joined, and each of its steps (`next_job`, which no longer tells it
/// to wait, `finish_job` and `join_worker`) lowers `remaining`. This holds
/// also where no job was ever submitted.
pub proof fn lemma_shutdown_terminates<J>(p: &ThreadPool<J>)
    requires
        p.wf(),
        !p.is_open(),
    ensures
        p.remaining() == 0 <==> p.spec_terminated(),
        !p.spec_terminated() ==> exists|i: int|
            0 <= i < p.spec_size() && #[trigger] p.state(i) != WorkerState::Joined,
{
    lemma_total_weight_zero(p.states());
    if p.spec_terminated() {
        assert forall|i: int| 0 <= i < p.states().len() implies #[trigger] p.states()[i]
            == WorkerState::Joined by {
            assert(p.state(i) == WorkerState::Joined);
        }
        assert(p.state(0) == WorkerState::Joined);
    } else {
        let i = choose|i: int| 0 <= i < p.spec_size() && !(#[trigger] p.state(i) == WorkerState::Joined);
        assert(p.states()[i] == p.state(i));
    }
}

} // verus!

//! The bookkeeping of a fixed-size worker pool: the job queue and the state
//! of each worker.
//!
//! The pool holds no thread of its own. Whoever runs the workers owns one
//! pool, guards it against concurrent access, and reports to it: a worker
//! that waits calls [`ThreadPool::take`] until a job comes back, executes
//! it, and calls [`ThreadPool::finish`] when the job body has returned or
//! raised a fault.

use crate::model::{Outcome, PoolState};
use std::collections::VecDeque;
use vstd::prelude::*;

verus! {

/// What a worker is doing.
#[derive(Clone, Copy, Debug, PartialEq, Eq, Structural)]
pub enum WorkerState {
    /// Waiting for a job.
    Idle,
    /// Executing exactly one job.
    Busy,
}

/// One long-lived execution unit of the pool.
#[derive(Clone, Copy, Debug)]
pub struct Worker {
    id: usize,
    state: WorkerState,
}

impl Worker {
    /// The worker's stable id.
    pub closed spec fn spec_id(&self) -> usize {
        self.id
    }

    /// The worker's current state.
    pub closed spec fn spec_state(&self) -> WorkerState {
        self.state
    }

    /// Creates the worker with the given id. It starts out idle.
    pub fn new(id: usize) -> (worker: Worker)
        ensures
            worker.spec_id() == id,
            worker.spec_state() == WorkerState::Idle,
    {
        Worker { id, state: WorkerState::Idle }
    }

    /// The worker's stable id.
    pub fn id(&self) -> (id: usize)
        ensures
            id == self.spec_id(),
    {
        self.id
    }

    /// The worker's current state.
    pub fn state(&self) -> (state: WorkerState)
        ensures
            state == self.spec_state(),
    {
        self.state
    }
}

/// A fixed set of workers and the queue of jobs that feeds them.
///
/// `J` is the job: an opaque unit of work that the pool stores and hands
/// out but never looks into.
pub struct ThreadPool<J> {
    workers: Vec<Worker>,
    queue: VecDeque<J>,
    state: Ghost<PoolState<J>>,
}

impl<J> View for ThreadPool<J> {
    type V = PoolState<J>;

    closed spec fn view(&self) -> PoolState<J> {
        self.state@
    }
}

impl<J> ThreadPool<J> {
    /// The pool's records agree with each other and with its history.
    pub closed spec fn wf(&self) -> bool {
        &&& self.state@.inv()
        &&& self.workers@.len() == self.state@.workers.len()
        &&& forall|i: int|
            0 <= i < self.workers@.len() ==> (#[trigger] self.workers@[i]).id == i && (
            self.workers@[i].state == WorkerState::Busy <==> self.state@.workers[i] is Some)
        &&& self.queue@ == self.state@.pending()
    }

    /// A well-formed pool satisfies the invariant of the model, so that the
    /// laws proved over the model hold of it.
    pub proof fn wf_implies_inv(&self)
        requires
            self.wf(),
        ensures
            self@.inv(),
    {
    }

    /// Creates a pool of `size` workers, each idle, with an empty queue.
    pub fn new(size: usize) -> (pool: ThreadPool<J>)
        requires
            size > 0,
        ensures
            pool.wf(),
            pool@ == PoolState::<J>::fresh(size as nat),
    {
        let mut workers: Vec<Worker> = Vec::with_capacity(size);
        let mut id: usize = 0;
        while id < size
            invariant
                id <= size,
                workers@.len() == id,
                forall|i: int|
                    0 <= i < id ==> (#[trigger] workers@[i]).id == i && workers@[i].state
                        == WorkerState::Idle,
            decreases size - id,
        {
            workers.push(Worker::new(id));
            id += 1;
        }
        let pool = ThreadPool {
            workers,
            queue: VecDeque::new(),
            state: Ghost(PoolState::fresh(size as nat)),
        };
        assert(pool.queue@ =~= pool.state@.pending());
        pool
    }

    /// Submits a job: it is appended to the queue, behind every job
    /// submitted before it. Never blocks and never fails.
    pub fn execute(&mut self, job: J)
        requires
            old(self).wf(),
        ensures
            final(self).wf(),
            final(self)@ == old(self)@.submit(job),
    {
        let ghost before = self.state@;
        self.queue.push_back(job);
        proof {
            self.state@ = before.submit(job);
            assert(self.queue@ =~= self.state@.pending());
        }
    }

    /// Hands the oldest waiting job to worker `worker`, which becomes busy.
    ///
    /// Returns `None`, and changes nothing, when no job waits, when the
    /// worker is busy already, or when the pool has no worker of that id.
    pub fn take(&mut self, worker: usize) -> (job: Option<J>)
        requires
            old(self).wf(),
        ensures
            final(self).wf(),
            job is Some <==> old(self)@.can_take(worker as nat),
            job matches Some(j) ==> j == old(self)@.jobs[old(self)@.started as int] && j == old(
                self,
            )@.pending()[0],
            final(self)@ == if job is Some {
                old(self)@.take(worker as nat)
            } else {
                old(self)@
            },
    {
        if worker >= self.workers.len() {
            return None;
        }
        if self.workers[worker].state == WorkerState::Busy {
            return None;
        }
        let ghost before = self.state@;
        let job = self.queue.pop_front();
        if job.is_some() {
            self.workers.set(worker, Worker { id: worker, state: WorkerState::Busy });
            proof {
                self.state@ = before.take(worker as nat);
                assert(self.queue@ =~= self.state@.pending());
            }
        }
        job
    }

    /// Records that the job which worker `worker` executed has ended. The
    /// worker is idle again, whether the job body returned or faulted.
    ///
    /// Returns whether the worker was busy; if it was not, or the pool has
    /// no worker of that id, nothing changes.
    pub fn finish(&mut self, worker: usize, outcome: Outcome) -> (was_busy: bool)
        requires
            old(self).wf(),
        ensures
            final(self).wf(),
            was_busy == old(self)@.is_busy(worker as nat),
            final(self)@ == if was_busy {
                old(self)@.finish(worker as nat, outcome)
            } else {
                old(self)@
            },
    {
        if worker >= self.workers.len() {
            return false;
        }
        if self.workers[worker].state == WorkerState::Idle {
            return false;
        }
        let ghost before = self.state@;
        self.workers.set(worker, Worker { id: worker, state: WorkerState::Idle });
        proof {
            self.state@ = before.finish(worker as nat, outcome);
            assert(self.queue@ =~= self.state@.pending());
        }
        true
    }

    /// The number of workers, fixed when the pool was made.
    pub fn size(&self) -> (n: usize)
        requires
            self.wf(),
        ensures
            n == self@.size(),
    {
        self.workers.len()
    }

    /// The number of jobs that wait in the queue.
    pub fn pending(&self) -> (n: usize)
        requires
            self.wf(),
        ensures
            n == self@.pending().len(),
    {
        self.queue.len()
    }

    /// The state of worker `worker`, or `None` if the pool has no worker
    /// of that id.
    pub fn worker_state(&self, worker: usize) -> (state: Option<WorkerState>)
        requires
            self.wf(),
        ensures
            state == if self@.is_busy(worker as nat) {
                Some(WorkerState::Busy)
            } else if self@.is_idle(worker as nat) {
                Some(WorkerState::Idle)
            } else {
                None
            },
    {
        if worker < self.workers.len() {
            Some(self.workers[worker].state)
        } else {
            None
        }
    }
}

} // verus!

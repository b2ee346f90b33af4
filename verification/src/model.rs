//! The mathematical model of the pool: every job ever submitted, what has
//! become of it, and which job each worker is executing.
//!
//! A job is known by its position in the order of submission. The queue
//! hands jobs out in that order, so the jobs still waiting are always a
//! suffix of the submitted ones.

use vstd::prelude::*;

verus! {

/// How the execution of a job body ended.
#[derive(Clone, Copy, Debug, PartialEq, Eq, Structural)]
pub enum Outcome {
    /// The body returned.
    Completed,
    /// The body raised a fault, which was caught at the worker's boundary.
    Faulted,
}

/// What has become of a submitted job.
pub enum JobStatus {
    /// Waiting in the queue.
    Pending,
    /// Being executed by the worker with this id.
    Running { worker: nat },
    /// Executed, with this outcome.
    Finished { outcome: Outcome },
}

/// The state of a pool, with its history.
pub struct PoolState<J> {
    /// Every job ever submitted, in the order of submission.
    pub jobs: Seq<J>,
    /// What has become of each job; as long as `jobs`.
    pub status: Seq<JobStatus>,
    /// How many jobs have been handed to a worker so far.
    pub started: nat,
    /// For each worker, the job it is executing, if any.
    pub workers: Seq<Option<nat>>,
}

impl<J> PoolState<J> {
    /// A pool of `size` workers to which nothing was submitted yet.
    pub open spec fn fresh(size: nat) -> Self {
        PoolState {
            jobs: Seq::empty(),
            status: Seq::empty(),
            started: 0,
            workers: Seq::new(size, |w: int| None),
        }
    }

    /// The number of workers.
    pub open spec fn size(self) -> nat {
        self.workers.len()
    }

    /// The jobs that wait in the queue, the oldest first.
    pub open spec fn pending(self) -> Seq<J> {
        self.jobs.subrange(self.started as int, self.jobs.len() as int)
    }

    /// Worker `w` exists and waits for a job.
    pub open spec fn is_idle(self, w: nat) -> bool {
        w < self.workers.len() && self.workers[w as int] is None
    }

    /// Worker `w` exists and executes a job.
    pub open spec fn is_busy(self, w: nat) -> bool {
        w < self.workers.len() && self.workers[w as int] is Some
    }

    /// Worker `w` is idle and a job waits for it.
    pub open spec fn can_take(self, w: nat) -> bool {
        self.is_idle(w) && self.started < self.jobs.len()
    }

    /// What holds of every state that a pool can reach.
    pub open spec fn inv(self) -> bool {
        &&& self.workers.len() >= 1
        &&& self.status.len() == self.jobs.len()
        &&& self.started <= self.jobs.len()
        &&& forall|k: int|
            0 <= k < self.status.len() ==> ((#[trigger] self.status[k]) is Pending <==> k
                >= self.started)
        &&& forall|w: int|
            0 <= w < self.workers.len() ==> ((#[trigger] self.workers[w]) matches Some(k) ==> k
                < self.status.len() && self.status[k as int] == (JobStatus::Running {
                worker: w as nat,
            }))
        &&& forall|k: int|
            0 <= k < self.status.len() ==> ((#[trigger] self.status[k]) matches JobStatus::Running {
                worker,
            } ==> worker < self.workers.len() && self.workers[worker as int] == Some(k as nat))
    }

    /// The state after `job` was submitted.
    pub open spec fn submit(self, job: J) -> Self {
        PoolState {
            jobs: self.jobs.push(job),
            status: self.status.push(JobStatus::Pending),
            ..self
        }
    }

    /// The state after worker `w` took the oldest waiting job.
    pub open spec fn take(self, w: nat) -> Self
        recommends
            self.can_take(w),
    {
        PoolState {
            status: self.status.update(self.started as int, JobStatus::Running { worker: w }),
            started: self.started + 1,
            workers: self.workers.update(w as int, Some(self.started)),
            ..self
        }
    }

    /// The state after the job that worker `w` executed ended with `outcome`.
    pub open spec fn finish(self, w: nat, outcome: Outcome) -> Self
        recommends
            self.is_busy(w),
    {
        PoolState {
            status: self.status.update(
                self.workers[w as int]->0 as int,
                JobStatus::Finished { outcome },
            ),
            workers: self.workers.update(w as int, None),
            ..self
        }
    }
}

} // verus!

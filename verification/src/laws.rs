//! What holds of every pool, proved over the model.
//!
//! A pool changes by three events: a job is submitted, a worker takes the
//! oldest waiting job, the job that a worker executes ends. The laws speak
//! of every state that such events lead to, in whatever order they come.

use crate::model::{JobStatus, Outcome, PoolState};
use vstd::prelude::*;

verus! {

/// One thing that can happen to a pool.
pub enum Event<J> {
    /// A job is submitted.
    Submit { job: J },
    /// A worker takes the oldest waiting job.
    Take { worker: nat },
    /// The job that a worker executed ends.
    Finish { worker: nat, outcome: Outcome },
}

/// The event can happen in state `s`.
pub open spec fn enabled<J>(s: PoolState<J>, e: Event<J>) -> bool {
    match e {
        Event::Submit { job } => true,
        Event::Take { worker } => s.can_take(worker),
        Event::Finish { worker, outcome } => s.is_busy(worker),
    }
}

/// The state after the event.
pub open spec fn step<J>(s: PoolState<J>, e: Event<J>) -> PoolState<J> {
    match e {
        Event::Submit { job } => s.submit(job),
        Event::Take { worker } => s.take(worker),
        Event::Finish { worker, outcome } => s.finish(worker, outcome),
    }
}

/// The state that the events lead to from `s`.
pub open spec fn run<J>(s: PoolState<J>, events: Seq<Event<J>>) -> PoolState<J>
    decreases events.len(),
{
    if events.len() == 0 {
        s
    } else {
        step(run(s, events.drop_last()), events.last())
    }
}

/// Each of the events can happen in the state that the events before it
/// lead to from `s`.
pub open spec fn admissible<J>(s: PoolState<J>, events: Seq<Event<J>>) -> bool
    decreases events.len(),
{
    events.len() > 0 ==> admissible(s, events.drop_last()) && enabled(
        run(s, events.drop_last()),
        events.last(),
    )
}

/// None of the events is a submission.
pub open spec fn submits_nothing<J>(events: Seq<Event<J>>) -> bool {
    forall|i: int| 0 <= i < events.len() ==> !((#[trigger] events[i]) is Submit)
}

/// How far a job has come: waiting, being executed, executed.
pub open spec fn stage(st: JobStatus) -> nat {
    match st {
        JobStatus::Pending => 0,
        JobStatus::Running { .. } => 1,
        JobStatus::Finished { .. } => 2,
    }
}

/// The steps that a job still has before it: to be taken, and to end.
pub open spec fn steps_left(st: JobStatus) -> nat {
    (2 - stage(st)) as nat
}

/// The steps that all the jobs together still have before them.
pub open spec fn work_left(status: Seq<JobStatus>) -> nat
    decreases status.len(),
{
    if status.len() == 0 {
        0
    } else {
        work_left(status.drop_last()) + steps_left(status.last())
    }
}

/// A pool starts with exactly the workers it was made with, each of them
/// idle, and with nothing submitted. With at least one worker it satisfies
/// the invariant.
pub proof fn fresh_pool_is_idle<J>(size: nat)
    ensures
        PoolState::<J>::fresh(size).size() == size,
        forall|w: nat| w < size ==> PoolState::<J>::fresh(size).is_idle(w),
        forall|w: nat| !PoolState::<J>::fresh(size).is_busy(w),
        PoolState::<J>::fresh(size).jobs.len() == 0,
        PoolState::<J>::fresh(size).pending().len() == 0,
        size >= 1 ==> PoolState::<J>::fresh(size).inv(),
{
}

/// Every event that can happen preserves the invariant and the number of
/// workers.
pub proof fn step_preserves_inv<J>(s: PoolState<J>, e: Event<J>)
    requires
        s.inv(),
        enabled(s, e),
    ensures
        step(s, e).inv(),
        step(s, e).size() == s.size(),
{
}

/// Every state that a pool of at least one worker can reach satisfies the
/// invariant, and still has the workers it was made with.
pub proof fn reachable_inv<J>(size: nat, events: Seq<Event<J>>)
    requires
        size >= 1,
        admissible(PoolState::<J>::fresh(size), events),
    ensures
        run(PoolState::<J>::fresh(size), events).inv(),
        run(PoolState::<J>::fresh(size), events).size() == size,
    decreases events.len(),
{
    if events.len() > 0 {
        reachable_inv(size, events.drop_last());
        step_preserves_inv(run(PoolState::<J>::fresh(size), events.drop_last()), events.last());
    }
}

/// A worker executes at most one job at a time, and a job is executed by at
/// most one worker at a time.
pub proof fn one_job_per_worker<J>(s: PoolState<J>, a: int, b: int, w: nat)
    requires
        s.inv(),
        0 <= a < s.jobs.len(),
        0 <= b < s.jobs.len(),
        s.status[a] == (JobStatus::Running { worker: w }),
        s.status[b] == (JobStatus::Running { worker: w }),
    ensures
        a == b,
        s.is_busy(w),
        s.workers[w as int] == Some(a as nat),
{
}

/// Workers do not wait for each other: whether a worker can take a job or
/// end its job does not depend on what the others do, and neither changes
/// what the others do.
pub proof fn workers_do_not_wait_for_each_other<J>(s: PoolState<J>, w: nat, v: nat)
    requires
        s.inv(),
        v < s.size(),
        v != w,
    ensures
        s.can_take(w) <==> s.is_idle(w) && s.pending().len() > 0,
        s.can_take(w) ==> s.take(w).is_busy(w) && s.take(w).workers[v as int]
            == s.workers[v as int],
        s.is_busy(w) ==> forall|outcome: Outcome|
            s.finish(w, outcome).is_idle(w) && #[trigger] s.finish(w, outcome).workers[v as int]
                == s.workers[v as int],
{
}

/// A job is never lost: it is waiting in the queue, or being executed by the
/// one worker that holds it, or executed, and only one of the three.
pub proof fn every_job_accounted_for<J>(s: PoolState<J>, k: int)
    requires
        s.inv(),
        0 <= k < s.jobs.len(),
    ensures
        s.status[k] is Pending <==> k >= s.started,
        s.status[k] is Pending ==> s.pending()[k - s.started] == s.jobs[k],
        s.status[k] matches JobStatus::Running { worker } ==> s.is_busy(worker)
            && s.workers[worker as int] == Some(k as nat),
        k < s.started ==> s.status[k] is Running || s.status[k] is Finished,
{
}

/// A job never runs twice: no event takes a job back to an earlier stage,
/// no event changes a submitted job, and a job is handed out only while it
/// waits.
pub proof fn jobs_only_advance<J>(s: PoolState<J>, e: Event<J>, k: int)
    requires
        s.inv(),
        enabled(s, e),
        0 <= k < s.jobs.len(),
    ensures
        step(s, e).jobs.len() >= s.jobs.len(),
        step(s, e).jobs[k] == s.jobs[k],
        stage(step(s, e).status[k]) >= stage(s.status[k]),
        s.status[k] is Finished ==> step(s, e).status[k] == s.status[k],
        e is Take && stage(step(s, e).status[k]) > stage(s.status[k]) ==> k == s.started
            && s.status[k] is Pending,
{
}

proof fn work_left_push(status: Seq<JobStatus>, st: JobStatus)
    ensures
        work_left(status.push(st)) == work_left(status) + steps_left(st),
{
    assert(status.push(st).drop_last() =~= status);
}

proof fn work_left_update(status: Seq<JobStatus>, k: int, st: JobStatus)
    requires
        0 <= k < status.len(),
    ensures
        work_left(status.update(k, st)) + steps_left(status[k]) == work_left(status) + steps_left(
            st,
        ),
    decreases status.len(),
{
    let updated = status.update(k, st);
    if k == status.len() - 1 {
        assert(updated.drop_last() =~= status.drop_last());
    } else {
        assert(updated.drop_last() =~= status.drop_last().update(k, st));
        work_left_update(status.drop_last(), k, st);
    }
}

proof fn work_left_bounds(status: Seq<JobStatus>, k: int)
    requires
        0 <= k < status.len(),
    ensures
        steps_left(status[k]) <= work_left(status),
    decreases status.len(),
{
    if k < status.len() - 1 {
        work_left_bounds(status.drop_last(), k);
    }
}

proof fn work_left_witness(status: Seq<JobStatus>) -> (k: int)
    requires
        work_left(status) > 0,
    ensures
        0 <= k < status.len(),
        !(status[k] is Finished),
    decreases status.len(),
{
    if steps_left(status.last()) > 0 {
        status.len() - 1
    } else {
        work_left_witness(status.drop_last())
    }
}

/// Submitting a job adds the two steps that it has before it.
pub proof fn submit_adds_work<J>(s: PoolState<J>, job: J)
    ensures
        work_left(s.submit(job).status) == work_left(s.status) + 2,
{
    work_left_push(s.status, JobStatus::Pending);
}

/// Each take and each end of a job is one step less to do.
pub proof fn step_reduces_work<J>(s: PoolState<J>, e: Event<J>)
    requires
        s.inv(),
        enabled(s, e),
        !(e is Submit),
    ensures
        work_left(step(s, e).status) + 1 == work_left(s.status),
{
    match e {
        Event::Submit { job } => {},
        Event::Take { worker } => {
            work_left_update(s.status, s.started as int, JobStatus::Running { worker });
        },
        Event::Finish { worker, outcome } => {
            let k: int = s.workers[worker as int]->0 as int;
            work_left_update(s.status, k, JobStatus::Finished { outcome });
        },
    }
}

/// However the workers are scheduled, each take and each end of a job
/// uses up one step of the work that is left, and changes no submitted job:
/// without further submissions a pool does at most as many steps as work
/// was left.
pub proof fn schedule_uses_up_work<J>(s: PoolState<J>, events: Seq<Event<J>>)
    requires
        s.inv(),
        admissible(s, events),
        submits_nothing(events),
    ensures
        run(s, events).inv(),
        run(s, events).jobs == s.jobs,
        work_left(run(s, events).status) + events.len() == work_left(s.status),
    decreases events.len(),
{
    if events.len() > 0 {
        let before = events.drop_last();
        assert(submits_nothing(before)) by {
            assert forall|i: int| 0 <= i < before.len() implies !((#[trigger] before[i])
                is Submit) by {
                assert(before[i] == events[i]);
            }
        }
        schedule_uses_up_work(s, before);
        step_preserves_inv(run(s, before), events.last());
        step_reduces_work(run(s, before), events.last());
    }
}

/// A pool with work left is never stuck: some worker can end its job or
/// take the oldest waiting job.
pub proof fn work_left_can_proceed<J>(s: PoolState<J>) -> (w: nat)
    requires
        s.inv(),
        work_left(s.status) > 0,
    ensures
        s.is_busy(w) || s.can_take(w),
{
    let k: int = work_left_witness(s.status);
    match s.status[k] {
        JobStatus::Running { worker } => worker,
        _ => 0,
    }
}

/// When no work is left, every submitted job has been executed, the queue
/// is empty and every worker is idle.
pub proof fn no_work_left_all_executed<J>(s: PoolState<J>)
    requires
        s.inv(),
        work_left(s.status) == 0,
    ensures
        forall|k: int| 0 <= k < s.jobs.len() ==> (#[trigger] s.status[k]) is Finished,
        s.pending().len() == 0,
        forall|w: nat| w < s.size() ==> s.is_idle(w),
{
    assert forall|k: int| 0 <= k < s.jobs.len() implies (#[trigger] s.status[k]) is Finished by {
        work_left_bounds(s.status, k);
    }
    if s.started < s.jobs.len() {
        work_left_bounds(s.status, s.started as int);
    }
    assert forall|w: nat| w < s.size() implies s.is_idle(w) by {
        if let Some(k) = s.workers[w as int] {
            work_left_bounds(s.status, k as int);
        }
    }
}

proof fn extend_to_completion<J>(s: PoolState<J>, done: Seq<Event<J>>) -> (events: Seq<Event<J>>)
    requires
        s.inv(),
        admissible(s, done),
        submits_nothing(done),
    ensures
        admissible(s, events),
        submits_nothing(events),
        work_left(run(s, events).status) == 0,
    decreases work_left(run(s, done).status),
{
    let now = run(s, done);
    schedule_uses_up_work(s, done);
    if work_left(now.status) == 0 {
        done
    } else {
        let w: nat = work_left_can_proceed(now);
        let e = if now.is_busy(w) {
            Event::Finish { worker: w, outcome: Outcome::Completed }
        } else {
            Event::Take { worker: w }
        };
        let next = done.push(e);
        assert(next.drop_last() =~= done);
        step_reduces_work(now, e);
        extend_to_completion(s, next)
    }
}

/// Every job is executed in the end, whatever the number of jobs and of
/// workers: from any state that a pool can reach, takes and ends of jobs
/// alone, as many as work is left, lead to a state in which every
/// submitted job has been executed.
pub proof fn can_run_to_completion<J>(s: PoolState<J>) -> (events: Seq<Event<J>>)
    requires
        s.inv(),
    ensures
        admissible(s, events),
        submits_nothing(events),
        events.len() == work_left(s.status),
        run(s, events).jobs == s.jobs,
        forall|k: int|
            0 <= k < s.jobs.len() ==> (#[trigger] run(s, events).status[k]) is Finished,
{
    let events = extend_to_completion(s, Seq::empty());
    schedule_uses_up_work(s, events);
    no_work_left_all_executed(run(s, events));
    events
}

/// A fault ends a job as a return does: the worker is idle again, the
/// other workers are untouched, and the worker can take the next job
/// that is submitted or waits.
pub proof fn fault_leaves_worker_ready<J>(s: PoolState<J>, w: nat, job: J)
    requires
        s.inv(),
        s.is_busy(w),
    ensures
        s.finish(w, Outcome::Faulted).inv(),
        s.finish(w, Outcome::Faulted).is_idle(w),
        s.finish(w, Outcome::Faulted).workers == s.finish(w, Outcome::Completed).workers,
        s.finish(w, Outcome::Faulted).size() == s.size(),
        s.finish(w, Outcome::Faulted).pending() == s.pending(),
        s.finish(w, Outcome::Faulted).submit(job).can_take(w),
        s.finish(w, Outcome::Faulted).submit(job).take(w).is_busy(w),
{
}

} // verus!

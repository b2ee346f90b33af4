use server::model::Outcome;
use server::thread::{ThreadPool, Worker, WorkerState};
use std::cell::RefCell;
use std::rc::Rc;

/// Runs the pool until nothing is left to do: every idle worker takes a job
/// if one waits, then every busy worker ends its job. Returns the jobs in the
/// order in which they were handed out.
fn drain(pool: &mut ThreadPool<u32>) -> Vec<u32> {
    let mut ran = Vec::new();
    loop {
        let mut progressed = false;
        for w in 0..pool.size() {
            if let Some(job) = pool.take(w) {
                ran.push(job);
                progressed = true;
            }
        }
        for w in 0..pool.size() {
            if pool.finish(w, Outcome::Completed) {
                progressed = true;
            }
        }
        if !progressed {
            return ran;
        }
    }
}

#[test]
fn worker_starts_idle_with_its_id() {
    let w = Worker::new(3);
    assert_eq!(w.id(), 3);
    assert_eq!(w.state(), WorkerState::Idle);
}

#[test]
fn new_pool_has_exactly_n_idle_workers() {
    for n in 1..=8usize {
        let pool: ThreadPool<u32> = ThreadPool::new(n);
        assert_eq!(pool.size(), n);
        assert_eq!(pool.pending(), 0);
        for w in 0..n {
            assert_eq!(pool.worker_state(w), Some(WorkerState::Idle));
        }
        assert_eq!(pool.worker_state(n), None);
    }
}

#[test]
fn execute_only_queues() {
    let mut pool: ThreadPool<u32> = ThreadPool::new(2);
    pool.execute(10);
    pool.execute(11);
    pool.execute(12);
    assert_eq!(pool.pending(), 3);
    assert_eq!(pool.worker_state(0), Some(WorkerState::Idle));
    assert_eq!(pool.worker_state(1), Some(WorkerState::Idle));
}

#[test]
fn jobs_come_out_in_submission_order() {
    let mut pool: ThreadPool<u32> = ThreadPool::new(3);
    for job in [5u32, 3, 9, 3] {
        pool.execute(job);
    }
    assert_eq!(pool.take(2), Some(5));
    assert_eq!(pool.take(0), Some(3));
    assert_eq!(pool.take(1), Some(9));
    assert_eq!(pool.pending(), 1);
    assert!(pool.finish(0, Outcome::Completed));
    assert_eq!(pool.take(0), Some(3));
    assert_eq!(pool.pending(), 0);
}

#[test]
fn take_makes_the_worker_busy_and_finish_idle() {
    let mut pool: ThreadPool<u32> = ThreadPool::new(2);
    pool.execute(1);
    assert_eq!(pool.take(1), Some(1));
    assert_eq!(pool.worker_state(1), Some(WorkerState::Busy));
    assert_eq!(pool.worker_state(0), Some(WorkerState::Idle));
    assert!(pool.finish(1, Outcome::Completed));
    assert_eq!(pool.worker_state(1), Some(WorkerState::Idle));
}

#[test]
fn take_from_an_empty_queue_gives_nothing() {
    let mut pool: ThreadPool<u32> = ThreadPool::new(1);
    assert_eq!(pool.take(0), None);
    assert_eq!(pool.worker_state(0), Some(WorkerState::Idle));
}

#[test]
fn a_busy_worker_takes_no_second_job() {
    let mut pool: ThreadPool<u32> = ThreadPool::new(2);
    pool.execute(1);
    pool.execute(2);
    assert_eq!(pool.take(0), Some(1));
    assert_eq!(pool.take(0), None);
    assert_eq!(pool.pending(), 1);
    assert_eq!(pool.take(1), Some(2));
}

#[test]
fn an_unknown_worker_takes_and_finishes_nothing() {
    let mut pool: ThreadPool<u32> = ThreadPool::new(2);
    pool.execute(1);
    assert_eq!(pool.take(2), None);
    assert_eq!(pool.take(usize::MAX), None);
    assert!(!pool.finish(2, Outcome::Completed));
    assert_eq!(pool.pending(), 1);
}

#[test]
fn finishing_an_idle_worker_changes_nothing() {
    let mut pool: ThreadPool<u32> = ThreadPool::new(1);
    pool.execute(7);
    assert!(!pool.finish(0, Outcome::Faulted));
    assert_eq!(pool.pending(), 1);
    assert_eq!(pool.take(0), Some(7));
    assert!(pool.finish(0, Outcome::Completed));
    assert!(!pool.finish(0, Outcome::Completed));
}

#[test]
fn every_job_runs_exactly_once() {
    for n in 1..=4usize {
        for m in [0u32, 1, 3, 4, 5, 17] {
            let mut pool: ThreadPool<u32> = ThreadPool::new(n);
            for job in 0..m {
                pool.execute(job);
            }
            let ran = drain(&mut pool);
            let expected: Vec<u32> = (0..m).collect();
            assert_eq!(ran, expected);
            assert_eq!(pool.pending(), 0);
            for w in 0..n {
                assert_eq!(pool.worker_state(w), Some(WorkerState::Idle));
            }
        }
    }
}

#[test]
fn jobs_submitted_while_others_run_are_not_lost() {
    let mut pool: ThreadPool<u32> = ThreadPool::new(2);
    pool.execute(0);
    pool.execute(1);
    assert_eq!(pool.take(0), Some(0));
    pool.execute(2);
    assert_eq!(pool.take(1), Some(1));
    pool.execute(3);
    assert_eq!(pool.take(0), None);
    assert!(pool.finish(1, Outcome::Completed));
    assert_eq!(pool.take(1), Some(2));
    let rest = drain(&mut pool);
    assert_eq!(rest, vec![3]);
}

#[test]
fn a_faulted_worker_is_idle_again_and_takes_the_next_job() {
    let mut pool: ThreadPool<u32> = ThreadPool::new(1);
    pool.execute(1);
    assert_eq!(pool.take(0), Some(1));
    assert!(pool.finish(0, Outcome::Faulted));
    assert_eq!(pool.worker_state(0), Some(WorkerState::Idle));
    pool.execute(2);
    assert_eq!(pool.take(0), Some(2));
    assert!(pool.finish(0, Outcome::Completed));
    assert_eq!(pool.size(), 1);
}

#[test]
fn closures_that_record_themselves_each_run_once() {
    let log: Rc<RefCell<Vec<usize>>> = Rc::new(RefCell::new(Vec::new()));
    let mut pool: ThreadPool<Box<dyn FnOnce()>> = ThreadPool::new(3);
    for k in 0..10usize {
        let log = Rc::clone(&log);
        pool.execute(Box::new(move || log.borrow_mut().push(k)));
    }
    loop {
        let mut progressed = false;
        for w in 0..pool.size() {
            if let Some(job) = pool.take(w) {
                job();
                assert!(pool.finish(w, Outcome::Completed));
                progressed = true;
            }
        }
        if !progressed {
            break;
        }
    }
    assert_eq!(*log.borrow(), (0..10).collect::<Vec<usize>>());
}

#[test]
fn a_short_job_does_not_wait_for_the_long_ones() {
    let n = 4usize;
    let mut pool: ThreadPool<&str> = ThreadPool::new(n);
    pool.execute("long");
    pool.execute("long");
    pool.execute("short");
    pool.execute("long");
    let mut short_worker = None;
    for w in 0..n {
        let job = pool.take(w);
        assert!(job.is_some());
        if job == Some("short") {
            short_worker = Some(w);
        }
    }
    for w in 0..n {
        assert_eq!(pool.worker_state(w), Some(WorkerState::Busy));
    }
    let short_worker = short_worker.unwrap();
    assert_eq!(short_worker, 2);
    assert!(pool.finish(short_worker, Outcome::Completed));
    assert_eq!(pool.worker_state(short_worker), Some(WorkerState::Idle));
    for w in 0..n {
        if w != short_worker {
            assert_eq!(pool.worker_state(w), Some(WorkerState::Busy));
        }
    }
}

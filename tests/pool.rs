use threadpool::pool::{ThreadPool, Worker, WorkerState};
use threadpool::queue::{Next, WorkQueue};
use threadpool::PoolError;

fn take(pool: &mut ThreadPool<u32>, w: usize) -> Option<u32> {
    match pool.next_job(w) {
        Next::Job(j) => Some(j),
        _ => None,
    }
}

/// Runs the pool's shutdown to its end on one thread, taking the workers in
/// turn, and returns the jobs in the order they were handed out.
fn drain(pool: &mut ThreadPool<u32>) -> Vec<u32> {
    pool.shutdown();
    let mut ran = Vec::new();
    while !pool.is_terminated() {
        for w in 0..pool.size() {
            match pool.worker_state(w) {
                WorkerState::Idle => {
                    if let Next::Job(j) = pool.next_job(w) {
                        ran.push(j);
                    }
                }
                WorkerState::Busy => pool.finish_job(w),
                WorkerState::Exited => pool.join_worker(w),
                WorkerState::Joined => {}
            }
        }
    }
    ran
}

#[test]
fn new_pool_has_size_idle_workers() {
    let pool: ThreadPool<u32> = ThreadPool::new(4).unwrap();
    assert_eq!(pool.size(), 4);
    for w in 0..4 {
        assert_eq!(pool.worker_state(w), WorkerState::Idle);
    }
    assert!(pool.accepts());
    assert_eq!(pool.pending_len(), 0);
}

#[test]
fn new_pool_of_zero_is_refused() {
    let r: Result<ThreadPool<u32>, PoolError> = ThreadPool::new(0);
    assert!(matches!(r, Err(PoolError::InvalidPoolSize)));
}

#[test]
fn worker_new_is_idle() {
    let w = Worker::new(3);
    assert_eq!(w.id, 3);
    assert_eq!(w.state, WorkerState::Idle);
}

#[test]
fn every_job_is_handed_out_once_in_order() {
    let mut pool = ThreadPool::new(3).unwrap();
    for id in 1..=7u32 {
        assert_eq!(pool.execute(id), Ok(()));
    }
    assert_eq!(pool.pending_len(), 7);
    let ran = drain(&mut pool);
    assert_eq!(ran, vec![1, 2, 3, 4, 5, 6, 7]);
    assert_eq!(pool.pending_len(), 0);
}

#[test]
fn one_worker_finishes_a_before_b_starts() {
    let mut pool = ThreadPool::new(1).unwrap();
    pool.execute(10u32).unwrap();
    pool.execute(20u32).unwrap();
    assert_eq!(take(&mut pool, 0), Some(10));
    assert_eq!(pool.worker_state(0), WorkerState::Busy);
    pool.finish_job(0);
    assert_eq!(pool.worker_state(0), WorkerState::Idle);
    assert_eq!(take(&mut pool, 0), Some(20));
}

#[test]
fn idle_worker_waits_while_queue_is_open() {
    let mut pool: ThreadPool<u32> = ThreadPool::new(2).unwrap();
    assert!(matches!(pool.next_job(1), Next::Empty));
    assert_eq!(pool.worker_state(1), WorkerState::Idle);
}

#[test]
fn shutdown_runs_every_queued_job_first() {
    let mut pool = ThreadPool::new(2).unwrap();
    for id in 0..5u32 {
        pool.execute(id).unwrap();
    }
    assert_eq!(take(&mut pool, 0), Some(0));
    pool.shutdown();
    assert!(!pool.accepts());
    assert_eq!(pool.pending_len(), 4);
    // a worker is never told to leave while jobs are pending
    assert_eq!(take(&mut pool, 1), Some(1));
    pool.finish_job(0);
    let ran = drain(&mut pool);
    assert_eq!(ran, vec![2, 3, 4]);
    assert!(pool.is_terminated());
}

#[test]
fn shutdown_without_jobs_terminates() {
    let mut pool: ThreadPool<u32> = ThreadPool::new(3).unwrap();
    pool.shutdown();
    assert!(matches!(pool.next_job(0), Next::Closed));
    assert_eq!(pool.worker_state(0), WorkerState::Exited);
    pool.join_worker(0);
    assert_eq!(pool.worker_state(0), WorkerState::Joined);
    assert!(!pool.is_terminated());
    let ran = drain(&mut pool);
    assert!(ran.is_empty());
    assert!(pool.is_terminated());
}

#[test]
fn execute_after_shutdown_is_refused() {
    let mut pool = ThreadPool::new(2).unwrap();
    pool.execute(1u32).unwrap();
    pool.shutdown();
    assert_eq!(pool.execute(2), Err(PoolError::QueueClosed));
    assert_eq!(pool.pending_len(), 1);
    assert_eq!(drain(&mut pool), vec![1]);
}

#[test]
fn two_workers_run_two_jobs_at_once() {
    let mut pool = ThreadPool::new(2).unwrap();
    for id in 1..=4u32 {
        pool.execute(id).unwrap();
    }
    // first batch: both workers busy at the same time
    assert_eq!(take(&mut pool, 0), Some(1));
    assert_eq!(take(&mut pool, 1), Some(2));
    assert_eq!(pool.worker_state(0), WorkerState::Busy);
    assert_eq!(pool.worker_state(1), WorkerState::Busy);
    pool.finish_job(0);
    pool.finish_job(1);
    // second batch
    assert_eq!(take(&mut pool, 1), Some(3));
    assert_eq!(take(&mut pool, 0), Some(4));
    pool.finish_job(0);
    pool.finish_job(1);
    assert_eq!(pool.pending_len(), 0);
    assert!(drain(&mut pool).is_empty());
}

#[test]
fn failed_job_leaves_worker_in_service() {
    let mut pool = ThreadPool::new(1).unwrap();
    pool.execute(1u32).unwrap();
    pool.execute(2u32).unwrap();
    assert_eq!(take(&mut pool, 0), Some(1));
    // the job failed: the host reports it finished all the same
    pool.finish_job(0);
    assert_eq!(take(&mut pool, 0), Some(2));
}

#[test]
fn queue_is_first_in_first_out() {
    let mut q = WorkQueue::new();
    assert_eq!(q.submit('a'), Ok(()));
    assert_eq!(q.submit('b'), Ok(()));
    assert_eq!(q.len(), 2);
    assert!(matches!(q.next(), Next::Job('a')));
    assert!(matches!(q.next(), Next::Job('b')));
    assert!(matches!(q.next(), Next::Empty));
}

#[test]
fn closed_queue_drains_then_reports_closed() {
    let mut q = WorkQueue::new();
    q.submit(5u8).unwrap();
    q.close();
    assert!(!q.accepts());
    assert_eq!(q.submit(6), Err(PoolError::QueueClosed));
    assert!(matches!(q.next(), Next::Job(5)));
    assert!(matches!(q.next(), Next::Closed));
    assert!(matches!(q.next(), Next::Closed));
}

use rustress::pool::{
    PoolConfigError, State, ThreadPoolBuilder, ThreadPoolFactory, Worker, WorkerState,
};
use rustress::Message;

#[test]
fn all_submitted_jobs_run_exactly_once() {
    let mut pool = ThreadPoolFactory::new_fixed_sized::<u32>(2).unwrap();
    pool.execute(10);
    pool.execute(20);
    let jobs = pool.drain_with(0);
    assert_eq!(jobs, vec![10, 20]);
    assert_eq!(pool.completed_task_count(), 2);
    assert_eq!(pool.queue_len(), 0);
}

#[test]
fn worker_set_never_exceeds_ceiling() {
    let mut pool = ThreadPoolBuilder::<u32>::new()
        .max_pool_size(2)
        .unwrap()
        .build();
    assert_eq!(pool.worker_count(), 0);
    pool.execute(1);
    assert_eq!(pool.worker_count(), 1);
    // the lone worker goes busy, so the next submission grows the pool
    assert!(matches!(pool.next_message(0), Some(Message::NewJob(1))));
    pool.execute(2);
    assert_eq!(pool.worker_count(), 2);
    // both busy and the ceiling reached: no further growth, ever
    assert!(matches!(pool.next_message(1), Some(Message::NewJob(2))));
    for job in 3..20 {
        pool.execute(job);
        assert!(pool.worker_count() <= 2);
    }
    assert_eq!(pool.worker_count(), 2);
}

#[test]
fn zero_max_pool_size_fails_construction() {
    assert_eq!(
        ThreadPoolFactory::new_fixed_sized::<u32>(0).unwrap_err(),
        PoolConfigError::ZeroMaxPoolSize
    );
    assert_eq!(
        ThreadPoolBuilder::<u32>::new().max_pool_size(0).unwrap_err(),
        PoolConfigError::ZeroMaxPoolSize
    );
}

#[test]
fn active_above_max_fails_construction() {
    assert_eq!(
        ThreadPoolBuilder::<u32>::new().active_pool_size(5).unwrap_err(),
        PoolConfigError::ActiveAboveMax
    );
    assert_eq!(
        ThreadPoolBuilder::<u32>::new().active_pool_size(0).unwrap_err(),
        PoolConfigError::ZeroActivePoolSize
    );
    let builder = ThreadPoolBuilder::<u32>::new()
        .max_pool_size(4)
        .unwrap()
        .active_pool_size(3)
        .unwrap();
    assert_eq!(
        builder.max_pool_size(2).unwrap_err(),
        PoolConfigError::MaxBelowActive
    );
}

#[test]
fn teardown_stops_every_worker() {
    let mut pool = ThreadPoolFactory::new_fixed_sized::<u32>(2).unwrap();
    pool.shutdown();
    assert_eq!(pool.lifecycle(), State::Terminated);
    // one termination signal per worker is queued
    assert_eq!(pool.queue_len(), 2);
    assert!(matches!(pool.next_message(0), Some(Message::Terminate)));
    assert!(matches!(pool.next_message(1), Some(Message::Terminate)));
    assert_eq!(pool.queue_len(), 0);
    // the queue is drained, so no live worker remains
    for worker in pool.workers() {
        assert_eq!(worker.state, WorkerState::Stopped);
    }
}

#[test]
fn queued_jobs_run_before_termination_signals() {
    let mut pool = ThreadPoolFactory::new_single_threaded::<u32>();
    pool.execute(5);
    pool.shutdown();
    // the job submitted before teardown still sits ahead of the signal
    assert_eq!(pool.queue_len(), 2);
    assert!(matches!(pool.next_message(0), Some(Message::NewJob(5))));
    pool.finish_job(0);
    assert!(matches!(pool.next_message(0), Some(Message::Terminate)));
    assert_eq!(pool.completed_task_count(), 1);
    assert_eq!(pool.workers()[0].state, WorkerState::Stopped);
}

#[test]
fn five_jobs_on_fixed_pool_of_two() {
    let mut pool = ThreadPoolFactory::new_fixed_sized::<u32>(2).unwrap();
    for job in 1..=5 {
        pool.execute(job);
    }
    let mut log: Vec<u32> = Vec::new();
    for job in pool.drain_with(0) {
        log.push(job);
    }
    assert_eq!(log, vec![1, 2, 3, 4, 5]);
    assert_eq!(pool.completed_task_count(), 5);
}

#[test]
fn lazy_pool_spawns_exactly_one_worker_for_one_job() {
    let mut pool = ThreadPoolBuilder::<u32>::new()
        .max_pool_size(3)
        .unwrap()
        .build();
    assert_eq!(pool.worker_count(), 0);
    pool.execute(42);
    assert_eq!(pool.worker_count(), 1);
    assert!(matches!(pool.next_message(0), Some(Message::NewJob(42))));
    pool.finish_job(0);
    assert_eq!(pool.completed_task_count(), 1);
    assert_eq!(pool.workers()[0].completed_task_count(), 1);
}

#[test]
fn failed_job_stalls_a_pool_of_one() {
    let mut pool = ThreadPoolFactory::new_single_threaded::<u32>();
    pool.execute(1);
    assert!(matches!(pool.next_message(0), Some(Message::NewJob(1))));
    // the job raises a failure: the worker's thread dies mid-run
    pool.fail_job(0);
    // a later submission is accepted, but stalls indefinitely: the only
    // worker is dead with its busy flag stuck, the pool is at its ceiling
    // and spawns no replacement, so nothing will ever dequeue the job
    pool.execute(2);
    assert_eq!(pool.queue_len(), 1);
    assert_eq!(pool.worker_count(), 1);
    assert!(pool.workers()[0].is_busy());
    assert_eq!(pool.workers()[0].state, WorkerState::Failed);
    assert_eq!(pool.completed_task_count(), 0);
}

#[test]
fn completed_task_count_is_idempotent() {
    let mut pool = ThreadPoolFactory::new_fixed_sized::<u32>(2).unwrap();
    pool.execute(7);
    let _ = pool.drain_with(1);
    let first = pool.completed_task_count();
    let second = pool.completed_task_count();
    let third = pool.completed_task_count();
    assert_eq!(first, 1);
    assert_eq!(first, second);
    assert_eq!(second, third);
}

#[test]
fn initial_job_is_queued_ahead_of_submissions() {
    let mut pool = ThreadPoolBuilder::<u32>::new()
        .max_pool_size(2)
        .unwrap()
        .active_pool_size(1)
        .unwrap()
        .initial_job(99)
        .build();
    assert_eq!(pool.queue_len(), 1);
    pool.execute(1);
    let jobs = pool.drain_with(0);
    assert_eq!(jobs, vec![99, 1]);
}

#[test]
fn cached_pool_carries_the_reclaim_window() {
    let pool = ThreadPoolFactory::new_cached::<u32>(10);
    assert_eq!(pool.lifecycle(), State::Running(0));
    assert_eq!(pool.worker_count(), 0);
    assert_eq!(pool.completed_task_count(), 0);
}

#[test]
fn fixed_pool_starts_all_workers_eagerly() {
    let pool = ThreadPoolFactory::new_fixed_sized::<u32>(3).unwrap();
    assert_eq!(pool.lifecycle(), State::Running(3));
    assert_eq!(pool.worker_count(), 3);
    for (i, worker) in pool.workers().iter().enumerate() {
        assert_eq!(worker.id, i);
        assert_eq!(worker.state, WorkerState::Idle);
        assert_eq!(worker.completed_task_count(), 0);
        assert!(worker.started);
        assert!(!worker.is_busy());
    }
}

#[test]
fn fresh_worker_is_idle_and_unstarted() {
    let mut worker = Worker::new(3);
    assert_eq!(worker.id, 3);
    assert!(!worker.is_busy());
    assert!(!worker.started);
    assert_eq!(worker.completed_task_count(), 0);
    worker.start();
    assert!(worker.started);
}

use worker_pool::pool::{Dequeued, JobOutcome, JoinStep, PoolError, ThreadPool};
use worker_pool::worker::{Worker, WorkerAction, WorkerEvent, WorkerState};

/// Lets worker `id` go from idle to holding the consumer end of the queue.
fn reach_queue(pool: &mut ThreadPool<u32>, id: usize) {
    assert_eq!(pool.request(id), Some(WorkerAction::AwaitAccess));
    assert_eq!(pool.grant(id), Some(WorkerAction::AwaitJob));
}

/// Lets worker `id` take the next job, which must be there.
fn take(pool: &mut ThreadPool<u32>, id: usize) -> u32 {
    reach_queue(pool, id);
    match pool.dequeue(id) {
        Dequeued::Run(job) => job,
        other => panic!("worker {} got {:?}", id, other),
    }
}

/// Lets worker `id` run to its stop on a closed and empty queue.
fn stop(pool: &mut ThreadPool<u32>, id: usize) {
    reach_queue(pool, id);
    assert!(matches!(pool.dequeue(id), Dequeued::Stop));
}

#[test]
fn new_pool_has_idle_workers_and_an_empty_open_queue() {
    let pool: ThreadPool<u32> = ThreadPool::new(4).unwrap();
    assert_eq!(pool.size(), 4);
    assert!(pool.is_open());
    assert_eq!(pool.pending(), 0);
    assert_eq!(pool.in_flight(), 0);
    assert_eq!(pool.joined(), 0);
    assert!(!pool.is_shut_down());
    for id in 0..4 {
        assert_eq!(pool.worker_state(id), Some(WorkerState::Idle));
    }
    assert_eq!(pool.worker_state(4), None);
}

#[test]
fn pool_of_no_workers_is_refused() {
    let r: Result<ThreadPool<u32>, PoolError> = ThreadPool::new(0);
    assert_eq!(r.err(), Some(PoolError::ZeroSize));
    let again: Result<ThreadPool<u32>, PoolError> = ThreadPool::new(0);
    assert_eq!(again.err(), Some(PoolError::ZeroSize));
}

#[test]
fn pool_of_one_worker_is_accepted() {
    let pool: ThreadPool<u32> = ThreadPool::new(1).unwrap();
    assert_eq!(pool.size(), 1);
}

#[test]
fn submission_never_waits_for_a_worker() {
    let mut pool: ThreadPool<u32> = ThreadPool::new(1).unwrap();
    for job in 0..100 {
        assert_eq!(pool.execute(job), Ok(()));
    }
    assert_eq!(pool.pending(), 100);
    assert_eq!(pool.in_flight(), 0);
}

#[test]
fn every_job_runs_exactly_once() {
    let mut pool: ThreadPool<u32> = ThreadPool::new(3).unwrap();
    let n = 10u32;
    for job in 0..n {
        pool.execute(job).unwrap();
    }
    let mut runs = vec![0u32; n as usize];
    // Workers take turns in an uneven order: 2, 0, then 1 twice as often.
    let order = [2usize, 0, 1, 1, 0, 1, 2, 1, 1, 0];
    for &id in order.iter() {
        let job = take(&mut pool, id);
        runs[job as usize] += 1;
        assert_eq!(pool.finish(id, JobOutcome::Completed), Some(WorkerAction::Restart));
    }
    assert_eq!(runs, vec![1u32; n as usize]);
    assert_eq!(pool.pending(), 0);
    assert_eq!(pool.in_flight(), 0);
}

#[test]
fn four_jobs_on_two_workers_run_in_two_waves() {
    let mut pool: ThreadPool<u32> = ThreadPool::new(2).unwrap();
    for job in 0..4 {
        pool.execute(job).unwrap();
    }
    let mut log: Vec<u32> = Vec::new();
    // First wave: both workers start a job before either finishes.
    log.push(take(&mut pool, 0));
    log.push(take(&mut pool, 1));
    assert_eq!(pool.in_flight(), 2);
    assert_eq!(pool.pending(), 2);
    // No worker is free to start a third job.
    assert_eq!(pool.request(0), None);
    assert_eq!(pool.request(1), None);
    assert!(matches!(pool.dequeue(0), Dequeued::Refused));
    assert!(matches!(pool.dequeue(1), Dequeued::Refused));
    assert_eq!(pool.in_flight(), 2);
    pool.finish(0, JobOutcome::Completed);
    pool.finish(1, JobOutcome::Completed);
    assert_eq!(pool.in_flight(), 0);
    // Second wave.
    log.push(take(&mut pool, 1));
    log.push(take(&mut pool, 0));
    assert_eq!(pool.in_flight(), 2);
    assert_eq!(pool.pending(), 0);
    pool.finish(1, JobOutcome::Completed);
    pool.finish(0, JobOutcome::Completed);
    assert_eq!(log, vec![0, 1, 2, 3]);
}

#[test]
fn never_more_jobs_in_flight_than_workers() {
    let mut pool: ThreadPool<u32> = ThreadPool::new(2).unwrap();
    for job in 0..6 {
        pool.execute(job).unwrap();
    }
    for round in 0..3 {
        take(&mut pool, 0);
        assert!(pool.in_flight() <= pool.size());
        take(&mut pool, 1);
        assert_eq!(pool.in_flight(), 2);
        assert_eq!(pool.pending(), 4 - 2 * round);
        pool.finish(1, JobOutcome::Completed);
        assert_eq!(pool.in_flight(), 1);
        pool.finish(0, JobOutcome::Completed);
        assert_eq!(pool.in_flight(), 0);
    }
}

#[test]
fn single_worker_completes_in_submission_order() {
    let mut pool: ThreadPool<u32> = ThreadPool::new(1).unwrap();
    let submitted = vec![7u32, 3, 9, 3, 1];
    for job in submitted.iter() {
        pool.execute(*job).unwrap();
    }
    let mut completed: Vec<u32> = Vec::new();
    for _ in 0..submitted.len() {
        let job = take(&mut pool, 0);
        pool.finish(0, JobOutcome::Completed);
        completed.push(job);
    }
    assert_eq!(completed, submitted);
}

#[test]
fn jobs_are_dequeued_oldest_first_by_any_worker() {
    let mut pool: ThreadPool<u32> = ThreadPool::new(3).unwrap();
    pool.execute(10).unwrap();
    pool.execute(20).unwrap();
    assert_eq!(take(&mut pool, 2), 10);
    pool.execute(30).unwrap();
    assert_eq!(take(&mut pool, 0), 20);
    assert_eq!(take(&mut pool, 1), 30);
}

#[test]
fn only_one_worker_holds_the_queue() {
    let mut pool: ThreadPool<u32> = ThreadPool::new(2).unwrap();
    assert_eq!(pool.request(0), Some(WorkerAction::AwaitAccess));
    assert_eq!(pool.request(1), Some(WorkerAction::AwaitAccess));
    assert_eq!(pool.grant(1), Some(WorkerAction::AwaitJob));
    assert_eq!(pool.grant(0), None);
    assert_eq!(pool.worker_state(0), Some(WorkerState::Acquiring));
    assert_eq!(pool.worker_state(1), Some(WorkerState::Dequeuing));
    // The holder waits on the empty open queue and keeps the queue.
    assert!(matches!(pool.dequeue(1), Dequeued::Wait));
    assert_eq!(pool.grant(0), None);
    // With a job it lets go before it runs the job.
    pool.execute(5).unwrap();
    assert!(matches!(pool.dequeue(1), Dequeued::Run(5)));
    assert_eq!(pool.worker_state(1), Some(WorkerState::Executing));
    assert_eq!(pool.grant(0), Some(WorkerAction::AwaitJob));
}

#[test]
fn shutdown_waits_for_the_job_in_flight() {
    let mut pool: ThreadPool<u32> = ThreadPool::new(2).unwrap();
    let mut log: Vec<u32> = Vec::new();
    pool.execute(42).unwrap();
    let job = take(&mut pool, 0);
    // Teardown starts at once.
    pool.close();
    assert!(!pool.is_open());
    assert_eq!(pool.join_next(), JoinStep::Wait(0));
    // Worker 1 finds the queue closed and empty, but worker 0 comes first.
    stop(&mut pool, 1);
    assert_eq!(pool.join_next(), JoinStep::Wait(0));
    assert!(!pool.is_shut_down());
    // The job completes and is logged; only then can worker 0 stop.
    log.push(job);
    assert_eq!(pool.finish(0, JobOutcome::Completed), Some(WorkerAction::Restart));
    assert_eq!(pool.join_next(), JoinStep::Wait(0));
    stop(&mut pool, 0);
    assert_eq!(pool.join_next(), JoinStep::Joined(0));
    assert_eq!(pool.join_next(), JoinStep::Joined(1));
    assert_eq!(pool.join_next(), JoinStep::Done);
    assert!(pool.is_shut_down());
    assert_eq!(log, vec![42]);
}

#[test]
fn shutdown_runs_the_jobs_still_queued() {
    let mut pool: ThreadPool<u32> = ThreadPool::new(1).unwrap();
    pool.execute(1).unwrap();
    pool.execute(2).unwrap();
    pool.close();
    assert_eq!(pool.pending(), 2);
    assert_eq!(take(&mut pool, 0), 1);
    pool.finish(0, JobOutcome::Completed);
    assert_eq!(take(&mut pool, 0), 2);
    pool.finish(0, JobOutcome::Completed);
    stop(&mut pool, 0);
    assert_eq!(pool.join_next(), JoinStep::Joined(0));
    assert!(pool.is_shut_down());
    assert_eq!(pool.pending(), 0);
    assert_eq!(pool.in_flight(), 0);
}

#[test]
fn closed_pool_refuses_jobs() {
    let mut pool: ThreadPool<u32> = ThreadPool::new(1).unwrap();
    pool.execute(1).unwrap();
    pool.close();
    assert_eq!(pool.execute(2), Err(PoolError::Closed));
    assert_eq!(pool.pending(), 1);
    pool.close();
    assert_eq!(pool.execute(3), Err(PoolError::Closed));
    assert_eq!(pool.pending(), 1);
}

#[test]
fn open_pool_joins_nobody() {
    let mut pool: ThreadPool<u32> = ThreadPool::new(2).unwrap();
    assert_eq!(pool.join_next(), JoinStep::Wait(0));
    reach_queue(&mut pool, 0);
    assert!(matches!(pool.dequeue(0), Dequeued::Wait));
    assert_eq!(pool.worker_state(0), Some(WorkerState::Dequeuing));
    assert_eq!(pool.join_next(), JoinStep::Wait(0));
    assert_eq!(pool.joined(), 0);
}

#[test]
fn faulted_job_costs_no_worker() {
    let mut pool: ThreadPool<u32> = ThreadPool::new(1).unwrap();
    pool.execute(1).unwrap();
    pool.execute(2).unwrap();
    assert_eq!(take(&mut pool, 0), 1);
    assert_eq!(pool.finish(0, JobOutcome::Faulted), Some(WorkerAction::Restart));
    assert_eq!(pool.worker_state(0), Some(WorkerState::Idle));
    assert_eq!(pool.size(), 1);
    assert_eq!(take(&mut pool, 0), 2);
    assert_eq!(pool.finish(0, JobOutcome::Completed), Some(WorkerAction::Restart));
    assert_eq!(pool.in_flight(), 0);
}

#[test]
fn steps_out_of_turn_change_nothing() {
    let mut pool: ThreadPool<u32> = ThreadPool::new(2).unwrap();
    pool.execute(1).unwrap();
    assert_eq!(pool.grant(0), None);
    assert!(matches!(pool.dequeue(0), Dequeued::Refused));
    assert_eq!(pool.finish(0, JobOutcome::Completed), None);
    assert_eq!(pool.request(2), None);
    assert_eq!(pool.grant(7), None);
    assert!(matches!(pool.dequeue(9), Dequeued::Refused));
    assert_eq!(pool.finish(2, JobOutcome::Faulted), None);
    assert_eq!(pool.worker_state(0), Some(WorkerState::Idle));
    assert_eq!(pool.worker_state(1), Some(WorkerState::Idle));
    assert_eq!(pool.pending(), 1);
    assert_eq!(pool.in_flight(), 0);
}

#[test]
fn stopped_worker_stays_stopped() {
    let mut pool: ThreadPool<u32> = ThreadPool::new(1).unwrap();
    pool.close();
    stop(&mut pool, 0);
    assert_eq!(pool.request(0), None);
    assert_eq!(pool.grant(0), None);
    assert!(matches!(pool.dequeue(0), Dequeued::Refused));
    assert_eq!(pool.finish(0, JobOutcome::Completed), None);
    assert_eq!(pool.worker_state(0), Some(WorkerState::Stopped));
}

#[test]
fn worker_cycle() {
    let mut w = Worker::new(3);
    assert_eq!(w.id(), 3);
    assert_eq!(w.state(), WorkerState::Idle);
    assert_eq!(w.handle(WorkerEvent::Granted), None);
    assert_eq!(w.handle(WorkerEvent::Request), Some(WorkerAction::AwaitAccess));
    assert_eq!(w.state(), WorkerState::Acquiring);
    assert_eq!(w.handle(WorkerEvent::Granted), Some(WorkerAction::AwaitJob));
    assert_eq!(w.handle(WorkerEvent::JobReceived), Some(WorkerAction::ReleaseAndRun));
    assert_eq!(w.state(), WorkerState::Executing);
    assert_eq!(w.handle(WorkerEvent::QueueClosed), None);
    assert_eq!(w.handle(WorkerEvent::JobReturned), Some(WorkerAction::Restart));
    assert_eq!(w.state(), WorkerState::Idle);
    w.handle(WorkerEvent::Request);
    w.handle(WorkerEvent::Granted);
    assert_eq!(w.handle(WorkerEvent::QueueClosed), Some(WorkerAction::ReleaseAndExit));
    assert_eq!(w.state(), WorkerState::Stopped);
    assert_eq!(w.handle(WorkerEvent::Request), None);
    assert_eq!(w.state(), WorkerState::Stopped);
    assert_eq!(w.id(), 3);
}

use http_engine::owner::Owner;
use http_engine::thread::life::{WorkerLife, WorkerLifeState};
use http_engine::thread::worker::{ThreadState, Worker};
use http_engine::thread::{Dispatch, SubmitError, ThreadPool};

#[test]
fn life_starts_alive_and_dies_for_good() {
    let mut life = WorkerLife::new();
    assert_eq!(life.get(), WorkerLifeState::Life);
    assert!(!life.is_die());
    life.die();
    assert_eq!(life.get(), WorkerLifeState::Die);
    assert!(life.is_die());
    life.die();
    assert_eq!(life.get(), WorkerLifeState::Die);
    assert!(life.is_die());
}

#[test]
fn owner_gives_its_value_away_once() {
    let mut owner = Owner::Control(7);
    assert_eq!(owner.take(), Owner::Control(7));
    assert_eq!(owner, Owner::Lose);
    assert_eq!(owner.take(), Owner::Lose);
    assert_eq!(owner, Owner::Lose);
    assert_eq!(Owner::<u8>::default(), Owner::Lose);
}

#[test]
fn owner_shows_its_value_while_it_has_one() {
    let mut owner = Owner::Control("held");
    assert_eq!(owner.value(), Some(&"held"));
    owner.take();
    assert_eq!(owner.value(), None);
}

#[test]
fn new_worker_has_a_thread_to_start() {
    let worker = Worker::new();
    assert!(!worker.is_killed());
    assert_eq!(worker.thread(), ThreadState::Ready);
    assert!(worker.thread().is_alive());
}

#[test]
fn worker_gets_a_thread_only_when_it_needs_one() {
    let mut worker = Worker::new();
    assert!(!worker.spawn());
    assert!(worker.look());
    assert!(!worker.spawn());
    worker.take_job();
    assert!(!worker.spawn());
    assert_eq!(worker.thread(), ThreadState::Busy);
    worker.end();
    assert_eq!(worker.thread(), ThreadState::Finished);
    assert!(worker.spawn());
    assert_eq!(worker.thread(), ThreadState::Ready);
    assert!(!worker.spawn());
}

#[test]
fn worker_thread_moves_only_along_its_course() {
    let mut worker = Worker::new();
    worker.take_job();
    assert_eq!(worker.thread(), ThreadState::Ready);
    worker.finish_job();
    assert_eq!(worker.thread(), ThreadState::Ready);
    assert!(worker.look());
    worker.finish_job();
    assert_eq!(worker.thread(), ThreadState::Parked);
    worker.take_job();
    assert_eq!(worker.thread(), ThreadState::Busy);
    worker.take_job();
    assert_eq!(worker.thread(), ThreadState::Busy);
    worker.finish_job();
    assert_eq!(worker.thread(), ThreadState::Ready);
    worker.end();
    assert_eq!(worker.thread(), ThreadState::Finished);
    worker.end();
    worker.take_job();
    worker.finish_job();
    assert!(!worker.look());
    assert_eq!(worker.thread(), ThreadState::Finished);
}

#[test]
fn killed_worker_never_gets_a_thread() {
    let mut worker = Worker::new();
    worker.kill();
    assert!(worker.is_killed());
    assert_eq!(worker.thread(), ThreadState::Ready);
    assert!(!worker.look());
    assert_eq!(worker.thread(), ThreadState::Finished);
    assert!(!worker.spawn());
    assert_eq!(worker.thread(), ThreadState::Finished);
    assert!(!worker.thread().is_alive());
}

#[test]
fn worker_looks_at_its_switch_only_before_it_waits() {
    let mut worker = Worker::new();
    assert!(worker.look());
    assert_eq!(worker.thread(), ThreadState::Parked);
    worker.kill();
    assert!(worker.look());
    assert_eq!(worker.thread(), ThreadState::Parked);
    worker.take_job();
    assert!(!worker.look());
    assert_eq!(worker.thread(), ThreadState::Busy);
    worker.finish_job();
    assert!(!worker.look());
    assert_eq!(worker.thread(), ThreadState::Finished);
}

#[test]
fn new_pool_has_as_many_live_workers_as_asked_for() {
    for n in 1..6u32 {
        let pool = ThreadPool::<u32>::new(n);
        assert_eq!(pool.capacity(), n as usize);
        assert_eq!(pool.queued(), 0);
        assert!(!pool.is_closed());
        for id in 0..pool.capacity() {
            assert!(!pool.worker(id).unwrap().is_killed());
            assert_eq!(pool.worker(id).unwrap().thread(), ThreadState::Ready);
        }
    }
}

#[test]
fn every_job_is_handed_out_once_and_in_order() {
    let mut pool = ThreadPool::<u32>::new(2);
    for job in 0..7u32 {
        assert_eq!(pool.execute(job), Ok(()));
    }
    let mut ran = Vec::new();
    let mut turn = 0;
    while pool.queued() > 0 {
        let id = turn % 2;
        match pool.step(id) {
            Dispatch::Run(job) => {
                ran.push(job);
                pool.job_done(id);
            }
            other => panic!("worker {} was told {:?}", id, other),
        }
        turn += 1;
    }
    assert_eq!(ran, vec![0, 1, 2, 3, 4, 5, 6]);
    assert_eq!(pool.step(0), Dispatch::Wait);
    assert_eq!(pool.step(1), Dispatch::Wait);
}

#[test]
fn pool_runs_as_many_jobs_at_a_time_as_it_has_workers() {
    let n = 3;
    let k = 5;
    let mut pool = ThreadPool::<u32>::new(n);
    for job in 0..k {
        assert_eq!(pool.execute(job), Ok(()));
    }
    for id in 0..n as usize {
        assert_eq!(pool.step(id), Dispatch::Run(id as u32));
    }
    let busy = (0..pool.capacity())
        .filter(|id| pool.worker(*id).unwrap().thread() == ThreadState::Busy)
        .count();
    assert_eq!(busy, n as usize);
    assert_eq!(pool.queued(), (k - n) as usize);
    for id in 0..n as usize {
        assert_eq!(pool.step(id), Dispatch::Wait);
    }
    assert_eq!(pool.queued(), (k - n) as usize);
    pool.job_done(1);
    assert_eq!(pool.worker(1).unwrap().thread(), ThreadState::Ready);
    assert_eq!(pool.step(1), Dispatch::Run(3));
    assert_eq!(pool.queued(), 1);
}

#[test]
fn idle_workers_wait_when_jobs_are_fewer() {
    let mut pool = ThreadPool::<u32>::new(3);
    assert_eq!(pool.execute(10), Ok(()));
    assert_eq!(pool.step(0), Dispatch::Run(10));
    assert_eq!(pool.step(1), Dispatch::Wait);
    assert_eq!(pool.step(2), Dispatch::Wait);
    assert_eq!(pool.worker(1).unwrap().thread(), ThreadState::Parked);
    assert_eq!(pool.execute(11), Ok(()));
    assert_eq!(pool.step(2), Dispatch::Run(11));
    assert_eq!(pool.worker(2).unwrap().thread(), ThreadState::Busy);
}

#[test]
fn heal_restarts_the_workers_whose_threads_ended() {
    let mut pool = ThreadPool::<u32>::new(4);
    assert_eq!(pool.heal(), Vec::<usize>::new());
    assert_eq!(pool.execute(1), Ok(()));
    assert_eq!(pool.execute(2), Ok(()));
    assert_eq!(pool.step(1), Dispatch::Run(1));
    assert_eq!(pool.step(3), Dispatch::Run(2));
    pool.thread_ended(1);
    pool.thread_ended(3);
    assert_eq!(pool.worker(1).unwrap().thread(), ThreadState::Finished);
    assert_eq!(pool.heal(), vec![1, 3]);
    assert_eq!(pool.capacity(), 4);
    for id in 0..4 {
        assert!(pool.worker(id).unwrap().thread().is_alive());
    }
    assert_eq!(pool.worker(1).unwrap().thread(), ThreadState::Ready);
    assert_eq!(pool.heal(), Vec::<usize>::new());
}

#[test]
fn a_step_of_no_worker_ends_the_caller() {
    let mut pool = ThreadPool::<u32>::new(1);
    assert_eq!(pool.execute(1), Ok(()));
    assert_eq!(pool.step(1), Dispatch::Exit);
    assert_eq!(pool.step(usize::MAX), Dispatch::Exit);
    assert_eq!(pool.queued(), 1);
    pool.job_done(5);
    pool.thread_ended(5);
    assert_eq!(pool.worker(0).unwrap().thread(), ThreadState::Ready);
    assert!(pool.worker(1).is_none());
}

#[test]
fn job_done_and_thread_ended_touch_only_what_they_are_about() {
    let mut pool = ThreadPool::<u32>::new(2);
    pool.job_done(0);
    assert_eq!(pool.worker(0).unwrap().thread(), ThreadState::Ready);
    pool.thread_ended(0);
    assert_eq!(pool.worker(0).unwrap().thread(), ThreadState::Finished);
    pool.thread_ended(0);
    assert_eq!(pool.worker(0).unwrap().thread(), ThreadState::Finished);
    assert_eq!(pool.step(0), Dispatch::Exit);
    assert_eq!(pool.worker(1).unwrap().thread(), ThreadState::Ready);
}

#[test]
fn shut_down_pool_takes_no_job() {
    let mut pool = ThreadPool::<u32>::new(2);
    assert_eq!(pool.execute(1), Ok(()));
    pool.shutdown();
    assert!(pool.is_closed());
    assert!(pool.worker(0).unwrap().is_killed());
    assert!(pool.worker(1).unwrap().is_killed());
    assert_eq!(pool.execute(2), Err(SubmitError(2)));
    assert_eq!(pool.queued(), 1);
    assert_eq!(pool.heal(), Vec::<usize>::new());
}

#[test]
fn pool_without_workers_takes_no_job() {
    let mut pool = ThreadPool::<u32>::new(0);
    assert_eq!(pool.capacity(), 0);
    assert_eq!(pool.execute(9), Err(SubmitError(9)));
    assert_eq!(pool.queued(), 0);
    assert_eq!(pool.heal(), Vec::<usize>::new());
}

#[test]
fn shutdown_is_seen_before_waiting_and_not_while_waiting() {
    let mut pool = ThreadPool::<u32>::new(3);
    assert_eq!(pool.step(0), Dispatch::Wait);
    assert_eq!(pool.execute(1), Ok(()));
    assert_eq!(pool.execute(2), Ok(()));
    assert_eq!(pool.step(1), Dispatch::Run(1));
    pool.shutdown();
    assert_eq!(pool.step(2), Dispatch::Exit);
    assert_eq!(pool.worker(2).unwrap().thread(), ThreadState::Finished);
    assert_eq!(pool.queued(), 1);
    assert_eq!(pool.step(0), Dispatch::Run(2));
    pool.job_done(0);
    assert_eq!(pool.step(0), Dispatch::Exit);
    pool.job_done(1);
    assert_eq!(pool.step(1), Dispatch::Exit);
    for id in 0..3 {
        assert_eq!(pool.worker(id).unwrap().thread(), ThreadState::Finished);
    }
    assert_eq!(pool.heal(), Vec::<usize>::new());
}

#[test]
fn waiting_worker_ends_when_a_shut_down_pool_is_empty() {
    let mut pool = ThreadPool::<u32>::new(1);
    assert_eq!(pool.step(0), Dispatch::Wait);
    pool.shutdown();
    assert_eq!(pool.step(0), Dispatch::Exit);
    assert_eq!(pool.worker(0).unwrap().thread(), ThreadState::Finished);
}

#[test]
fn pool_carries_jobs_that_are_no_numbers() {
    let mut pool = ThreadPool::<String>::new(1);
    assert_eq!(pool.execute("first".to_string()), Ok(()));
    assert_eq!(pool.step(0), Dispatch::Run("first".to_string()));
}

use std::cell::RefCell;
use std::rc::Rc;
use std::sync::atomic::{AtomicUsize, Ordering};
use std::sync::Arc;

use rust_web_server::pool::{PoolCreationError, ThreadPool};

type Job = Box<dyn FnOnce()>;

/// Lets the workers take turns claiming until the queue is empty, running
/// each job as it is claimed. Returns which worker ran each job.
fn run_round_robin(pool: &mut ThreadPool<Job>) -> Vec<usize> {
    let mut runners = Vec::new();
    let mut worker = 0;
    while let Some(job) = pool.claim(worker) {
        job();
        runners.push(worker);
        worker = (worker + 1) % pool.size();
    }
    runners
}

#[test]
fn build_rejects_zero_workers() {
    let r = ThreadPool::<u32>::build(0);
    assert_eq!(r.err(), Some(PoolCreationError::ZeroSize));
}

#[test]
fn build_accepts_one_worker() {
    let pool = ThreadPool::<u32>::build(1).unwrap();
    assert_eq!(pool.size(), 1);
    assert_eq!(pool.queued(), 0);
}

#[test]
fn new_has_exactly_the_requested_workers() {
    let pool = ThreadPool::<u32>::new(4);
    assert_eq!(pool.size(), 4);
    for i in 0..4 {
        assert_eq!(pool.worker(i).id, i);
    }
}

#[test]
fn claim_on_empty_queue_is_none() {
    let mut pool = ThreadPool::<u32>::new(2);
    assert_eq!(pool.claim(0), None);
    assert_eq!(pool.claim(1), None);
}

#[test]
fn hundred_jobs_each_run_once() {
    let counter = Arc::new(AtomicUsize::new(0));
    let mut pool: ThreadPool<Job> = ThreadPool::new(4);
    for _ in 0..100 {
        let c = Arc::clone(&counter);
        pool.execute(Box::new(move || {
            c.fetch_add(1, Ordering::SeqCst);
        }));
    }
    assert_eq!(pool.queued(), 100);
    let runners = run_round_robin(&mut pool);
    assert_eq!(runners.len(), 100);
    assert_eq!(counter.load(Ordering::SeqCst), 100);
    assert_eq!(pool.queued(), 0);
    assert!(pool.claim(3).is_none());
}

#[test]
fn single_worker_runs_jobs_in_submit_order() {
    let order = Rc::new(RefCell::new(Vec::new()));
    let mut pool: ThreadPool<Job> = ThreadPool::new(1);
    for i in 0..10 {
        let o = Rc::clone(&order);
        pool.execute(Box::new(move || o.borrow_mut().push(i)));
    }
    run_round_robin(&mut pool);
    assert_eq!(*order.borrow(), (0..10).collect::<Vec<i32>>());
}

#[test]
fn claims_from_many_workers_follow_submit_order() {
    let mut pool = ThreadPool::<u32>::new(3);
    pool.execute(10);
    pool.execute(20);
    assert_eq!(pool.claim(2), Some(10));
    pool.execute(30);
    assert_eq!(pool.claim(0), Some(20));
    assert_eq!(pool.claim(2), Some(30));
    assert_eq!(pool.claim(1), None);
}

#[test]
fn busy_worker_does_not_hold_back_the_next_job() {
    // Worker 0 claims the slow job and has not finished it; worker 1 can
    // still claim the fast job behind it.
    let mut pool = ThreadPool::<&str>::new(2);
    pool.execute("slow");
    pool.execute("fast");
    let slow = pool.claim(0);
    let fast = pool.claim(1);
    assert_eq!(slow, Some("slow"));
    assert_eq!(fast, Some("fast"));
    assert_eq!(pool.queued(), 0);
}

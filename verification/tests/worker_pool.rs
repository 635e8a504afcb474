use turbopack_support::worker_pool::creation::{PendingCreations, WorkerScheduler};
use turbopack_support::worker_pool::web::WebWorkerPool;
use turbopack_support::worker_pool::operation::{WorkerOptions, WorkerPoolOperation};
use turbopack_support::worker_pool::state::{Acquired, PoolState};
use turbopack_support::worker_pool::thread_pool::{TaskIds, pool_concurrency};

fn options(name: &str) -> WorkerOptions {
    WorkerOptions { filename: name.to_string(), cwd: "/project".to_string() }
}

#[test]
fn pool_creates_until_full_then_waits() {
    let mut pool = PoolState::new();
    assert_eq!(pool.acquire(2, 100), Acquired::Create);
    assert_eq!(pool.acquire(2, 101), Acquired::Create);
    assert_eq!(pool.stats().workers, 2);
    assert_eq!(pool.stats().booting_workers, 2);
    pool.finish_booting();
    pool.finish_booting();
    assert_eq!(pool.acquire(2, 102), Acquired::Wait);
    assert_eq!(pool.waiters(), &vec![102]);
    // the waiting task gets the next released worker
    assert_eq!(pool.release(7), Some(102));
    assert!(pool.idle_workers().is_empty());
    // with nobody waiting, a released worker becomes idle and is handed out next
    assert_eq!(pool.release(8), None);
    assert_eq!(pool.acquire(2, 103), Acquired::Idle(8));
}

#[test]
fn pool_scale_down_keeps_first_idle_worker() {
    let mut pool = PoolState::new();
    for ticket in 0..3 {
        assert_eq!(pool.acquire(3, ticket), Acquired::Create);
        pool.finish_booting();
    }
    assert_eq!(pool.release(10), None);
    assert_eq!(pool.release(11), None);
    assert_eq!(pool.release(12), None);
    assert_eq!(pool.scale_down(), vec![11, 12]);
    assert_eq!(pool.idle_workers(), &vec![10]);
    assert_eq!(pool.stats().workers, 1);
    assert_eq!(pool.scale_zero(), vec![10]);
    assert_eq!(pool.stats().workers, 0);
    assert_eq!(pool.acquire(1, 5), Acquired::Create);
}

#[test]
fn pool_retire_drops_worker_count() {
    let mut pool = PoolState::new();
    assert_eq!(pool.acquire(1, 0), Acquired::Create);
    pool.finish_booting();
    pool.retire();
    assert_eq!(pool.stats().workers, 0);
    assert_eq!(pool.acquire(1, 1), Acquired::Create);
}

#[test]
fn operation_routes_messages_and_scales_pools() {
    let mut op = WorkerPoolOperation::new();
    let a = op.get_pool_state(&options("a.js"));
    let b = op.get_pool_state(&options("b.js"));
    assert_ne!(a, b);
    assert_eq!(op.get_pool_state(&options("a.js")), a);
    for ticket in 0..2 {
        assert_eq!(op.acquire_worker(a, 2, ticket), Acquired::Create);
        op.finish_booting(a);
    }
    assert_eq!(op.release_worker(a, 1), None);
    assert_eq!(op.release_worker(a, 2), None);

    op.send_message_to_worker(2, 9, "hello".to_string());
    op.send_message_to_worker(2, 9, "again".to_string());
    let m = op.recv_task_message_in_worker(2).unwrap();
    assert_eq!((m.task_id, m.message.as_str()), (9, "hello"));

    op.send_task_message(9, "reply".to_string());
    assert_eq!(op.recv_task_message(9), Some("reply".to_string()));
    assert_eq!(op.recv_task_message(9), None);
    op.remove_task_channel(9);

    let terminated = op.scale_down();
    assert_eq!(terminated.len(), 1);
    assert_eq!(terminated[0].0.filename, "a.js");
    assert_eq!(terminated[0].1, 2);
    assert_eq!(op.pool(a).idle_workers(), &vec![1]);
    // the queue of the terminated worker is gone with its messages
    assert_eq!(op.recv_message_in_worker(2), None);

    let terminated = op.scale_zero();
    assert_eq!(terminated.len(), 1);
    assert_eq!(terminated[0].1, 1);
    assert!(op.pool(a).idle_workers().is_empty());
}

#[test]
fn pending_creations_answer_in_order() {
    let mut pending = PendingCreations::new();
    pending.request(1);
    pending.request(2);
    pending.request(3);
    assert_eq!(pending.creator_failed(), Some(3));
    assert_eq!(pending.worker_created(40), Some(1));
    assert_eq!(pending.worker_created(41), Some(2));
    assert_eq!(pending.worker_created(42), None);
}

#[test]
fn task_ids_count_from_one() {
    let mut ids = TaskIds::new();
    assert!(!ids.exhausted());
    assert_eq!(ids.next_task_id(), 1);
    assert_eq!(ids.next_task_id(), 2);
    assert_eq!(pool_concurrency(8, true), 1);
    assert_eq!(pool_concurrency(8, false), 8);
}

#[test]
fn scheduler_registers_once() {
    let mut scheduler = WorkerScheduler::new();
    let mut pending = PendingCreations::new();
    assert_eq!(pending.create_worker(7, &scheduler).unwrap_err(), "Worker creator not registered");
    assert!(scheduler.register_worker_scheduler().is_ok());
    assert!(scheduler.creator_registered && scheduler.terminator_registered);
    assert_eq!(scheduler.register_worker_scheduler().unwrap_err(), "Worker creator already registered");
    let mut half = WorkerScheduler { creator_registered: false, terminator_registered: true };
    assert_eq!(half.register_worker_scheduler().unwrap_err(), "Worker terminator already registered");
    assert!(half.creator_registered);
    assert!(pending.create_worker(8, &scheduler).is_ok());
    assert_eq!(pending.worker_created(1), Some(7));
    assert_eq!(pending.worker_created(2), Some(8));
    assert_eq!(pending.worker_created(3), None);
}

#[test]
fn web_worker_pool_keeps_its_settings() {
    let pool = WebWorkerPool::new("/worker.js".to_string(), 4);
    assert_eq!(pool.script_url(), "/worker.js");
    assert_eq!(pool.worker_limit(), 4);
}

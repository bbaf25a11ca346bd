use leptos_workers::errors::CreateWorkerError;
use leptos_workers::pool::PoolExecutor;

fn pool_of(n: u32) -> PoolExecutor<u32> {
    PoolExecutor::new((0..n).collect())
}

#[test]
fn new_pool_has_free_workers_numbered_in_order() {
    let pool = pool_of(3);
    assert_eq!(pool.len(), 3);
    for i in 0..3 {
        let s = pool.state(i);
        assert!(s.available);
        assert_eq!(s.id, i);
        assert_eq!(s.generation, 0);
        assert_eq!(*pool.handle(i), i as u32);
    }
}

#[test]
fn acquire_hands_out_first_free_worker() {
    let mut pool = pool_of(3);
    assert_eq!(pool.acquire(), Some(0));
    assert_eq!(pool.acquire(), Some(1));
    pool.release(0);
    assert_eq!(pool.acquire(), Some(0));
    assert_eq!(pool.acquire(), Some(2));
    assert!(!pool.state(2).available);
}

#[test]
fn acquire_on_busy_pool_returns_none_and_pool_grows() {
    let mut pool = pool_of(1);
    assert_eq!(pool.acquire(), Some(0));
    assert_eq!(pool.acquire(), None);
    let id = pool.add_worker(7);
    assert_eq!(id, 1);
    assert_eq!(pool.len(), 2);
    let s = pool.state(1);
    // the new worker was created for the waiting request and is busy with it
    assert!(!s.available);
    assert_eq!(s.id, 1);
    assert_eq!(s.generation, 0);
    assert_eq!(*pool.handle(1), 7);
    // so the next request finds no free worker either
    assert_eq!(pool.acquire(), None);
    pool.release(1);
    assert_eq!(pool.acquire(), Some(1));
}

#[test]
fn empty_pool_needs_a_new_worker() {
    let mut pool = pool_of(0);
    assert_eq!(pool.acquire(), None);
    assert_eq!(pool.add_worker(5), 0);
}

#[test]
fn running_task_can_be_aborted_and_worker_is_replaced() {
    let mut pool = pool_of(2);
    let id = pool.acquire().unwrap();
    let handle = pool.begin_task(id);
    assert_eq!(handle.worker(), 0);
    assert_eq!(handle.generation(), 1);
    assert!(handle.abort_applies(&pool));
    handle.abort(&mut pool, Ok(40));
    let s = pool.state(0);
    assert!(s.available);
    assert_eq!(s.generation, 1);
    assert_eq!(s.id, 0);
    assert_eq!(*pool.handle(0), 40);
    assert!(!handle.abort_applies(&pool));
}

#[test]
fn handle_from_before_replacement_does_not_abort_next_task() {
    let mut pool = pool_of(1);
    let id = pool.acquire().unwrap();
    let first = pool.begin_task(id);
    first.abort(&mut pool, Ok(9));
    let id = pool.acquire().unwrap();
    assert_eq!(id, 0);
    let second = pool.begin_task(id);
    assert_eq!(second.generation(), 2);
    assert!(!first.abort_applies(&pool));
    assert!(second.abort_applies(&pool));
    second.abort(&mut pool, Ok(10));
    assert_eq!(pool.state(0).generation, 2);
    assert_eq!(*pool.handle(0), 10);
}

#[test]
fn failed_replacement_leaves_pool_unchanged() {
    let mut pool = pool_of(1);
    let id = pool.acquire().unwrap();
    let handle = pool.begin_task(id);
    handle.abort(&mut pool, Err(CreateWorkerError::NewWorker(wasm_bindgen::JsValue::NULL)));
    let s = pool.state(0);
    assert!(!s.available);
    assert_eq!(s.generation, 1);
    assert_eq!(*pool.handle(0), 0);
}

#[test]
fn finished_task_cannot_be_aborted() {
    let mut pool = pool_of(1);
    let id = pool.acquire().unwrap();
    let handle = pool.begin_task(id);
    pool.release(id);
    assert!(!handle.abort_applies(&pool));
}

#[test]
fn superseded_task_cannot_be_aborted() {
    let mut pool = pool_of(1);
    let id = pool.acquire().unwrap();
    let first = pool.begin_task(id);
    pool.release(id);
    let id = pool.acquire().unwrap();
    let second = pool.begin_task(id);
    assert_eq!(second.generation(), 2);
    assert!(!first.abort_applies(&pool));
    assert!(second.abort_applies(&pool));
}

#[test]
fn task_on_newly_added_worker_is_abortable() {
    let mut pool = pool_of(0);
    let id = pool.add_worker(3);
    let handle = pool.begin_task(id);
    assert_eq!(handle.generation(), 1);
    assert!(handle.abort_applies(&pool));
    handle.abort(&mut pool, Ok(4));
    assert!(pool.state(0).available);
    assert_eq!(*pool.handle(0), 4);
}

#[test]
fn failed_replacement_of_newly_added_worker_keeps_it_busy() {
    let mut pool = pool_of(0);
    let id = pool.add_worker(3);
    let handle = pool.begin_task(id);
    handle.abort(&mut pool, Err(CreateWorkerError::NewWorker(wasm_bindgen::JsValue::NULL)));
    assert!(!pool.state(0).available);
    assert!(handle.abort_applies(&pool));
}

#[test]
fn requests_beyond_pool_size_each_get_their_own_worker() {
    let mut pool = pool_of(1);
    let mut ids = Vec::new();
    for k in 0..4u32 {
        let id = match pool.acquire() {
            Some(id) => id,
            None => pool.add_worker(100 + k),
        };
        pool.begin_task(id);
        ids.push(id);
    }
    assert_eq!(ids, vec![0, 1, 2, 3]);
    assert_eq!(pool.len(), 4);
}

#[test]
fn take_then_release_restores_pool() {
    let mut pool = pool_of(2);
    let id = pool.acquire().unwrap();
    pool.release(id);
    for i in 0..2 {
        assert!(pool.state(i).available);
        assert_eq!(pool.state(i).generation, 0);
    }
}

use workpool::pool::{ThreadPool, WorkerState};
use workpool::queue::{Dequeue, Wake};

#[test]
fn new_pool_has_polling_workers() {
    let pool: ThreadPool<u32> = ThreadPool::new(4);
    assert_eq!(pool.size(), 4);
    assert_eq!(pool.pending(), 0);
    assert!(!pool.is_shutdown());
    for id in 0..4usize {
        assert_eq!(pool.worker_state(id), WorkerState::Running);
    }
    assert!(!pool.all_terminated());
}

#[test]
fn pool_of_one_worker() {
    let mut pool: ThreadPool<u32> = ThreadPool::new(1);
    assert_eq!(pool.execute(11), Wake::One);
    assert_eq!(pool.execute(22), Wake::One);
    assert_eq!(pool.claim(0), Dequeue::Item(11));
    pool.finish(0);
    assert_eq!(pool.claim(0), Dequeue::Item(22));
    pool.finish(0);
    assert_eq!(pool.claim(0), Dequeue::Wait);
    assert_eq!(pool.shutdown(), Wake::All);
    assert_eq!(pool.claim(0), Dequeue::Shutdown);
    assert!(pool.all_terminated());
}

#[test]
fn worker_moves_through_its_states() {
    let mut pool: ThreadPool<&str> = ThreadPool::new(2);
    assert_eq!(pool.claim(1), Dequeue::Wait);
    assert_eq!(pool.worker_state(1), WorkerState::Running);
    assert_eq!(pool.execute("task"), Wake::One);
    assert_eq!(pool.pending(), 1);
    assert_eq!(pool.claim(1), Dequeue::Item("task"));
    assert_eq!(pool.worker_state(1), WorkerState::Executing);
    assert_eq!(pool.worker_state(0), WorkerState::Running);
    assert_eq!(pool.pending(), 0);
    pool.finish(1);
    assert_eq!(pool.worker_state(1), WorkerState::Running);
    assert_eq!(pool.shutdown(), Wake::All);
    assert!(pool.is_shutdown());
    assert_eq!(pool.claim(1), Dequeue::Shutdown);
    assert_eq!(pool.worker_state(1), WorkerState::Terminated);
    assert_eq!(pool.worker_state(0), WorkerState::Running);
    assert!(!pool.all_terminated());
    assert_eq!(pool.claim(0), Dequeue::Shutdown);
    assert!(pool.all_terminated());
}

#[test]
fn pool_teardown() {
    let mut pool: ThreadPool<usize> = ThreadPool::new(3);
    for task in 0..10usize {
        assert_eq!(pool.execute(task), Wake::One);
    }
    assert_eq!(pool.shutdown(), Wake::All);
    let mut counter: usize = 0;
    let mut runs: Vec<usize> = vec![0; 10];
    let mut turn: usize = 0;
    while !pool.all_terminated() {
        let id = turn % 3;
        turn += 1;
        match pool.worker_state(id) {
            WorkerState::Running => match pool.claim(id) {
                Dequeue::Item(task) => {
                    counter += 1;
                    runs[task] += 1;
                },
                Dequeue::Wait => panic!("a pool in teardown never asks to wait"),
                Dequeue::Shutdown => {},
            },
            WorkerState::Executing => pool.finish(id),
            WorkerState::Terminated => {},
        }
        assert!(turn < 1000);
    }
    assert_eq!(counter, 10);
    assert!(runs.iter().all(|&count| count == 1));
    assert_eq!(pool.pending(), 0);
    for id in 0..3usize {
        assert_eq!(pool.worker_state(id), WorkerState::Terminated);
    }
}

#[test]
fn tasks_are_claimed_in_submission_order_by_any_worker() {
    let mut pool: ThreadPool<usize> = ThreadPool::new(5);
    for task in 0..5usize {
        assert_eq!(pool.execute(task), Wake::One);
    }
    let order: [usize; 5] = [3, 0, 4, 1, 2];
    for (task, id) in order.iter().enumerate() {
        assert_eq!(pool.claim(*id), Dequeue::Item(task));
        assert_eq!(pool.worker_state(*id), WorkerState::Executing);
    }
    assert_eq!(pool.pending(), 0);
    for id in 0..5usize {
        pool.finish(id);
        assert_eq!(pool.worker_state(id), WorkerState::Running);
    }
}

#[test]
fn teardown_drains_pending_tasks_first() {
    let mut pool: ThreadPool<u8> = ThreadPool::new(2);
    assert_eq!(pool.execute(1), Wake::One);
    assert_eq!(pool.execute(2), Wake::One);
    assert_eq!(pool.shutdown(), Wake::All);
    assert_eq!(pool.shutdown(), Wake::All);
    assert_eq!(pool.pending(), 2);
    assert_eq!(pool.claim(0), Dequeue::Item(1));
    assert_eq!(pool.claim(1), Dequeue::Item(2));
    pool.finish(0);
    pool.finish(1);
    assert_eq!(pool.claim(0), Dequeue::Shutdown);
    assert_eq!(pool.claim(1), Dequeue::Shutdown);
    assert!(pool.all_terminated());
}

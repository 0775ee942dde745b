use workpool::queue::{Dequeue, SharedQueue, Wake};

#[test]
fn new_queue_is_empty_and_open() {
    let queue: SharedQueue<i32> = SharedQueue::new();
    assert_eq!(queue.size(), 0);
    assert!(!queue.is_shutdown());
}

#[test]
fn graceful_drain() {
    let mut queue: SharedQueue<char> = SharedQueue::new();
    assert_eq!(queue.enqueue('A'), Wake::One);
    assert_eq!(queue.enqueue('B'), Wake::One);
    assert_eq!(queue.enqueue('C'), Wake::One);
    assert_eq!(queue.send_shutdown(), Wake::All);
    assert_eq!(queue.dequeue(), Dequeue::Item('A'));
    assert_eq!(queue.dequeue(), Dequeue::Item('B'));
    assert_eq!(queue.dequeue(), Dequeue::Item('C'));
    assert_eq!(queue.dequeue(), Dequeue::Shutdown);
}

#[test]
fn consumer_waits_on_empty_open_queue() {
    let mut queue: SharedQueue<u8> = SharedQueue::new();
    assert_eq!(queue.dequeue(), Dequeue::Wait);
    assert_eq!(queue.dequeue(), Dequeue::Wait);
    assert_eq!(queue.size(), 0);
    assert!(!queue.is_shutdown());
}

#[test]
fn waiting_consumer_is_served_after_enqueue() {
    let mut queue: SharedQueue<u8> = SharedQueue::new();
    assert_eq!(queue.dequeue(), Dequeue::Wait);
    assert_eq!(queue.enqueue(7), Wake::One);
    assert_eq!(queue.dequeue(), Dequeue::Item(7));
    assert_eq!(queue.dequeue(), Dequeue::Wait);
}

#[test]
fn waiting_consumer_is_released_by_shutdown() {
    let mut queue: SharedQueue<u8> = SharedQueue::new();
    assert_eq!(queue.dequeue(), Dequeue::Wait);
    assert_eq!(queue.send_shutdown(), Wake::All);
    assert_eq!(queue.dequeue(), Dequeue::Shutdown);
    assert_eq!(queue.dequeue(), Dequeue::Shutdown);
}

#[test]
fn size_counts_pending_items() {
    let mut queue: SharedQueue<u32> = SharedQueue::new();
    for n in 0..5u32 {
        assert_eq!(queue.enqueue(n), Wake::One);
        assert_eq!(queue.size(), n as usize + 1);
    }
    assert_eq!(queue.dequeue(), Dequeue::Item(0));
    assert_eq!(queue.size(), 4);
}

#[test]
fn items_leave_in_arrival_order() {
    let mut queue: SharedQueue<usize> = SharedQueue::new();
    for n in 0..1000usize {
        assert_eq!(queue.enqueue(n), Wake::One);
    }
    for n in 0..1000usize {
        assert_eq!(queue.dequeue(), Dequeue::Item(n));
    }
    assert_eq!(queue.dequeue(), Dequeue::Wait);
}

#[test]
fn interleaved_producers_keep_their_order() {
    let mut queue: SharedQueue<(u8, u32)> = SharedQueue::new();
    let mut taken: Vec<(u8, u32)> = Vec::new();
    for round in 0..50u32 {
        assert_eq!(queue.enqueue((0, round)), Wake::One);
        assert_eq!(queue.enqueue((1, round)), Wake::One);
        if round % 3 == 0 {
            if let Dequeue::Item(item) = queue.dequeue() {
                taken.push(item);
            }
        }
    }
    assert_eq!(queue.send_shutdown(), Wake::All);
    loop {
        match queue.dequeue() {
            Dequeue::Item(item) => taken.push(item),
            Dequeue::Wait => panic!("a queue that was shut down never asks to wait"),
            Dequeue::Shutdown => break,
        }
    }
    assert_eq!(taken.len(), 100);
    for producer in 0..2u8 {
        let own: Vec<u32> = taken.iter().filter(|item| item.0 == producer).map(|item| item.1).collect();
        let expected: Vec<u32> = (0..50u32).collect();
        assert_eq!(own, expected);
    }
}

#[test]
fn shutdown_keeps_pending_items() {
    let mut queue: SharedQueue<&str> = SharedQueue::new();
    assert_eq!(queue.enqueue("left over"), Wake::One);
    assert_eq!(queue.send_shutdown(), Wake::All);
    assert!(queue.is_shutdown());
    assert_eq!(queue.size(), 1);
    assert_eq!(queue.dequeue(), Dequeue::Item("left over"));
    assert_eq!(queue.size(), 0);
    assert_eq!(queue.dequeue(), Dequeue::Shutdown);
}

#[test]
fn second_shutdown_changes_nothing() {
    let mut once: SharedQueue<i64> = SharedQueue::new();
    let mut twice: SharedQueue<i64> = SharedQueue::new();
    for n in [3i64, -1, 4] {
        assert_eq!(once.enqueue(n), Wake::One);
        assert_eq!(twice.enqueue(n), Wake::One);
    }
    assert_eq!(once.send_shutdown(), Wake::All);
    assert_eq!(twice.send_shutdown(), Wake::All);
    assert_eq!(twice.send_shutdown(), Wake::All);
    assert!(once.is_shutdown());
    assert!(twice.is_shutdown());
    assert_eq!(once.size(), twice.size());
    for _ in 0..4 {
        assert_eq!(once.dequeue(), twice.dequeue());
    }
    assert_eq!(twice.dequeue(), Dequeue::Shutdown);
}

#[test]
fn every_item_is_handed_out_once() {
    let mut queue: SharedQueue<usize> = SharedQueue::new();
    let mut seen: Vec<usize> = vec![0; 64];
    for n in 0..64usize {
        assert_eq!(queue.enqueue(n), Wake::One);
    }
    assert_eq!(queue.send_shutdown(), Wake::All);
    while let Dequeue::Item(n) = queue.dequeue() {
        seen[n] += 1;
    }
    assert!(seen.iter().all(|&count| count == 1));
    assert_eq!(queue.size(), 0);
}

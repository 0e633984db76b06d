use a19_concurrent::mpsc_queue::{MpscQueue, MpscQueueWrap};
use a19_concurrent::queue::ConcurrentQueue;
use a19_concurrent::sync::Starved;
use std::cell::RefCell;

#[test]
fn mpsc_queue_create_queue_test() {
    let mut queue: MpscQueue<u64> = MpscQueue::new(128);
    assert_eq!(128, queue.capacity());

    queue.offer(1);
    let result = queue.poll();
    assert_eq!(Some(1), result);
}

#[test]
fn mpsc_offer_fails_when_full() {
    let mut queue: MpscQueue<usize> = MpscQueue::new(4);
    for i in 0..4 {
        assert!(queue.offer(i));
    }
    assert!(!queue.offer(4));
    assert_eq!(Some(0), queue.poll());
    assert!(queue.offer(5));
    assert!(!queue.offer(6));
    for expected in [1, 2, 3, 5] {
        assert_eq!(Some(expected), queue.poll());
    }
    assert_eq!(None, queue.poll());
}

#[test]
fn mpsc_drain_takes_the_oldest_first() {
    let mut queue: MpscQueue<usize> = MpscQueue::new(8);
    for i in 0..6 {
        assert!(queue.offer(i));
    }
    let seen = RefCell::new(Vec::new());
    assert_eq!(4, queue.drain(|v| seen.borrow_mut().push(v), 4));
    assert_eq!(vec![0, 1, 2, 3], *seen.borrow());
    assert_eq!(2, queue.drain(|v| seen.borrow_mut().push(v), 4));
    assert_eq!(vec![0, 1, 2, 3, 4, 5], *seen.borrow());
    assert_eq!(0, queue.drain(|v| seen.borrow_mut().push(v), 4));
    assert_eq!(0, queue.drain(|v| seen.borrow_mut().push(v), 0));
}

#[test]
fn mpsc_ring_wraps_around() {
    let mut queue: MpscQueue<usize> = MpscQueue::new(4);
    for round in 0..50 {
        for i in 0..3 {
            assert!(queue.offer(round * 3 + i));
        }
        for i in 0..3 {
            assert_eq!(Some(round * 3 + i), queue.poll());
        }
    }
    assert_eq!(None, queue.poll());
}

#[test]
fn mpsc_handles_share_one_queue() {
    let (send, receive) = MpscQueueWrap::<u64>::new(3);
    assert_eq!(4, send.capacity());
    assert_eq!(4, receive.capacity());
    for i in 0..4 {
        assert_eq!(Ok(true), send.offer(i));
    }
    assert_eq!(Ok(false), send.offer(4));
    assert_eq!(Ok(Some(0)), receive.poll());
    let seen = RefCell::new(Vec::new());
    assert_eq!(Ok(3), receive.drain(|v| seen.borrow_mut().push(v), 10));
    assert_eq!(vec![1, 2, 3], *seen.borrow());
    assert_eq!(Ok(None), receive.poll());
}

#[test]
fn mpsc_drain_may_use_the_queue() {
    let (send, receive) = MpscQueueWrap::<u64>::new(4);
    for i in 0..4 {
        assert_eq!(Ok(true), send.offer(i));
    }
    let seen = RefCell::new(Vec::new());
    let drained = receive.drain(
        |v| {
            seen.borrow_mut().push(v);
            assert_eq!(Ok(true), send.offer(v + 10));
        },
        2,
    );
    assert_eq!(Ok(2), drained);
    assert_eq!(vec![0, 1], *seen.borrow());
    for expected in [2, 3, 10, 11] {
        assert_eq!(Ok(Some(expected)), receive.poll());
    }
    assert_eq!(Ok(None), receive.poll());
}

#[test]
fn mpsc_guarded_take_returns_the_oldest() {
    let mut queue: MpscQueue<usize> = MpscQueue::new(4);
    for i in 0..4 {
        assert!(queue.offer(i));
    }
    assert_eq!(vec![0, 1, 2], queue.guarded_take(3).into_iter().collect::<Vec<_>>());
    assert!(queue.offer(4));
    assert_eq!(vec![3, 4], queue.guarded_take(3).into_iter().collect::<Vec<_>>());
}

#[test]
fn mpsc_handle_without_a_try_is_starved() {
    let (mut send, mut receive) = MpscQueueWrap::<u64>::new(4);
    assert_eq!(Ok(true), send.offer(1));
    send.set_spin_limit(0);
    receive.set_spin_limit(0);
    assert_eq!(Err(Starved), send.offer(2));
    assert_eq!(Err(Starved), receive.poll());
    assert_eq!(Err(Starved), receive.drain(|_| unreachable!(), 3));
    send.set_spin_limit(1);
    receive.set_spin_limit(1);
    assert_eq!(Ok(true), send.offer(3));
    assert_eq!(Ok(Some(1)), receive.poll());
    assert_eq!(Ok(Some(3)), receive.poll());
    assert_eq!(Ok(None), receive.poll());
}

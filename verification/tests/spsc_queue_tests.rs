use a19_concurrent::queue::ConcurrentQueue;
use a19_concurrent::sync::Starved;
use a19_concurrent::spsc_queue::{SpscQueue, SpscQueueSendWrap};

#[test]
fn spsc_queue_create_queue_test() {
    let mut queue: SpscQueue<u64> = SpscQueue::new(128);
    assert_eq!(128, queue.capacity());

    queue.offer(1);
    let result = queue.poll();
    assert_eq!(Some(1), result);
}

#[test]
fn spsc_rounds_capacity_up() {
    let mut queue: SpscQueue<u64> = SpscQueue::new(100);
    assert_eq!(128, queue.capacity());
    assert!(queue.offer(1));
    assert_eq!(Some(1), queue.poll());
    assert_eq!(None, queue.poll());
}

#[test]
fn spsc_offer_fails_when_full() {
    let mut queue: SpscQueue<usize> = SpscQueue::new(128);
    for i in 0..128 {
        assert!(queue.offer(i), "offer {} should succeed", i);
    }
    for i in 128..200 {
        assert!(!queue.offer(i), "offer {} should fail", i);
    }
    for i in 0..128 {
        assert_eq!(Some(i), queue.poll());
    }
    assert_eq!(None, queue.poll());
}

#[test]
fn spsc_handles_share_one_queue() {
    let (send, receive) = SpscQueueSendWrap::<u64>::new(100);
    assert_eq!(128, send.capacity());
    assert_eq!(128, receive.capacity());
    assert_eq!(Ok(true), send.offer(1));
    assert_eq!(Ok(Some(1)), receive.peek());
    assert_eq!(Ok(Some(1)), receive.peek());
    assert_eq!(Ok(Some(1)), receive.poll());
    assert_eq!(Ok(None), receive.poll());
}

#[test]
fn spsc_two_hundred_offers_into_128_slots() {
    let mut queue: SpscQueue<usize> = SpscQueue::new(128);
    let mut accepted = 0;
    for i in 0..200 {
        let ok = queue.offer(i * 3 + 1);
        assert_eq!(i < 128, ok);
        if ok {
            accepted += 1;
        }
    }
    assert_eq!(128, accepted);
}

#[test]
fn spsc_peek_leaves_the_item() {
    let mut queue: SpscQueue<String> = SpscQueue::new(2);
    assert_eq!(None, queue.peek());
    assert!(queue.offer("a".to_owned()));
    assert!(queue.offer("b".to_owned()));
    assert_eq!(Some(&"a".to_owned()), queue.peek());
    assert_eq!(Some(&"a".to_owned()), queue.peek());
    assert_eq!(Some("a".to_owned()), queue.poll());
    assert_eq!(Some(&"b".to_owned()), queue.peek());
    assert_eq!(Some("b".to_owned()), queue.poll());
    assert_eq!(None, queue.peek());
}

#[test]
fn spsc_drain_stops_at_the_limit() {
    let mut queue: SpscQueue<usize> = SpscQueue::new(8);
    for i in 0..8 {
        assert!(queue.offer(i));
    }
    let seen = std::cell::RefCell::new(Vec::new());
    assert_eq!(3, queue.drain(|v| seen.borrow_mut().push(v), 3));
    assert_eq!(vec![0, 1, 2], *seen.borrow());
    assert_eq!(0, queue.drain(|v| seen.borrow_mut().push(v), 0));
    assert_eq!(5, queue.drain(|v| seen.borrow_mut().push(v), 100));
    assert_eq!(vec![0, 1, 2, 3, 4, 5, 6, 7], *seen.borrow());
    assert_eq!(0, queue.drain(|v| seen.borrow_mut().push(v), 100));
    assert!(queue.offer(9));
    assert_eq!(Some(9), queue.poll());
}

#[test]
fn spsc_capacity_of_small_sizes() {
    assert_eq!(1, SpscQueue::<u8>::new(0).capacity());
    assert_eq!(1, SpscQueue::<u8>::new(1).capacity());
    assert_eq!(2, SpscQueue::<u8>::new(2).capacity());
    assert_eq!(4, SpscQueue::<u8>::new(3).capacity());
    let mut one: SpscQueue<u8> = SpscQueue::new(1);
    assert!(one.offer(5));
    assert!(!one.offer(6));
    assert_eq!(Some(5), one.poll());
    assert!(one.offer(7));
    assert_eq!(Some(7), one.poll());
}

#[test]
fn spsc_drain_may_use_the_queue() {
    let (send, receive) = SpscQueueSendWrap::<u64>::new(8);
    for i in 0..4 {
        assert_eq!(Ok(true), send.offer(i));
    }
    let drained = receive.drain(
        |v| {
            assert_eq!(Ok(true), send.offer(v + 100));
        },
        3,
    );
    assert_eq!(Ok(3), drained);
    for expected in [3, 100, 101, 102] {
        assert_eq!(Ok(Some(expected)), receive.poll());
    }
    assert_eq!(Ok(None), receive.peek());
    assert_eq!(Ok(0), receive.drain(|_| {}, 3));
}

#[test]
fn spsc_guarded_take_returns_the_oldest() {
    let mut queue: SpscQueue<usize> = SpscQueue::new(8);
    for i in 0..5 {
        assert!(queue.offer(i));
    }
    assert_eq!(vec![0, 1], queue.guarded_take(2).into_iter().collect::<Vec<_>>());
    assert_eq!(Vec::<usize>::new(), queue.guarded_take(0).into_iter().collect::<Vec<_>>());
    assert_eq!(vec![2, 3, 4], queue.guarded_take(9).into_iter().collect::<Vec<_>>());
    assert_eq!(Vec::<usize>::new(), queue.guarded_take(9).into_iter().collect::<Vec<_>>());
    assert!(queue.offer(7));
    assert_eq!(Some(7), queue.poll());
}

#[test]
fn spsc_handle_without_a_try_is_starved() {
    let (mut send, mut receive) = SpscQueueSendWrap::<u64>::new(4);
    assert_eq!(Ok(true), send.offer(1));
    send.set_spin_limit(0);
    receive.set_spin_limit(0);
    assert_eq!(Err(Starved), send.offer(2));
    assert_eq!(Err(Starved), receive.peek());
    assert_eq!(Err(Starved), receive.poll());
    assert_eq!(Err(Starved), receive.drain(|_| unreachable!(), 3));
    receive.set_spin_limit(1);
    assert_eq!(Ok(Some(1)), receive.peek());
    assert_eq!(Ok(Some(1)), receive.poll());
    assert_eq!(Ok(None), receive.poll());
}

#[derive(Clone, Debug, PartialEq)]
struct Tagged(u64);

impl Drop for Tagged {
    fn drop(&mut self) {}
}

#[test]
fn spsc_refused_value_is_dropped_and_the_queue_goes_on() {
    let (send, receive) = SpscQueueSendWrap::<Tagged>::new(1);
    assert_eq!(Ok(true), send.offer(Tagged(1)));
    assert_eq!(Ok(false), send.offer(Tagged(2)));
    assert_eq!(Ok(Some(Tagged(1))), receive.poll());
    assert_eq!(Ok(true), send.offer(Tagged(3)));
    assert_eq!(Ok(Some(Tagged(3))), receive.peek());
}

#[test]
fn spsc_offer_at_a_full_queue_is_refused() {
    let mut queue: SpscQueue<u8> = SpscQueue::new(2);
    assert!(queue.offer(1));
    assert!(queue.offer(2));
    assert!(!queue.offer(3));
    assert_eq!((false, Some(4)), queue.guarded_offer(4));
    assert_eq!(Some(1), queue.poll());
    assert_eq!((true, None), queue.guarded_offer(5));
}

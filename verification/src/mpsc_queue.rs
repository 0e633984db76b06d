//! A bounded ring queue for many producers and one consumer.
//!
//! Producers claim a sequence number by a compare-and-exchange on the
//! producers' cursor; whoever wins the exchange owns the slot of that number.
//!
//! [`MpscQueue`] is the queue in the hands of a single owner, and its
//! operations have exact contracts. [`MpscQueueWrap`] and
//! [`MpscQueueReceive`] share one queue between producers and a consumer.
//! What the others do between two calls is beyond a contract, so the handles
//! go through the `guarded_` operations, which assume nothing of the queue
//! that they find behind the lock.

use crate::pow2::{is_rounded_power_of_two, max_power_of_two};
use crate::queue::{handed_over, ConcurrentQueue};
use crate::ring::RingSlot;
use crate::ring_queue::{shared_drain, shared_offer, shared_poll, RingQueue, Slot};
use crate::sync::{share, Starved, DEFAULT_SPIN_LIMIT};
use std::sync::{Arc, Mutex};
use vstd::prelude::*;

verus! {

/// One slot of the ring: the stamp of the item it holds, or zero, and the
/// item itself. Producers claim a slot by a compare-and-exchange on the
/// cursor that they share.
pub struct MpscNode<T> {
    id: usize,
    value: Option<T>,
}

impl<T> View for MpscNode<T> {
    type V = RingSlot<T>;

    closed spec fn view(&self) -> RingSlot<T> {
        RingSlot { id: self.id as nat, value: self.value }
    }
}

impl<T> Slot for MpscNode<T> {
    type Item = T;

    open spec fn slot(&self) -> RingSlot<T> {
        self@
    }

    open spec fn exchanges() -> bool {
        true
    }

    fn arbitrated() -> (by_exchange: bool) {
        true
    }

    fn vacant() -> (node: Self) {
        MpscNode { id: 0, value: None }
    }

    fn stamp(&self) -> (id: usize) {
        self.id
    }

    fn payload(&self) -> (value: Option<&T>) {
        match &self.value {
            Some(value) => Some(value),
            None => None,
        }
    }

    fn fill(&mut self, seq: usize, value: T) -> (displaced: Option<T>) {
        let mut payload = Some(value);
        core::mem::swap(&mut self.value, &mut payload);
        self.id = seq;
        payload
    }

    fn clear(&mut self) -> (payload: Option<T>) {
        let payload = self.value.take();
        self.id = 0;
        payload
    }
}

/// The queue for many producers and one consumer.
pub type MpscQueue<T> = RingQueue<MpscNode<T>>;

/// A producer's handle to a queue that it shares with other producers and
/// one consumer.
#[verifier::reject_recursive_types(T)]
pub struct MpscQueueWrap<T> {
    queue: Arc<Mutex<MpscQueue<T>>>,
    capacity: usize,
    spin_limit: usize,
    origin: Ghost<MpscQueue<T>>,
}

/// The consumer's handle to a queue that it shares with its producers.
#[verifier::reject_recursive_types(T)]
pub struct MpscQueueReceive<T> {
    queue: Arc<Mutex<MpscQueue<T>>>,
    capacity: usize,
    spin_limit: usize,
    origin: Ghost<MpscQueue<T>>,
}

impl<T> MpscQueueWrap<T> {
    /// The number of items that the shared queue can hold.
    pub closed spec fn slots(&self) -> nat {
        self.capacity as nat
    }

    /// How often the handle asks for the queue's lock before it gives up.
    pub closed spec fn spin_limit(&self) -> usize {
        self.spin_limit
    }

    /// The queue as it was when the handle was made.
    pub closed spec fn origin(&self) -> MpscQueue<T> {
        self.origin@
    }

    /// This handle and `receiver` reach one and the same queue.
    pub closed spec fn shares_with(&self, receiver: &MpscQueueReceive<T>) -> bool {
        self.queue == receiver.queue
    }

    /// An empty queue whose capacity is `queue_size` rounded up to the next
    /// power of two, as the pair of a producer's and the consumer's handle.
    /// The two handles reach one and the same queue, which starts as
    /// [`MpscQueue::new`] builds it.
    pub fn new(queue_size: usize) -> (handles: (MpscQueueWrap<T>, MpscQueueReceive<T>))
        requires
            queue_size <= max_power_of_two(),
        ensures
            is_rounded_power_of_two(queue_size as nat, handles.0.slots()),
            handles.1.slots() == handles.0.slots(),
            handles.0.spin_limit() == DEFAULT_SPIN_LIMIT,
            handles.1.spin_limit() == DEFAULT_SPIN_LIMIT,
            handles.0.shares_with(&handles.1),
            handles.0.origin() == handles.1.origin(),
            handles.1.origin().wf(),
            handles.1.origin().slots() == handles.1.slots(),
            handles.1.origin().items() == Seq::<T>::empty(),
            handles.1.origin().next_sequence() == 1,
            handles.1.origin().consumer_sequence() == 1,
    {
        let built = MpscQueue::new(queue_size);
        let capacity = built.capacity();
        let origin = Ghost(built);
        let queue = Arc::new(Mutex::new(built));
        let send_queue = share(&queue);
        (
            MpscQueueWrap { queue: send_queue, capacity, spin_limit: DEFAULT_SPIN_LIMIT, origin },
            MpscQueueReceive { queue, capacity, spin_limit: DEFAULT_SPIN_LIMIT, origin },
        )
    }

    /// The number of items that the shared queue can hold.
    pub fn capacity(&self) -> (capacity: usize)
        ensures
            capacity == self.slots(),
    {
        self.capacity
    }

    /// Sets how often the handle asks for the queue's lock before it gives
    /// up. The handle stays a handle of the same queue.
    pub fn set_spin_limit(&mut self, limit: usize)
        ensures
            final(self).spin_limit() == limit,
            final(self).slots() == old(self).slots(),
            final(self).origin() == old(self).origin(),
            forall|receiver: MpscQueueReceive<T>| #[trigger]
                final(self).shares_with(&receiver) == old(self).shares_with(&receiver),
    {
        self.spin_limit = limit;
    }

    /// Offers `v` to the shared queue: `Ok` with the queue's answer, or
    /// `Err` when the queue's lock stayed taken for every try that the
    /// handle has. A value that is not accepted is dropped, after the lock
    /// is free again. Whether the lock is free and whether the queue has
    /// room depend on the consumer and the other producers, so nothing is said of the answer but
    /// that a handle with no try gets none.
    pub fn offer(&self, v: T) -> (outcome: Result<bool, Starved>)
        ensures
            self.spin_limit() == 0 ==> outcome is Err,
    {
        let (outcome, _) = shared_offer(&self.queue, self.spin_limit, v);
        outcome
    }
}

impl<T> MpscQueueReceive<T> {
    /// The number of items that the shared queue can hold.
    pub closed spec fn slots(&self) -> nat {
        self.capacity as nat
    }

    /// How often the handle asks for the queue's lock before it gives up.
    pub closed spec fn spin_limit(&self) -> usize {
        self.spin_limit
    }

    /// The queue as it was when the handle was made.
    pub closed spec fn origin(&self) -> MpscQueue<T> {
        self.origin@
    }

    /// The number of items that the shared queue can hold.
    pub fn capacity(&self) -> (capacity: usize)
        ensures
            capacity == self.slots(),
    {
        self.capacity
    }

    /// Sets how often the handle asks for the queue's lock before it gives
    /// up. The handle stays a handle of the same queue.
    pub fn set_spin_limit(&mut self, limit: usize)
        ensures
            final(self).spin_limit() == limit,
            final(self).slots() == old(self).slots(),
            final(self).origin() == old(self).origin(),
            forall|sender: MpscQueueWrap<T>| #[trigger]
                sender.shares_with(final(self)) == sender.shares_with(old(self)),
    {
        self.spin_limit = limit;
    }

    /// Takes the oldest item from the shared queue: `Ok` with the item, or
    /// with `None` when the queue is empty, or `Err` when the queue's lock
    /// stayed taken for every try that the handle has. Whether the lock is
    /// free and what the queue holds depend on the producers, so nothing is
    /// said of the answer but that a handle with no try gets none.
    pub fn poll(&self) -> (outcome: Result<Option<T>, Starved>)
        ensures
            self.spin_limit() == 0 ==> outcome is Err,
    {
        shared_poll(&self.queue, self.spin_limit)
    }

    /// Takes up to `limit` of the oldest items from the shared queue and
    /// hands each to `act`, oldest first: `Ok` with their number, or `Err`,
    /// with `act` not called, when the queue's lock stayed taken for every
    /// try that the handle has. The items are taken out under the lock and
    /// `act` runs after the lock is free again. How many items there are
    /// depends on the producers, so nothing is said of the count but that it
    /// keeps to the limit and that `act` has run on as many items.
    pub fn drain<F: Fn(T)>(&self, act: F, limit: usize) -> (outcome: Result<usize, Starved>)
        requires
            forall|v: T| call_requires(act, (v,)),
        ensures
            self.spin_limit() == 0 ==> outcome is Err,
            match outcome {
                Ok(count) => count <= limit && handed_over(act, count as nat),
                Err(_) => true,
            },
    {
        shared_drain(&self.queue, self.spin_limit, act, limit)
    }
}

} // verus!

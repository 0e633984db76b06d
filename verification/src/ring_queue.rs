//! The ring queue that the single-producer and the multi-producer queue are
//! made of.
//!
//! A queue is a ring of slots with the cursor of the consumer and the cursor
//! of the producers. What tells the two queues apart is their slot type: it
//! says whether a producer claims its sequence number by a plain store, as
//! the only producer may, or by a compare-and-exchange, as producers that
//! share the cursor must.

use crate::pow2::{is_rounded_power_of_two, lemma_mask_is_mod, max_power_of_two, round_to_power_of_two};
use crate::queue::{drained, hand_over, handed_over, ConcurrentQueue, PaddedUsize};
use crate::ring::{
    free_slot, full_slot, lemma_ring_consume, lemma_ring_empty, lemma_ring_head,
    lemma_ring_next_is_free, lemma_ring_publish, lemma_ring_slots_are_items, ring_holds, ring_items,
    slot_holds, slot_of, RingSlot,
};
use crate::sync::{acquire, exclusive, Starved};
use std::collections::VecDeque;
use std::sync::Mutex;
use vstd::arithmetic::power2::is_pow2;
use vstd::prelude::*;

verus! {

/// One slot of a ring: the stamp of the item that it holds, or zero, and the
/// item itself.
pub trait Slot: Sized {
    /// What the slot's items are.
    type Item;

    /// What the slot holds, as the model sees it.
    spec fn slot(&self) -> RingSlot<Self::Item>;

    /// Whether producers claim a sequence number by a compare-and-exchange.
    spec fn exchanges() -> bool;

    /// Whether producers claim a sequence number by a compare-and-exchange.
    fn arbitrated() -> (by_exchange: bool)
        ensures
            by_exchange == Self::exchanges(),
    ;

    /// An empty slot.
    fn vacant() -> (node: Self)
        ensures
            node.slot() == free_slot::<Self::Item>(),
    ;

    /// The slot's stamp.
    fn stamp(&self) -> (id: usize)
        ensures
            id == self.slot().id,
    ;

    /// The slot's payload, left in place.
    fn payload(&self) -> (value: Option<&Self::Item>)
        ensures
            match value {
                Some(v) => self.slot().value == Some(*v),
                None => self.slot().value is None,
            },
    ;

    /// Puts `value` into the slot under the stamp `seq` and returns what the
    /// slot held before.
    fn fill(&mut self, seq: usize, value: Self::Item) -> (displaced: Option<Self::Item>)
        ensures
            final(self).slot() == full_slot(seq as nat, value),
            displaced == old(self).slot().value,
    ;

    /// Empties the slot and returns what it held.
    fn clear(&mut self) -> (payload: Option<Self::Item>)
        ensures
            final(self).slot() == free_slot::<Self::Item>(),
            payload == old(self).slot().value,
    ;
}

/// The queue itself: a ring of slots, the cursor of the consumer and the
/// cursor of the producers.
pub struct RingQueue<N: Slot> {
    mask: usize,
    ring_buffer: Vec<N>,
    capacity: usize,
    sequence_number: PaddedUsize,
    producer: PaddedUsize,
}

impl<N: Slot> RingQueue<N> {
    /// The slots of the ring, as the model sees them.
    pub closed spec fn ring(&self) -> Seq<RingSlot<N::Item>> {
        Seq::new(self.ring_buffer@.len(), |j: int| self.ring_buffer@[j].slot())
    }

    /// The sequence number of the oldest item, or of the next item to come
    /// when the queue is empty.
    pub closed spec fn consumer_sequence(&self) -> nat {
        self.sequence_number@ as nat
    }

    /// Some slot holds `value`, whether or not the queue is well-formed.
    pub closed spec fn holds(&self, value: N::Item) -> bool {
        exists|j: int| slot_holds(self.ring(), j, value)
    }

    /// An empty queue whose capacity is `queue_size` rounded up to the next
    /// power of two.
    pub fn new(queue_size: usize) -> (queue: Self)
        requires
            queue_size <= max_power_of_two(),
        ensures
            queue.wf(),
            queue.items() == Seq::<N::Item>::empty(),
            is_rounded_power_of_two(queue_size as nat, queue.slots()),
            queue.next_sequence() == 1,
            queue.consumer_sequence() == 1,
    {
        let power_of_2 = round_to_power_of_two(queue_size);
        proof {
            lemma_mask_is_mod(0, power_of_2);
        }
        let mut queue: RingQueue<N> = RingQueue {
            ring_buffer: Vec::with_capacity(power_of_2),
            capacity: power_of_2,
            mask: power_of_2 - 1,
            sequence_number: PaddedUsize::new(1),
            producer: PaddedUsize::new(1),
        };
        let mut filled: usize = 0;
        while filled < power_of_2
            invariant
                filled <= power_of_2,
                queue.ring_buffer@.len() == filled,
                queue.capacity == power_of_2,
                queue.mask == power_of_2 - 1,
                queue.sequence_number@ == 1,
                queue.producer@ == 1,
                forall|j: int| 0 <= j < filled ==> (#[trigger] queue.ring_buffer@[j]).slot() == free_slot::<N::Item>(),
            decreases power_of_2 - filled,
        {
            queue.ring_buffer.push(N::vacant());
            filled = filled + 1;
        }
        proof {
            lemma_ring_empty(queue.ring());
        }
        queue
    }

    /// The capacity is a power of two, the cursors start at one and the
    /// consumer's never passes the producer's, and the queue holds the items
    /// whose sequence numbers lie between the two.
    pub proof fn lemma_cursors(&self)
        requires
            self.wf(),
        ensures
            is_pow2(self.slots() as int),
            1 <= self.consumer_sequence() <= self.next_sequence(),
            self.items().len() == self.next_sequence() - self.consumer_sequence(),
    {
    }

    /// The item at place `i` of a well-formed queue sits in the slot of its
    /// sequence number, which is the consumer's cursor plus `i`, under that
    /// number as its stamp.
    pub proof fn lemma_item_slot(&self, i: int)
        requires
            self.wf(),
            0 <= i < self.items().len(),
        ensures
            0 <= slot_of((self.consumer_sequence() + i) as nat, self.slots()) < self.ring().len(),
            self.ring()[slot_of((self.consumer_sequence() + i) as nat, self.slots())] == full_slot(
                (self.consumer_sequence() + i) as nat,
                self.items()[i],
            ),
    {
        let seq = (self.sequence_number@ + i) as nat;
        lemma_mask_is_mod(0, self.capacity);
        vstd::arithmetic::div_mod::lemma_mod_bound(seq as int, self.capacity as int);
        assert(self.ring()[slot_of(seq, self.ring().len())].id == seq);
    }

    /// What a well-formed queue holds in its slots are its items.
    pub proof fn lemma_holds_items(&self, value: N::Item)
        requires
            self.wf(),
        ensures
            self.holds(value) <==> self.items().contains(value),
    {
        let lo = self.sequence_number@ as nat;
        let hi = self.producer@ as nat;
        lemma_ring_slots_are_items(self.ring(), lo, hi, value);
    }

    /// The number of items that the queue can hold.
    pub fn capacity(&self) -> (capacity: usize)
        requires
            self.wf(),
        ensures
            capacity == self.slots(),
    {
        self.capacity
    }

    /// The slot in which the item with sequence number `index` lives.
    pub fn pos(&self, index: usize) -> (slot: usize)
        ensures
            self.wf() ==> slot == slot_of(index as nat, self.slots()) && slot < self.slots(),
    {
        proof {
            if self.wf() {
                lemma_mask_is_mod(index, self.capacity);
            }
        }
        index & self.mask
    }

    /// The oldest item, left in place, or `None` when the queue is empty.
    pub fn peek(&self) -> (item: Option<&N::Item>)
        requires
            self.wf(),
        ensures
            match item {
                Some(v) => self.items().len() > 0 && *v == self.items()[0],
                None => self.items().len() == 0,
            },
    {
        self.guarded_peek()
    }

    /// [`RingQueue::peek`] for a queue of which nothing is known. On one
    /// that is not well-formed nothing is promised but that the call
    /// returns.
    pub fn guarded_peek(&self) -> (item: Option<&N::Item>)
        ensures
            self.wf() ==> match item {
                Some(v) => self.items().len() > 0 && *v == self.items()[0],
                None => self.items().len() == 0,
            },
    {
        let s_index = self.sequence_number.load();
        let p_index = self.producer.load();
        if p_index > s_index {
            let last_pos = self.pos(s_index);
            proof {
                if self.wf() {
                    lemma_ring_head(self.ring(), s_index as nat, p_index as nat);
                }
            }
            if last_pos < self.ring_buffer.len() {
                let node = &self.ring_buffer[last_pos];
                if node.stamp() == s_index {
                    node.payload()
                } else {
                    // A well-formed ring has the oldest item's slot stamped.
                    None
                }
            } else {
                None
            }
        } else {
            None
        }
    }

    /// [`ConcurrentQueue::poll`] for a queue of which nothing is known. On
    /// one that is not well-formed nothing is promised but that the call
    /// returns.
    pub fn guarded_poll(&mut self) -> (item: Option<N::Item>)
        ensures
            old(self).wf() ==> {
                &&& final(self).wf()
                &&& final(self).slots() == old(self).slots()
                &&& final(self).next_sequence() == old(self).next_sequence()
                &&& match item {
                    Some(v) => old(self).items().len() > 0 && v == old(self).items()[0]
                        && final(self).items() == old(self).items().skip(1),
                    None => old(self).items().len() == 0 && final(self).items() == old(
                        self,
                    ).items(),
                }
            },
    {
        let s_index = self.sequence_number.load();
        let p_index = self.producer.load();
        if p_index > s_index {
            let last_pos = self.pos(s_index);
            let ghost before = self.ring();
            proof {
                if old(self).wf() {
                    lemma_ring_head(before, s_index as nat, p_index as nat);
                    lemma_ring_consume(before, s_index as nat, p_index as nat);
                }
            }
            if last_pos < self.ring_buffer.len() && self.ring_buffer[last_pos].stamp() == s_index {
                self.sequence_number.store(s_index + 1);
                let node = &mut self.ring_buffer[last_pos];
                let v = node.clear();
                assert(self.ring() =~= before.update(last_pos as int, free_slot::<N::Item>()));
                v
            } else {
                // A well-formed ring has the oldest item's slot stamped.
                None
            }
        } else {
            assert(old(self).wf() ==> self.items() =~= Seq::<N::Item>::empty());
            None
        }
    }

    /// The capacity is a power of two, the mask is one less, and the ring has
    /// a slot for each unit of the capacity.
    spec fn shaped(&self) -> bool {
        &&& is_pow2(self.capacity as int)
        &&& self.mask == self.capacity - 1
        &&& self.ring_buffer@.len() == self.capacity
    }

    /// Takes the payload out of the slot that carries the stamp `seq` and
    /// frees the slot. Returns `None` when the slot of `seq` does not carry
    /// that stamp or holds no payload, which a ring that holds the item
    /// `seq` never does. The cursors are left alone.
    fn take_slot(&mut self, seq: usize) -> (payload: Option<N::Item>)
        ensures
            final(self).capacity == old(self).capacity,
            final(self).mask == old(self).mask,
            final(self).producer@ == old(self).producer@,
            final(self).sequence_number@ == old(self).sequence_number@,
            final(self).ring_buffer@.len() == old(self).ring_buffer@.len(),
            forall|j: int, v: N::Item| #[trigger]
                slot_holds(final(self).ring(), j, v) ==> slot_holds(old(self).ring(), j, v),
            match payload {
                Some(v) => old(self).holds(v),
                None => true,
            },
            old(self).shaped() && seq < old(self).producer@ && ring_holds(
                old(self).ring(),
                seq as nat,
                old(self).producer@ as nat,
            ) ==> {
                &&& payload == Some(
                    ring_items(old(self).ring(), seq as nat, old(self).producer@ as nat)[0],
                )
                &&& ring_holds(final(self).ring(), (seq + 1) as nat, old(self).producer@ as nat)
                &&& ring_items(final(self).ring(), (seq + 1) as nat, old(self).producer@ as nat)
                    == ring_items(old(self).ring(), seq as nat, old(self).producer@ as nat).skip(1)
            },
    {
        let ghost before = self.ring();
        let ghost hi = self.producer@ as nat;
        proof {
            if self.shaped() && seq < self.producer@ && ring_holds(before, seq as nat, hi) {
                lemma_mask_is_mod(seq, self.capacity);
                lemma_ring_head(before, seq as nat, hi);
                lemma_ring_consume(before, seq as nat, hi);
            }
        }
        let pos = seq & self.mask;
        if pos >= self.ring_buffer.len() {
            return None;
        }
        if self.ring_buffer[pos].stamp() != seq {
            // A ring that holds the item has its slot stamped.
            return None;
        }
        let node = &mut self.ring_buffer[pos];
        let payload = node.clear();
        assert(self.ring() =~= before.update(pos as int, free_slot::<N::Item>()));
        assert(payload is Some ==> slot_holds(before, pos as int, payload->0));
        payload
    }

    /// [`ConcurrentQueue::drain`] for a queue of which nothing is known but
    /// that `act` takes whatever it holds: takes the items out and then
    /// hands them to `act`. On a queue that is not well-formed nothing is
    /// promised but that the call returns and keeps to the limit.
    pub fn guarded_drain<F: Fn(N::Item)>(&mut self, act: F, limit: usize) -> (count: usize)
        requires
            forall|v: N::Item| #[trigger] old(self).holds(v) ==> call_requires(act, (v,)),
        ensures
            count <= limit,
            old(self).wf() ==> {
                &&& final(self).wf()
                &&& final(self).slots() == old(self).slots()
                &&& final(self).next_sequence() == old(self).next_sequence()
                &&& count == drained(limit as nat, old(self).items().len())
                &&& final(self).items() == old(self).items().skip(count as int)
                &&& forall|i: int|
                    0 <= i < count ==> call_ensures(act, (#[trigger] old(self).items()[i],), ())
            },
    {
        let batch = self.guarded_take(limit);
        let count = batch.len();
        let ghost taken = batch@;
        hand_over(batch, &act);
        proof {
            if old(self).wf() {
                assert forall|i: int| 0 <= i < count implies call_ensures(
                    act,
                    (#[trigger] old(self).items()[i],),
                    (),
                ) by {
                    assert(taken[i] == old(self).items()[i]);
                }
            }
        }
        count
    }

    /// Takes up to `limit` of the oldest items out of the queue and returns
    /// them, oldest first: what [`ConcurrentQueue::drain`] hands to its
    /// callback, for a queue of which nothing is known. On one that is not
    /// well-formed nothing is promised but that the call returns and keeps
    /// to the limit.
    pub fn guarded_take(&mut self, limit: usize) -> (batch: VecDeque<N::Item>)
        ensures
            batch@.len() <= limit,
            forall|i: int| 0 <= i < batch@.len() ==> old(self).holds(#[trigger] batch@[i]),
            old(self).wf() ==> {
                &&& final(self).wf()
                &&& final(self).slots() == old(self).slots()
                &&& final(self).next_sequence() == old(self).next_sequence()
                &&& batch@.len() == drained(limit as nat, old(self).items().len())
                &&& batch@ == old(self).items().take(batch@.len() as int)
                &&& final(self).items() == old(self).items().skip(batch@.len() as int)
            },
    {
        let p_index = self.producer.load();
        let s_index = self.sequence_number.load();
        let ghost good = old(self).wf();
        let ghost all = self.items();
        let mut batch: VecDeque<N::Item> = VecDeque::new();
        if p_index <= s_index {
            assert(all.skip(0) =~= all);
            assert(batch@ =~= all.take(0));
            batch
        } else {
            let elements_left = p_index - s_index;
            let request = if limit < elements_left {
                limit
            } else {
                elements_left
            };
            self.sequence_number.store(s_index + request);
            assert(all.skip(0) =~= all);
            assert(batch@ =~= all.take(0));
            let mut i: usize = 0;
            while i < request
                invariant
                    i <= request <= p_index - s_index,
                    request <= limit,
                    good == old(self).wf(),
                    batch@.len() == i,
                    forall|k: int| 0 <= k < batch@.len() ==> old(self).holds(#[trigger] batch@[k]),
                    forall|j: int, v: N::Item| #[trigger]
                        slot_holds(self.ring(), j, v) ==> slot_holds(old(self).ring(), j, v),
                    good ==> {
                        &&& self.shaped()
                        &&& self.capacity == old(self).capacity
                        &&& self.producer@ == p_index
                        &&& self.sequence_number@ == s_index + request
                        &&& ring_holds(self.ring(), (s_index + i) as nat, p_index as nat)
                        &&& ring_items(self.ring(), (s_index + i) as nat, p_index as nat)
                            == all.skip(i as int)
                        &&& all.len() == p_index - s_index
                        &&& batch@ == all.take(i as int)
                    },
                decreases request - i,
            {
                let ghost before = self.ring();
                assert(good ==> all.skip(i as int).skip(1) =~= all.skip(i + 1));
                match self.take_slot(s_index + i) {
                    Some(t_value) => {
                        assert(good ==> batch@.push(t_value) =~= all.take(i + 1));
                        proof {
                            let j = choose|j: int| slot_holds(before, j, t_value);
                            assert(slot_holds(old(self).ring(), j, t_value));
                        }
                        batch.push_back(t_value);
                    },
                    None => {
                        // A well-formed ring has every reserved slot stamped
                        // and filled.
                        self.sequence_number.store(s_index + i);
                        return batch;
                    },
                }
                i = i + 1;
            }
            batch
        }
    }

    /// [`ConcurrentQueue::offer`] for a queue of which nothing is known. It
    /// also refuses once the sequence numbers are used up. Beside the answer
    /// it hands back what is left over for the caller to drop: the value
    /// itself when it was refused. On a queue that is not well-formed
    /// nothing more is promised than that the call returns.
    pub fn guarded_offer(&mut self, value: N::Item) -> (outcome: (bool, Option<N::Item>))
        ensures
            !outcome.0 ==> outcome.1 == Some(value),
            old(self).wf() ==> {
                &&& final(self).wf()
                &&& final(self).slots() == old(self).slots()
                &&& outcome.0 <==> old(self).items().len() < old(self).slots() && old(
                    self,
                ).next_sequence() < usize::MAX
                &&& outcome.0 ==> final(self).items() == old(self).items().push(value)
                    && final(self).next_sequence() == old(self).next_sequence() + 1
                    && outcome.1 is None
                &&& !outcome.0 ==> final(self).items() == old(self).items()
                    && final(self).next_sequence() == old(self).next_sequence()
            },
    {
        let capacity = self.capacity;
        let p_index = self.producer.load();
        let c_index = self.sequence_number.load();
        if p_index < usize::MAX && (p_index < capacity || p_index - capacity < c_index) {
            let pos = self.pos(p_index);
            let ghost before = self.ring();
            proof {
                if old(self).wf() {
                    lemma_ring_next_is_free(before, c_index as nat, p_index as nat);
                    lemma_ring_publish(before, c_index as nat, p_index as nat, value);
                }
            }
            if pos < self.ring_buffer.len() && self.ring_buffer[pos].stamp() == 0 {
                let claimed = if N::arbitrated() {
                    match self.producer.compare_exchange(p_index, p_index + 1) {
                        Ok(_) => true,
                        // The cursor still holds what was just read from it.
                        Err(_) => false,
                    }
                } else {
                    self.producer.store(p_index + 1);
                    true
                };
                if claimed {
                    let node = &mut self.ring_buffer[pos];
                    let displaced = node.fill(p_index, value);
                    assert(self.ring() =~= before.update(
                        pos as int,
                        full_slot(p_index as nat, value),
                    ));
                    (true, displaced)
                } else {
                    (false, Some(value))
                }
            } else {
                // A well-formed ring that is not full has this slot free.
                (false, Some(value))
            }
        } else {
            (false, Some(value))
        }
    }
}

impl<N: Slot> ConcurrentQueue<N::Item> for RingQueue<N> {
    closed spec fn wf(&self) -> bool {
        &&& is_pow2(self.capacity as int)
        &&& self.mask == self.capacity - 1
        &&& self.ring_buffer@.len() == self.capacity
        &&& ring_holds(self.ring(), self.sequence_number@ as nat, self.producer@ as nat)
    }

    closed spec fn items(&self) -> Seq<N::Item> {
        ring_items(self.ring(), self.sequence_number@ as nat, self.producer@ as nat)
    }

    closed spec fn slots(&self) -> nat {
        self.capacity as nat
    }

    closed spec fn next_sequence(&self) -> nat {
        self.producer@ as nat
    }

    proof fn lemma_occupancy(&self) {
        lemma_mask_is_mod(0, self.capacity);
    }

    fn poll(&mut self) -> (item: Option<N::Item>) {
        self.guarded_poll()
    }

    fn drain<F: Fn(N::Item)>(&mut self, act: F, limit: usize) -> (count: usize) {
        proof {
            assert forall|v: N::Item| #[trigger] self.holds(v) implies call_requires(act, (v,)) by {
                self.lemma_holds_items(v);
            }
        }
        self.guarded_drain(act, limit)
    }

    fn offer(&mut self, value: N::Item) -> (accepted: bool) {
        let (accepted, _) = self.guarded_offer(value);
        accepted
    }
}

/// Offers `value` to the queue behind `lock`, asking for the lock up to
/// `tries` times, and hands back, beside the answer, what is left for the
/// caller to drop now that the lock is free again.
pub fn shared_offer<N: Slot>(lock: &Mutex<RingQueue<N>>, tries: usize, value: N::Item) -> (outcome: (
    Result<bool, Starved>,
    Option<N::Item>,
))
    ensures
        tries == 0 ==> outcome.0 is Err,
{
    match acquire(lock, tries) {
        Some(mut guard) => {
            let queue = exclusive(&mut guard);
            let (accepted, leftover) = queue.guarded_offer(value);
            (Ok(accepted), leftover)
        },
        None => (Err(Starved), Some(value)),
    }
}

/// Takes the oldest item from the queue behind `lock`, asking for the lock
/// up to `tries` times.
pub fn shared_poll<N: Slot>(lock: &Mutex<RingQueue<N>>, tries: usize) -> (outcome: Result<
    Option<N::Item>,
    Starved,
>)
    ensures
        tries == 0 ==> outcome is Err,
{
    match acquire(lock, tries) {
        Some(mut guard) => {
            let queue = exclusive(&mut guard);
            Ok(queue.guarded_poll())
        },
        None => Err(Starved),
    }
}

/// Takes up to `limit` of the oldest items out of the queue behind `lock`,
/// asking for the lock up to `tries` times, and returns them now that the
/// lock is free again.
pub fn shared_take<N: Slot>(lock: &Mutex<RingQueue<N>>, tries: usize, limit: usize) -> (outcome: Result<
    VecDeque<N::Item>,
    Starved,
>)
    ensures
        tries == 0 ==> outcome is Err,
        match outcome {
            Ok(batch) => batch@.len() <= limit,
            Err(_) => true,
        },
{
    match acquire(lock, tries) {
        Some(mut guard) => {
            let queue = exclusive(&mut guard);
            Ok(queue.guarded_take(limit))
        },
        None => Err(Starved),
    }
}

/// Takes up to `limit` of the oldest items from the queue behind `lock` and,
/// with the lock free again, hands each to `act`, oldest first.
pub fn shared_drain<N: Slot, F: Fn(N::Item)>(
    lock: &Mutex<RingQueue<N>>,
    tries: usize,
    act: F,
    limit: usize,
) -> (outcome: Result<usize, Starved>)
    requires
        forall|v: N::Item| call_requires(act, (v,)),
    ensures
        tries == 0 ==> outcome is Err,
        match outcome {
            Ok(count) => count <= limit && handed_over(act, count as nat),
            Err(_) => true,
        },
{
    match shared_take(lock, tries, limit) {
        Ok(batch) => {
            let count = batch.len();
            let ghost taken = batch@;
            hand_over(batch, &act);
            assert(taken.len() == count && forall|i: int|
                0 <= i < taken.len() ==> call_ensures(act, (#[trigger] taken[i],), ()));
            Ok(count)
        },
        Err(starved) => Err(starved),
    }
}

/// A copy of the oldest item of the queue behind `lock`, made under the
/// lock, which is asked for up to `tries` times.
pub fn shared_peek<N: Slot>(lock: &Mutex<RingQueue<N>>, tries: usize) -> (outcome: Result<
    Option<N::Item>,
    Starved,
>) where N::Item: Clone
    ensures
        tries == 0 ==> outcome is Err,
{
    match acquire(lock, tries) {
        Some(mut guard) => {
            let queue = exclusive(&mut guard);
            match queue.guarded_peek() {
                Some(value) => Ok(Some(value.clone())),
                None => Ok(None),
            }
        },
        None => Err(Starved),
    }
}

} // verus!

//! The mathematical model of a ring of stamped slots.
//!
//! A ring has a power-of-two number of slots. The item with sequence number
//! `s` lives in slot `s % capacity` and that slot carries the stamp `s` while
//! the item is in the ring; a slot that holds no item carries the stamp zero.
//! Sequence numbers start at one, so zero never names an item.

use crate::pow2::lemma_distinct_slots;
use vstd::prelude::*;

verus! {

/// What one slot of a ring holds: a stamp and, while stamped, a payload.
pub ghost struct RingSlot<T> {
    pub id: nat,
    pub value: Option<T>,
}

/// The slot in which the item with sequence number `seq` lives.
pub open spec fn slot_of(seq: nat, capacity: nat) -> int {
    (seq % capacity) as int
}

/// The empty slot.
pub open spec fn free_slot<T>() -> RingSlot<T> {
    RingSlot { id: 0, value: None }
}

/// The slot that holds `value` under the stamp `seq`.
pub open spec fn full_slot<T>(seq: nat, value: T) -> RingSlot<T> {
    RingSlot { id: seq, value: Some(value) }
}

/// The slots hold exactly the items with sequence numbers from `lo` up to,
/// but not including, `hi`: each of those sits in its slot under its stamp,
/// and every other slot is empty.
pub open spec fn ring_holds<T>(slots: Seq<RingSlot<T>>, lo: nat, hi: nat) -> bool {
    &&& 1 <= lo <= hi <= lo + slots.len()
    &&& forall|s: nat|
        lo <= s < hi ==> {
            &&& (#[trigger] slots[slot_of(s, slots.len())]).id == s
            &&& slots[slot_of(s, slots.len())].value is Some
        }
    &&& forall|j: int|
        0 <= j < slots.len() ==> {
            ||| #[trigger] slots[j] == free_slot::<T>()
            ||| {
                &&& lo <= slots[j].id < hi
                &&& slot_of(slots[j].id, slots.len()) == j
                &&& slots[j].value is Some
            }
        }
}

/// Slot `j` holds `value`.
pub open spec fn slot_holds<T>(slots: Seq<RingSlot<T>>, j: int, value: T) -> bool {
    0 <= j < slots.len() && slots[j].value == Some(value)
}

/// The items in the ring, oldest first.
pub open spec fn ring_items<T>(slots: Seq<RingSlot<T>>, lo: nat, hi: nat) -> Seq<T> {
    Seq::new((hi - lo) as nat, |i: int| slots[slot_of((lo + i) as nat, slots.len())].value.unwrap())
}

/// A ring of `capacity` empty slots holds no item.
pub proof fn lemma_ring_empty<T>(slots: Seq<RingSlot<T>>)
    requires
        forall|j: int| 0 <= j < slots.len() ==> slots[j] == free_slot::<T>(),
    ensures
        ring_holds(slots, 1, 1),
        ring_items(slots, 1, 1) == Seq::<T>::empty(),
{
    assert(ring_items(slots, 1, 1) =~= Seq::<T>::empty());
}

/// While the ring is not full, the slot of the next sequence number is empty.
pub proof fn lemma_ring_next_is_free<T>(slots: Seq<RingSlot<T>>, lo: nat, hi: nat)
    requires
        ring_holds(slots, lo, hi),
        hi - lo < slots.len(),
    ensures
        0 <= slot_of(hi, slots.len()) < slots.len(),
        slots[slot_of(hi, slots.len())] == free_slot::<T>(),
{
    let cap = slots.len();
    let j = slot_of(hi, cap);
    if slots[j] != free_slot::<T>() {
        lemma_distinct_slots(slots[j].id, hi, cap);
    }
}

/// Storing an item under the next sequence number appends it to the items.
pub proof fn lemma_ring_publish<T>(slots: Seq<RingSlot<T>>, lo: nat, hi: nat, value: T)
    requires
        ring_holds(slots, lo, hi),
        hi - lo < slots.len(),
    ensures
        ring_holds(slots.update(slot_of(hi, slots.len()), full_slot(hi, value)), lo, hi + 1),
        ring_items(slots.update(slot_of(hi, slots.len()), full_slot(hi, value)), lo, hi + 1)
            == ring_items(slots, lo, hi).push(value),
{
    let cap = slots.len();
    let j = slot_of(hi, cap);
    let after = slots.update(j, full_slot(hi, value));
    assert forall|s: nat| lo <= s < hi implies slot_of(s, cap) != j by {
        lemma_distinct_slots(s, hi, cap);
    }
    assert forall|s: nat| lo <= s < hi + 1 implies (#[trigger] after[slot_of(s, cap)]).id == s
        && after[slot_of(s, cap)].value is Some by {
        if s < hi {
            assert(slots[slot_of(s, cap)].id == s);
        }
    }
    assert forall|k: int| 0 <= k < cap implies {
        ||| #[trigger] after[k] == free_slot::<T>()
        ||| {
            &&& lo <= after[k].id < hi + 1
            &&& slot_of(after[k].id, cap) == k
            &&& after[k].value is Some
        }
    } by {
        if k != j {
            assert(after[k] == slots[k]);
        }
    }
    assert forall|i: int| 0 <= i < hi - lo implies ring_items(after, lo, hi + 1)[i] == ring_items(
        slots,
        lo,
        hi,
    )[i] by {
        assert(slot_of((lo + i) as nat, cap) != j);
    }
    assert(ring_items(after, lo, hi + 1) =~= ring_items(slots, lo, hi).push(value));
}

/// The oldest item sits in the slot of the lowest sequence number, under
/// that number as its stamp.
pub proof fn lemma_ring_head<T>(slots: Seq<RingSlot<T>>, lo: nat, hi: nat)
    requires
        ring_holds(slots, lo, hi),
        lo < hi,
    ensures
        0 <= slot_of(lo, slots.len()) < slots.len(),
        slots[slot_of(lo, slots.len())].id == lo,
        slots[slot_of(lo, slots.len())].value == Some(ring_items(slots, lo, hi)[0]),
{
    assert(slots[slot_of(lo, slots.len())].id == lo);
}

/// The payloads in the slots are the items in the ring.
pub proof fn lemma_ring_slots_are_items<T>(slots: Seq<RingSlot<T>>, lo: nat, hi: nat, value: T)
    requires
        ring_holds(slots, lo, hi),
    ensures
        (exists|j: int| slot_holds(slots, j, value)) <==> ring_items(slots, lo, hi).contains(value),
{
    let cap = slots.len();
    let items = ring_items(slots, lo, hi);
    if exists|j: int| slot_holds(slots, j, value) {
        let j = choose|j: int| slot_holds(slots, j, value);
        let s = slots[j].id;
        assert(items[s - lo] == value);
    }
    if items.contains(value) {
        let i = choose|i: int| 0 <= i < items.len() && items[i] == value;
        let s = (lo + i) as nat;
        assert(slots[slot_of(s, cap)].id == s);
        if cap > 0 {
            assert(0 <= slot_of(s, cap) < cap) by (nonlinear_arith)
                requires
                    cap > 0,
                    slot_of(s, cap) == (s % cap) as int,
            ;
        }
        assert(slot_holds(slots, slot_of(s, cap), value));
    }
}

/// Emptying the slot of the lowest sequence number removes the oldest item.
pub proof fn lemma_ring_consume<T>(slots: Seq<RingSlot<T>>, lo: nat, hi: nat)
    requires
        ring_holds(slots, lo, hi),
        lo < hi,
    ensures
        ring_holds(slots.update(slot_of(lo, slots.len()), free_slot::<T>()), lo + 1, hi),
        ring_items(slots.update(slot_of(lo, slots.len()), free_slot::<T>()), lo + 1, hi)
            == ring_items(slots, lo, hi).skip(1),
{
    let cap = slots.len();
    let j = slot_of(lo, cap);
    let after = slots.update(j, free_slot::<T>());
    assert(slots[j].id == lo);
    assert forall|s: nat| lo < s < hi implies slot_of(s, cap) != j by {
        lemma_distinct_slots(lo, s, cap);
    }
    assert forall|s: nat| lo + 1 <= s < hi implies (#[trigger] after[slot_of(s, cap)]).id == s
        && after[slot_of(s, cap)].value is Some by {
        assert(slots[slot_of(s, cap)].id == s);
    }
    assert forall|k: int| 0 <= k < cap implies {
        ||| #[trigger] after[k] == free_slot::<T>()
        ||| {
            &&& lo + 1 <= after[k].id < hi
            &&& slot_of(after[k].id, cap) == k
            &&& after[k].value is Some
        }
    } by {
        if k != j {
            assert(after[k] == slots[k]);
        }
    }
    assert forall|i: int| 0 <= i < hi - lo - 1 implies ring_items(after, lo + 1, hi)[i]
        == ring_items(slots, lo, hi).skip(1)[i] by {
        assert(slot_of((lo + 1 + i) as nat, cap) != j);
    }
    assert(ring_items(after, lo + 1, hi) =~= ring_items(slots, lo, hi).skip(1));
}

} // verus!

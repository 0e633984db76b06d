//! What the ring queues share: the padded cursor and the queue interface.

use std::collections::VecDeque;
use vstd::prelude::*;

verus! {

/// A counter that fills a cache line of its own, so that the producer's and
/// the consumer's cursors never share one.
pub struct PaddedUsize {
    padding: [usize; 15],
    counter: usize,
}

impl View for PaddedUsize {
    type V = usize;

    closed spec fn view(&self) -> usize {
        self.counter
    }
}

/// What a compare-and-exchange that expects `current` reports on a counter
/// that holds `held`: the value found, as `Ok` when it is the expected one.
pub open spec fn exchange_result(held: usize, current: usize) -> Result<usize, usize> {
    if held == current {
        Ok(current)
    } else {
        Err(held)
    }
}

impl PaddedUsize {
    /// A counter that starts at `value`.
    pub fn new(value: usize) -> (counter: Self)
        ensures
            counter@ == value,
    {
        PaddedUsize { padding: [0; 15], counter: value }
    }

    /// The counter's value.
    pub fn load(&self) -> (value: usize)
        ensures
            value == self@,
    {
        self.counter
    }

    /// Sets the counter to `value`.
    pub fn store(&mut self, value: usize)
        ensures
            final(self)@ == value,
    {
        self.counter = value;
    }

    /// Sets the counter to `new` if it holds `current`. Returns the value
    /// found, as `Ok` when the counter was set and as `Err` when it was not.
    pub fn compare_exchange(&mut self, current: usize, new: usize) -> (found: Result<usize, usize>)
        ensures
            found == exchange_result(old(self)@, current),
            final(self)@ == if old(self)@ == current {
                new
            } else {
                old(self)@
            },
    {
        if self.counter == current {
            self.counter = new;
            Ok(current)
        } else {
            Err(self.counter)
        }
    }
}

/// Of two exchanges that expect the same value and ask for another, the
/// first succeeds and the second, which finds the counter changed, fails: a
/// sequence number is claimed by one producer only.
pub proof fn lemma_one_claim_per_sequence(current: usize, new: usize)
    requires
        new != current,
    ensures
        exchange_result(current, current) == Ok::<usize, usize>(current),
        exchange_result(new, current) == Err::<usize, usize>(new),
{
}

/// One call on a queue: an offer of a value, a poll, or a drain with its
/// limit.
pub ghost enum QueueOp<T> {
    Offer(T),
    Poll,
    Drain(nat),
}

/// How many items a drain with the limit `limit` takes from `held` items.
pub open spec fn drained(limit: nat, held: nat) -> nat {
    if limit <= held {
        limit
    } else {
        held
    }
}

/// What a run of calls on a queue amounts to: the items left in the queue,
/// the values whose offer was accepted and the items that polls returned,
/// each oldest first.
pub ghost struct QueueRun<T> {
    pub items: Seq<T>,
    pub accepted: Seq<T>,
    pub delivered: Seq<T>,
}

/// The run that `op` makes of `run` on a queue of `slots` slots: an offer is
/// accepted while a slot is free and appends its value; a poll takes the
/// oldest item, if there is one; a drain takes the oldest items up to its
/// limit.
pub open spec fn run_step<T>(run: QueueRun<T>, slots: nat, op: QueueOp<T>) -> QueueRun<T> {
    match op {
        QueueOp::Offer(value) => if run.items.len() < slots {
            QueueRun {
                items: run.items.push(value),
                accepted: run.accepted.push(value),
                delivered: run.delivered,
            }
        } else {
            run
        },
        QueueOp::Poll => if run.items.len() > 0 {
            QueueRun {
                items: run.items.skip(1),
                accepted: run.accepted,
                delivered: run.delivered.push(run.items[0]),
            }
        } else {
            run
        },
        QueueOp::Drain(limit) => QueueRun {
            items: run.items.skip(drained(limit, run.items.len()) as int),
            accepted: run.accepted,
            delivered: run.delivered + run.items.take(drained(limit, run.items.len()) as int),
        },
    }
}

/// The run that the calls `ops`, first to last, make of `run`.
pub open spec fn run_all<T>(run: QueueRun<T>, slots: nat, ops: Seq<QueueOp<T>>) -> QueueRun<T>
    decreases ops.len(),
{
    if ops.len() == 0 {
        run
    } else {
        run_step(run_all(run, slots, ops.drop_last()), slots, ops.last())
    }
}

/// The run in which nothing has happened yet on an empty queue.
pub open spec fn fresh_run<T>() -> QueueRun<T> {
    QueueRun { items: Seq::empty(), accepted: Seq::empty(), delivered: Seq::empty() }
}

/// Whatever calls are made on a queue that starts empty, the items that
/// polls have returned, followed by those still in the queue, are the
/// accepted values in the order of their acceptance: every accepted value
/// is delivered once, none is lost, and none overtakes another. The queue
/// never holds more items than it has slots.
pub proof fn lemma_exactly_once_in_order<T>(slots: nat, ops: Seq<QueueOp<T>>)
    ensures
        run_all(fresh_run::<T>(), slots, ops).delivered + run_all(fresh_run::<T>(), slots, ops).items
            == run_all(fresh_run::<T>(), slots, ops).accepted,
        run_all(fresh_run::<T>(), slots, ops).items.len() <= slots,
    decreases ops.len(),
{
    let start = fresh_run::<T>();
    if ops.len() == 0 {
        assert(start.delivered + start.items =~= start.accepted);
    } else {
        lemma_exactly_once_in_order(slots, ops.drop_last());
        let before = run_all(start, slots, ops.drop_last());
        let after = run_step(before, slots, ops.last());
        assert(after.delivered + after.items =~= after.accepted);
    }
}

/// `act` has run on `count` items, each to its end.
pub open spec fn handed_over<T, F: Fn(T)>(act: F, count: nat) -> bool {
    exists|taken: Seq<T>|
        taken.len() == count && forall|i: int|
            0 <= i < taken.len() ==> call_ensures(act, (#[trigger] taken[i],), ())
}

/// Hands each of `items` to `act`, first to last.
pub fn hand_over<T, F: Fn(T)>(items: VecDeque<T>, act: &F)
    requires
        forall|i: int| 0 <= i < items@.len() ==> call_requires(*act, (#[trigger] items@[i],)),
    ensures
        forall|i: int| 0 <= i < items@.len() ==> call_ensures(*act, (#[trigger] items@[i],), ()),
{
    let ghost all = items@;
    let mut rest = items;
    let mut left: usize = rest.len();
    while left > 0
        invariant
            left == rest@.len(),
            rest@.len() <= all.len(),
            rest@ == all.skip(all.len() - rest@.len()),
            forall|i: int| 0 <= i < all.len() ==> call_requires(*act, (#[trigger] all[i],)),
            forall|i: int|
                0 <= i < all.len() - rest@.len() ==> call_ensures(*act, (#[trigger] all[i],), ()),
        decreases left,
    {
        let ghost k = all.len() - rest@.len();
        match rest.pop_front() {
            Some(item) => {
                assert(item == all[k]);
                assert(rest@ =~= all.skip(k + 1));
                act(item);
            },
            None => {},
        }
        left = left - 1;
    }
}

/// A bounded first-in, first-out queue.
pub trait ConcurrentQueue<T> {
    /// The queue's fields agree with each other.
    spec fn wf(&self) -> bool;

    /// The items in the queue, oldest first.
    spec fn items(&self) -> Seq<T>;

    /// The number of items that the queue can hold.
    spec fn slots(&self) -> nat;

    /// The sequence number that the next accepted item gets.
    spec fn next_sequence(&self) -> nat;

    /// Removes and returns the oldest item, or returns `None` when the queue
    /// is empty.
    fn poll(&mut self) -> (item: Option<T>)
        requires
            old(self).wf(),
        ensures
            final(self).wf(),
            final(self).slots() == old(self).slots(),
            final(self).next_sequence() == old(self).next_sequence(),
            match item {
                Some(v) => old(self).items().len() > 0 && v == old(self).items()[0]
                    && final(self).items() == old(self).items().skip(1),
                None => old(self).items().len() == 0 && final(self).items() == old(self).items(),
            },
            forall|run: QueueRun<T>|
                run.items == old(self).items() ==> (#[trigger] run_step(
                    run,
                    old(self).slots(),
                    QueueOp::Poll,
                )).items == final(self).items(),
    ;

    /// Removes the oldest items, up to `limit` of them, and hands each to
    /// `act`, oldest first. Returns how many were removed.
    fn drain<F: Fn(T)>(&mut self, act: F, limit: usize) -> (count: usize)
        requires
            old(self).wf(),
            forall|i: int|
                0 <= i < old(self).items().len() ==> call_requires(
                    act,
                    (#[trigger] old(self).items()[i],),
                ),
        ensures
            final(self).wf(),
            final(self).slots() == old(self).slots(),
            final(self).next_sequence() == old(self).next_sequence(),
            count == drained(limit as nat, old(self).items().len()),
            final(self).items() == old(self).items().skip(count as int),
            forall|i: int|
                0 <= i < count ==> call_ensures(act, (#[trigger] old(self).items()[i],), ()),
            forall|run: QueueRun<T>|
                run.items == old(self).items() ==> (#[trigger] run_step(
                    run,
                    old(self).slots(),
                    QueueOp::Drain(limit as nat),
                )).items == final(self).items(),
    ;

    /// A queue never holds more items than it has slots, and it has at least
    /// one slot.
    proof fn lemma_occupancy(&self)
        requires
            self.wf(),
        ensures
            self.items().len() <= self.slots(),
            1 <= self.slots(),
    ;

    /// Appends `value` when the queue has room and returns `true`; returns
    /// `false`, and drops `value`, when every slot is taken.
    fn offer(&mut self, value: T) -> (accepted: bool)
        requires
            old(self).wf(),
            old(self).next_sequence() < usize::MAX || old(self).items().len() == old(self).slots(),
        ensures
            final(self).wf(),
            final(self).slots() == old(self).slots(),
            accepted <==> old(self).items().len() < old(self).slots(),
            !accepted <==> old(self).items().len() == old(self).slots(),
            accepted ==> final(self).items() == old(self).items().push(value)
                && final(self).next_sequence() == old(self).next_sequence() + 1,
            !accepted ==> final(self).items() == old(self).items() && final(self).next_sequence()
                == old(self).next_sequence(),
            forall|run: QueueRun<T>|
                run.items == old(self).items() ==> (#[trigger] run_step(
                    run,
                    old(self).slots(),
                    QueueOp::Offer(value),
                )).items == final(self).items(),
    ;
}

} // verus!

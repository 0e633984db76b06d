use a19_concurrent::mpsc_queue::MpscQueueWrap;
use a19_concurrent::mrsw_map::{ApplyChanges, MrswMap};
use a19_concurrent::spsc_queue::SpscQueueSendWrap;
use std::cell::Cell;
use std::collections::HashMap;
use std::sync::Arc;

#[test]
fn spsc_producer_and_consumer_take_turns() {
    let (write, send) = SpscQueueSendWrap::<usize>::new(1_000);
    let spins: usize = 100_000;
    let mut offered = 0;
    let mut next = 0;
    let mut burst = 1;
    while next < spins {
        for _ in 0..burst {
            if offered < spins && write.offer(offered) == Ok(true) {
                offered += 1;
            }
        }
        for _ in 0..(burst / 2 + 1) {
            if let Ok(Some(v)) = send.poll() {
                assert_eq!(next, v);
                next += 1;
            }
        }
        burst = burst % 1500 + 7;
    }
    assert_eq!(spins, offered);
    assert_eq!(Ok(None), send.poll());
}

#[test]
fn spsc_drain_keeps_the_order() {
    let (write, send) = SpscQueueSendWrap::<usize>::new(1_000);
    let spins: usize = 100_000;
    let next = Cell::new(0usize);
    let mut offered = 0;
    let mut count = 0;
    while count < spins {
        while offered < spins && write.offer(offered) == Ok(true) {
            offered += 1;
        }
        let drained = send
            .drain(
                |v| {
                    assert_eq!(next.get(), v);
                    next.set(v + 1);
                },
                1000,
            )
            .unwrap();
        assert!(drained <= 1000);
        assert!(drained > 0);
        count += drained;
    }
    assert_eq!(spins, count);
    assert_eq!(Ok(0), send.drain(|_| {}, 1000));
}

#[test]
fn mpsc_every_tag_arrives_once() {
    let (write, send) = MpscQueueWrap::<usize>::new(1_000);
    let queue = Arc::new(write);
    let producers: usize = 3;
    let each: usize = 30_000;
    let handles: Vec<Arc<MpscQueueWrap<usize>>> = (0..producers).map(|_| queue.clone()).collect();
    let mut sent = vec![0usize; producers];
    let mut seen = vec![false; producers * each];
    let mut last: Vec<Option<usize>> = vec![None; producers];
    let mut count = 0;
    let mut turn = 0;
    while count < producers * each {
        for step in 0..(turn % 11 + 1) {
            let p = (turn + step) % producers;
            if sent[p] < each && handles[p].offer(p * each + sent[p]) == Ok(true) {
                sent[p] += 1;
            }
        }
        for _ in 0..(turn % 5 + 1) {
            if let Ok(Some(id)) = send.poll() {
                assert!(!seen[id], "id {} came twice", id);
                seen[id] = true;
                let p = id / each;
                assert!(last[p] < Some(id), "producer {} out of order", p);
                last[p] = Some(id);
                count += 1;
            }
        }
        turn += 1;
    }
    assert!(seen.iter().all(|s| *s));
    assert_eq!(Ok(None), send.poll());
}

#[test]
fn mpsc_drain_delivers_every_tag_once() {
    let (write, send) = MpscQueueWrap::<usize>::new(1_000);
    let queue = Arc::new(write);
    let producers: usize = 2;
    let each: usize = 50_000;
    let seen: Vec<Cell<bool>> = (0..producers * each).map(|_| Cell::new(false)).collect();
    let mut sent = vec![0usize; producers];
    let mut count = 0;
    while count < producers * each {
        let mut full = false;
        while !full {
            full = true;
            for p in 0..producers {
                if sent[p] < each && queue.offer(p * each + sent[p]) == Ok(true) {
                    sent[p] += 1;
                    full = false;
                }
            }
        }
        count += send
            .drain(
                |id| {
                    assert!(!seen[id].get(), "id {} came twice", id);
                    seen[id].set(true);
                },
                1000,
            )
            .unwrap();
    }
    assert_eq!(producers * each, count);
    assert!(seen.iter().all(|s| s.get()));
}

struct Count {}

impl ApplyChanges<u64, u64, u64> for Count {
    fn applied(&self, map: vstd::map::Map<u64, u64>, event: u64) -> vstd::map::Map<u64, u64> {
        map.insert(0, event).insert(1, event)
    }

    fn apply(&self, map: &mut HashMap<u64, u64>, event: &u64) {
        map.insert(0, *event);
        map.insert(1, *event);
    }
}

#[test]
fn readers_see_whole_events_only() {
    let (reader, writer) = MrswMap::new(HashMap::new(), HashMap::new(), Count {});
    let reader = Arc::new(reader);
    let other = reader.clone();
    for round in 1..=2_000u64 {
        writer.add_event(round).unwrap();
        assert_eq!(Ok(round - 1), reader.get(0, |v| v.copied().unwrap_or(0)));
        assert_eq!(Ok(round - 1), other.get(1, |v| v.copied().unwrap_or(0)));
        writer.commit().unwrap();
        assert_eq!(Ok(round), reader.get(0, |v| v.copied().unwrap_or(0)));
        assert_eq!(Ok(round), other.get(1, |v| v.copied().unwrap_or(0)));
    }
}

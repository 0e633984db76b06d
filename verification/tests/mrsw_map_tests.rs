use a19_concurrent::mrsw_map::{ApplyChanges, MrswMap, MrswMapReader, ReaderMap, WriterMap};
use a19_concurrent::sync::Starved;
use std::cell::RefCell;
use std::rc::Rc;
use std::collections::HashMap;

enum TestEvent {
    Add { key: u64, value: String },
    Remove { key: u64 },
}

struct TestApplyChange {}

impl ApplyChanges<u64, String, TestEvent> for TestApplyChange {
    fn applied(
        &self,
        map: vstd::map::Map<u64, String>,
        event: TestEvent,
    ) -> vstd::map::Map<u64, String> {
        match event {
            TestEvent::Add { key, value } => map.insert(key, value),
            TestEvent::Remove { key } => map.remove(key),
        }
    }

    fn apply(&self, map: &mut HashMap<u64, String>, event: &TestEvent) {
        match event {
            TestEvent::Add { key: k, value: s } => {
                map.insert(*k, s.clone());
            }
            TestEvent::Remove { key: k } => {
                map.remove(k);
            }
        }
    }
}

fn text(e: Option<&String>) -> String {
    match e {
        Some(r) => r.clone(),
        None => "".to_owned(),
    }
}

#[test]
fn create_mrsw_map() {
    let apply_change = TestApplyChange {};
    let (reader, writer) =
        MrswMap::new(HashMap::with_capacity(10), HashMap::with_capacity(10), apply_change);
    writer.add_event(TestEvent::Add { key: 1, value: "Hi".to_owned() }).unwrap();
    writer.commit().unwrap();
    let r = reader
        .get(1, |e| match e {
            Some(r) => r.clone(),
            None => "".to_owned(),
        })
        .unwrap();
    assert_eq!("Hi", &r);
}

#[test]
fn readers_see_nothing_before_the_commit() {
    let mut map = MrswMap::from_maps(HashMap::new(), HashMap::new(), TestApplyChange {});
    map.add_event(TestEvent::Add { key: 1, value: "Hi".to_owned() });
    assert_eq!("", map.get(1, text));
    map.commit();
    assert_eq!("Hi", map.get(1, text));
}

#[test]
fn both_copies_catch_up_over_many_commits() {
    let mut map = MrswMap::from_maps(HashMap::new(), HashMap::new(), TestApplyChange {});
    map.add_event(TestEvent::Add { key: 1, value: "one".to_owned() });
    map.add_event(TestEvent::Add { key: 2, value: "two".to_owned() });
    map.commit();
    assert_eq!("one", map.get(1, text));
    assert_eq!("two", map.get(2, text));
    map.add_event(TestEvent::Remove { key: 1 });
    map.add_event(TestEvent::Add { key: 3, value: "three".to_owned() });
    assert_eq!("one", map.get(1, text));
    assert_eq!("", map.get(3, text));
    map.commit();
    assert_eq!("", map.get(1, text));
    assert_eq!("two", map.get(2, text));
    assert_eq!("three", map.get(3, text));
    map.commit();
    assert_eq!("", map.get(1, text));
    assert_eq!("two", map.get(2, text));
    assert_eq!("three", map.get(3, text));
    map.add_event(TestEvent::Add { key: 2, value: "deux".to_owned() });
    map.commit();
    assert_eq!("deux", map.get(2, text));
    assert_eq!("three", map.get(3, text));
}

#[test]
fn starting_content_is_visible() {
    let mut first = HashMap::new();
    first.insert(7u64, "seven".to_owned());
    let second = first.clone();
    let (reader, writer) = MrswMap::new(first, second, TestApplyChange {});
    assert_eq!("seven", reader.get(7, text).unwrap());
    writer.add_event(TestEvent::Remove { key: 7 }).unwrap();
    assert_eq!("seven", reader.get(7, text).unwrap());
    writer.commit().unwrap();
    let shared = std::sync::Arc::new(reader);
    let other = shared.clone();
    assert_eq!("", shared.get(7, text).unwrap());
    assert_eq!("", other.get(7, text).unwrap());
}

#[test]
fn a_reader_may_use_the_map_in_its_callback() {
    let mut first = HashMap::new();
    first.insert(1u64, "one".to_owned());
    first.insert(2u64, "two".to_owned());
    let second = first.clone();
    let (reader, writer) = MrswMap::new(first, second, TestApplyChange {});
    let both = reader.get(1, |a| {
        let b = reader.get(2, text).unwrap();
        writer.add_event(TestEvent::Remove { key: 1 }).unwrap();
        writer.commit().unwrap();
        format!("{}+{}", text(a), b)
    });
    assert_eq!(Ok("one+two".to_owned()), both);
    assert_eq!("", reader.get(1, text).unwrap());
    assert_eq!("two", reader.get(2, text).unwrap());
}

#[test]
fn a_handle_without_a_try_is_starved() {
    let (mut reader, mut writer) = MrswMap::new(HashMap::new(), HashMap::new(), TestApplyChange {});
    writer.add_event(TestEvent::Add { key: 1, value: "one".to_owned() }).unwrap();
    writer.set_spin_limit(0);
    reader.set_spin_limit(0);
    assert_eq!(Err(Starved), writer.commit());
    assert_eq!(Err(Starved), writer.add_event(TestEvent::Remove { key: 1 }));
    assert_eq!(Err(Starved), reader.get(1, text));
    writer.set_spin_limit(1);
    reader.set_spin_limit(1);
    assert_eq!(Ok("".to_owned()), reader.get(1, text));
    assert_eq!(Ok(()), writer.commit());
    assert_eq!(Ok("one".to_owned()), reader.get(1, text));
}

type Slot = Rc<RefCell<Option<MrswMapReader<u64, u64, u64, Meddler>>>>;

struct Meddler {
    reader: Slot,
    seen: Rc<RefCell<Vec<Result<u64, Starved>>>>,
}

impl ApplyChanges<u64, u64, u64> for Meddler {
    fn applied(&self, map: vstd::map::Map<u64, u64>, event: u64) -> vstd::map::Map<u64, u64> {
        map.insert(0, event)
    }

    fn apply(&self, map: &mut HashMap<u64, u64>, event: &u64) {
        if let Some(reader) = self.reader.borrow().as_ref() {
            self.seen.borrow_mut().push(reader.get(0, |v| v.copied().unwrap_or(0)));
        }
        map.insert(0, *event);
    }
}

#[test]
fn an_applier_that_reads_its_own_map_is_told_that_it_is_taken() {
    let slot: Slot = Rc::new(RefCell::new(None));
    let seen = Rc::new(RefCell::new(Vec::new()));
    let meddler = Meddler { reader: slot.clone(), seen: seen.clone() };
    let (mut reader, writer) = MrswMap::new(HashMap::new(), HashMap::new(), meddler);
    reader.set_spin_limit(3);
    *slot.borrow_mut() = Some(reader);
    assert_eq!(Ok(()), writer.add_event(7));
    assert_eq!(vec![Err(Starved)], *seen.borrow());
    assert_eq!(Ok(()), writer.commit());
    assert_eq!(vec![Err(Starved), Err(Starved)], *seen.borrow());
    let reader = slot.borrow_mut().take().unwrap();
    assert_eq!(Ok(7), reader.get(0, |v| v.copied().unwrap_or(0)));
}

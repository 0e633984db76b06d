//! A map for one writer and many readers, kept as two copies.
//!
//! Readers see one copy while the writer changes the other. Every change is
//! an event: it is applied to the writer's copy at once and remembered for
//! the readers' copy. A commit shows the writer's copy to the readers and
//! replays the remembered events on the copy that the readers have left, so
//! that both copies agree again.
//!
//! [`MrswMap`] is the map in the hands of a single owner, and its operations
//! have exact contracts. [`MrswMapReader`] and [`MrswMapWriter`] share one
//! map between readers and a writer. What the others do between two calls is
//! beyond a contract, so the handles go through the `guarded_` operations,
//! which assume nothing of the map that they find behind the lock.

use crate::sync::{acquire, exclusive, share, Starved, DEFAULT_SPIN_LIMIT};
use std::collections::{HashMap, VecDeque};
use std::hash::Hash;
use std::sync::{Arc, Mutex};
use vstd::prelude::*;
use vstd::std_specs::hash::obeys_key_model;

verus! {

broadcast use vstd::std_specs::hash::group_hash_axioms;

/// The tag of the copy that readers see.
pub const READER: u32 = 1;

/// The tag of the copy that the writer changes.
pub const WRITER: u32 = 2;

/// How an event changes a map.
///
/// An implementation says in `applied` what its `apply` does to the map's
/// content. Everything that this module proves of a map holds for the
/// implementations whose `apply` keeps to that.
pub trait ApplyChanges<K: Hash + Eq, V, E> {
    /// The map that results from applying `event` to `map`.
    spec fn applied(&self, map: Map<K, V>, event: E) -> Map<K, V>;

    /// Applies `event` to `map`.
    fn apply(&self, map: &mut HashMap<K, V>, event: &E)
        requires
            obeys_key_model::<K>(),
        ensures
            final(map)@ == self.applied(old(map)@, *event),
    ;
}

/// The map that results from applying `events` to `map`, first to last.
pub open spec fn replay<K: Hash + Eq, V, E, A: ApplyChanges<K, V, E>>(
    applier: &A,
    map: Map<K, V>,
    events: Seq<E>,
) -> Map<K, V>
    decreases events.len(),
{
    if events.len() == 0 {
        map
    } else {
        applier.applied(replay(applier, map, events.drop_last()), events.last())
    }
}

/// Replaying a list of events is applying the first and replaying the rest.
pub proof fn lemma_replay_front<K: Hash + Eq, V, E, A: ApplyChanges<K, V, E>>(
    applier: &A,
    map: Map<K, V>,
    events: Seq<E>,
)
    requires
        events.len() > 0,
    ensures
        replay(applier, map, events) == replay(
            applier,
            applier.applied(map, events[0]),
            events.skip(1),
        ),
    decreases events.len(),
{
    if events.len() == 1 {
        assert(events.drop_last() =~= Seq::<E>::empty());
        assert(events.skip(1) =~= Seq::<E>::empty());
        assert(replay(applier, map, events.drop_last()) == map);
    } else {
        lemma_replay_front(applier, map, events.drop_last());
        assert(events.drop_last().skip(1) =~= events.skip(1).drop_last());
        assert(events.drop_last()[0] == events[0]);
        assert(events.skip(1).last() == events.last());
    }
}

/// Replaying one more event is applying it to what the others gave.
pub proof fn lemma_replay_push<K: Hash + Eq, V, E, A: ApplyChanges<K, V, E>>(
    applier: &A,
    map: Map<K, V>,
    events: Seq<E>,
    event: E,
)
    ensures
        replay(applier, map, events.push(event)) == applier.applied(
            replay(applier, map, events),
            event,
        ),
{
    assert(events.push(event).drop_last() =~= events);
}

/// One call of the writer: an event to add, or a commit.
pub ghost enum WriterOp<E> {
    Add(E),
    Commit,
}

/// What a run of the writer's calls amounts to: what readers see, what the
/// writer has staged, and the events added since the last commit.
#[verifier::reject_recursive_types(K)]
pub ghost struct MapRun<K, V, E> {
    pub visible: Map<K, V>,
    pub staged: Map<K, V>,
    pub pending: Seq<E>,
}

/// The run that `op` makes of `run`: an added event changes what is staged
/// and is remembered; a commit shows readers what is staged.
pub open spec fn writer_step<K: Hash + Eq, V, E, A: ApplyChanges<K, V, E>>(
    applier: &A,
    run: MapRun<K, V, E>,
    op: WriterOp<E>,
) -> MapRun<K, V, E> {
    match op {
        WriterOp::Add(event) => MapRun {
            visible: run.visible,
            staged: applier.applied(run.staged, event),
            pending: run.pending.push(event),
        },
        WriterOp::Commit => MapRun { visible: run.staged, staged: run.staged, pending: Seq::empty() },
    }
}

/// The run that the calls `ops`, first to last, make of a map whose two
/// copies hold `start`.
pub open spec fn writer_run<K: Hash + Eq, V, E, A: ApplyChanges<K, V, E>>(
    applier: &A,
    start: Map<K, V>,
    ops: Seq<WriterOp<E>>,
) -> MapRun<K, V, E>
    decreases ops.len(),
{
    if ops.len() == 0 {
        MapRun { visible: start, staged: start, pending: Seq::empty() }
    } else {
        writer_step(applier, writer_run(applier, start, ops.drop_last()), ops.last())
    }
}

/// The events among `ops`, first to last.
pub open spec fn added_events<E>(ops: Seq<WriterOp<E>>) -> Seq<E>
    decreases ops.len(),
{
    if ops.len() == 0 {
        Seq::empty()
    } else {
        match ops.last() {
            WriterOp::Add(event) => added_events(ops.drop_last()).push(event),
            WriterOp::Commit => added_events(ops.drop_last()),
        }
    }
}

/// The events among `ops` that come before the last commit, first to last.
pub open spec fn committed_events<E>(ops: Seq<WriterOp<E>>) -> Seq<E>
    decreases ops.len(),
{
    if ops.len() == 0 {
        Seq::empty()
    } else {
        match ops.last() {
            WriterOp::Add(event) => committed_events(ops.drop_last()),
            WriterOp::Commit => added_events(ops.drop_last()),
        }
    }
}

/// Whatever the writer has called, readers see the starting content with
/// exactly the events applied that were added before the last commit, each
/// of them whole and in the order in which they were added; the writer has
/// staged the starting content with every event applied.
pub proof fn lemma_readers_see_committed_events<K: Hash + Eq, V, E, A: ApplyChanges<K, V, E>>(
    applier: &A,
    start: Map<K, V>,
    ops: Seq<WriterOp<E>>,
)
    ensures
        writer_run(applier, start, ops).visible == replay(applier, start, committed_events(ops)),
        writer_run(applier, start, ops).staged == replay(applier, start, added_events(ops)),
        writer_run(applier, start, ops).staged == replay(
            applier,
            writer_run(applier, start, ops).visible,
            writer_run(applier, start, ops).pending,
        ),
    decreases ops.len(),
{
    if ops.len() > 0 {
        lemma_readers_see_committed_events(applier, start, ops.drop_last());
        let before = writer_run(applier, start, ops.drop_last());
        match ops.last() {
            WriterOp::Add(event) => {
                lemma_replay_push(applier, start, added_events(ops.drop_last()), event);
                lemma_replay_push(applier, before.visible, before.pending, event);
            },
            WriterOp::Commit => {},
        }
    }
}

/// One copy of the map, with its tag, the number of readers that are
/// looking at it, and the events that it has yet to catch up on.
pub struct MapContainer<K: Hash + Eq, V, E> {
    map: HashMap<K, V>,
    reader_count: u32,
    state: u32,
    event_stream: VecDeque<E>,
}

impl<K: Hash + Eq, V, E> MapContainer<K, V, E> {
    /// The copy's content.
    pub closed spec fn content(&self) -> Map<K, V> {
        self.map@
    }

    /// The copy's tag.
    pub closed spec fn tag(&self) -> u32 {
        self.state
    }

    /// The number of readers that are looking at the copy.
    pub closed spec fn readers(&self) -> nat {
        self.reader_count as nat
    }

    /// The events that the copy has yet to catch up on, oldest first.
    pub closed spec fn pending(&self) -> Seq<E> {
        self.event_stream@
    }

    /// A copy that holds `starting_map`, carries the tag `initial_state`, has
    /// no reader and no pending event.
    pub fn new(starting_map: HashMap<K, V>, initial_state: u32, event_stream_size: usize) -> (container: Self)
        ensures
            container.content() == starting_map@,
            container.tag() == initial_state,
            container.readers() == 0,
            container.pending() == Seq::<E>::empty(),
    {
        MapContainer {
            map: starting_map,
            reader_count: 0,
            state: initial_state,
            event_stream: VecDeque::with_capacity(event_stream_size),
        }
    }
}

/// What a reader's projection is handed for `key`: the value that `map`
/// holds under it, or `None`.
pub open spec fn lookup<'a, K, V>(map: &'a Map<K, V>, key: K) -> Option<&'a V> {
    if map.contains_key(key) {
        Some(&map[key])
    } else {
        None
    }
}

/// `result` is what `act` makes of some look-up: of a value, or of `None`.
pub open spec fn made_of_a_look_up<V, R, F: FnOnce(Option<&V>) -> R>(act: F, result: R) -> bool {
    exists|item: Option<&V>| call_ensures(act, (item,), result)
}

/// The writer's side of the map.
///
/// The calls are for one writer at a time.
pub trait WriterMap<K, V, E> {
    /// The map's fields agree with each other.
    spec fn wf(&self) -> bool;

    /// The content that readers see.
    spec fn visible(&self) -> Map<K, V>;

    /// The content with every event applied, which the next commit shows.
    spec fn staged(&self) -> Map<K, V>;

    /// The events added since the last commit, oldest first.
    spec fn pending(&self) -> Seq<E>;

    /// The map that results from applying `event` to `map`.
    spec fn event_applied(&self, map: Map<K, V>, event: E) -> Map<K, V>;

    /// Applies `event` to the writer's copy and remembers it for the
    /// readers' copy. Readers see no change before the next commit.
    fn add_event(&mut self, event: E)
        requires
            old(self).wf(),
        ensures
            final(self).wf(),
            final(self).staged() == old(self).event_applied(old(self).staged(), event),
            final(self).visible() == old(self).visible(),
            final(self).pending() == old(self).pending().push(event),
            forall|m: Map<K, V>, e: E| #[trigger]
                final(self).event_applied(m, e) == old(self).event_applied(m, e),
    ;

    /// Shows readers everything that was added, and brings the copy that
    /// they have left up to date.
    fn commit(&mut self)
        requires
            old(self).wf(),
        ensures
            final(self).wf(),
            final(self).visible() == old(self).staged(),
            final(self).staged() == old(self).staged(),
            final(self).pending() == Seq::<E>::empty(),
            forall|m: Map<K, V>, e: E| #[trigger]
                final(self).event_applied(m, e) == old(self).event_applied(m, e),
    ;
}

/// The readers' side of the map.
pub trait ReaderMap<K, V> {
    /// The map's fields agree with each other.
    spec fn readable(&self) -> bool;

    /// The content that readers see.
    spec fn seen(&self) -> Map<K, V>;

    /// Hands `act` the value that readers see under `key`, or `None`, and
    /// returns what `act` makes of it. The map is left as it was.
    fn get<R, F: FnOnce(Option<&V>) -> R>(&mut self, key: K, act: F) -> (result: R)
        requires
            old(self).readable(),
            call_requires(act, (lookup(&old(self).seen(), key),)),
        ensures
            final(self).readable(),
            final(self).seen() == old(self).seen(),
            call_ensures(act, (lookup(&old(self).seen(), key),), result),
    ;
}

/// Which of the two copies readers are sent to.
#[derive(Clone, Copy, Debug)]
pub enum CurrentReader {
    /// The first copy.
    Map1,
    /// The second copy.
    Map2,
}

impl CurrentReader {
    /// The copy that this one is not.
    pub open spec fn other(self) -> CurrentReader {
        match self {
            CurrentReader::Map1 => CurrentReader::Map2,
            CurrentReader::Map2 => CurrentReader::Map1,
        }
    }
}

/// The multi-reader, single-writer map.
pub struct MrswMap<K: Hash + Eq, V, E, TApplyChange: ApplyChanges<K, V, E>> {
    current_reader: CurrentReader,
    map1: MapContainer<K, V, E>,
    map2: MapContainer<K, V, E>,
    apply_change: TApplyChange,
}

impl<K: Hash + Eq, V, E, TApplyChange: ApplyChanges<K, V, E>> MrswMap<K, V, E, TApplyChange> {
    /// The rule by which events change the map.
    pub closed spec fn applier(&self) -> TApplyChange {
        self.apply_change
    }

    /// Where the map stands in the run of the writer's calls.
    pub open spec fn run(&self) -> MapRun<K, V, E> {
        MapRun { visible: self.visible(), staged: self.staged(), pending: self.pending() }
    }

    /// Which copy readers are sent to.
    pub closed spec fn current(&self) -> CurrentReader {
        self.current_reader
    }

    /// The first copy, which starts as the readers' copy.
    pub closed spec fn first_copy(&self) -> MapContainer<K, V, E> {
        self.map1
    }

    /// The second copy, which starts as the writer's copy.
    pub closed spec fn second_copy(&self) -> MapContainer<K, V, E> {
        self.map2
    }

    /// The copy that readers see.
    pub closed spec fn reader_copy(&self) -> MapContainer<K, V, E> {
        if self.map1.state == WRITER {
            self.map2
        } else {
            self.map1
        }
    }

    /// The copy that the writer changes.
    pub closed spec fn writer_copy(&self) -> MapContainer<K, V, E> {
        if self.map1.state == WRITER {
            self.map1
        } else {
            self.map2
        }
    }

    /// A map whose two copies hold `map1` and `map2`, which hold the same
    /// content. Readers start on the first copy, the writer on the second.
    pub fn from_maps(map1: HashMap<K, V>, map2: HashMap<K, V>, apply_change: TApplyChange) -> (map: Self)
        requires
            obeys_key_model::<K>(),
            map1@ == map2@,
        ensures
            map.wf(),
            map.visible() == map1@,
            map.staged() == map1@,
            map.pending() == Seq::<E>::empty(),
            map.applier() == apply_change,
            map.current() is Map1,
            map.first_copy().tag() == READER,
            map.second_copy().tag() == WRITER,
            map.first_copy().content() == map1@,
            map.second_copy().content() == map2@,
            map.first_copy().pending() == Seq::<E>::empty(),
            map.second_copy().pending() == Seq::<E>::empty(),
            map.first_copy().readers() == 0,
            map.second_copy().readers() == 0,
    {
        MrswMap {
            current_reader: CurrentReader::Map1,
            map1: MapContainer::new(map1, READER, 1_024),
            map2: MapContainer::new(map2, WRITER, 1_024),
            apply_change,
        }
    }

    /// A map whose two copies hold `map1` and `map2`, which hold the same
    /// content, as the pair of a readers' and the writer's handle. The two
    /// handles reach one and the same map, which starts as
    /// [`MrswMap::from_maps`] builds it: readers are sent to the first copy,
    /// which carries the readers' tag, the second carries the writer's, no
    /// event is pending, no reader is counted, and events change the map by
    /// `apply_change`.
    pub fn new(map1: HashMap<K, V>, map2: HashMap<K, V>, apply_change: TApplyChange) -> (handles: (
        MrswMapReader<K, V, E, TApplyChange>,
        MrswMapWriter<K, V, E, TApplyChange>,
    ))
        requires
            obeys_key_model::<K>(),
            map1@ == map2@,
        ensures
            handles.0.shares_with(&handles.1),
            handles.0.origin() == handles.1.origin(),
            handles.1.origin().wf(),
            handles.1.origin().visible() == map1@,
            handles.1.origin().staged() == map1@,
            handles.1.origin().pending() == Seq::<E>::empty(),
            handles.1.origin().applier() == apply_change,
            handles.1.origin().current() is Map1,
            handles.1.origin().first_copy().tag() == READER,
            handles.1.origin().second_copy().tag() == WRITER,
            handles.1.origin().first_copy().content() == map1@,
            handles.1.origin().second_copy().content() == map2@,
            handles.1.origin().first_copy().pending() == Seq::<E>::empty(),
            handles.1.origin().second_copy().pending() == Seq::<E>::empty(),
            handles.1.origin().first_copy().readers() == 0,
            handles.1.origin().second_copy().readers() == 0,
            handles.0.spin_limit() == DEFAULT_SPIN_LIMIT,
            handles.1.spin_limit() == DEFAULT_SPIN_LIMIT,
    {
        let built = MrswMap::from_maps(map1, map2, apply_change);
        let origin = Ghost(built);
        let map = Arc::new(Mutex::new(built));
        let reader = share(&map);
        (
            MrswMapReader { map: reader, spin_limit: DEFAULT_SPIN_LIMIT, origin },
            MrswMapWriter { map, spin_limit: DEFAULT_SPIN_LIMIT, origin },
        )
    }

    /// Applies `event` to the content of `map` and leaves the rest of `map`
    /// alone.
    pub fn apply_int(apply_change: &TApplyChange, map: &mut MapContainer<K, V, E>, event: &E)
        requires
            obeys_key_model::<K>(),
        ensures
            final(map).content() == apply_change.applied(old(map).content(), *event),
            final(map).tag() == old(map).tag(),
            final(map).readers() == old(map).readers(),
            final(map).pending() == old(map).pending(),
    {
        apply_change.apply(&mut map.map, event);
    }

    /// Remembers `event` for `map` to catch up on at the next commit.
    pub fn add_event_int(map: &mut MapContainer<K, V, E>, event: E)
        ensures
            final(map).pending() == old(map).pending().push(event),
            final(map).content() == old(map).content(),
            final(map).tag() == old(map).tag(),
            final(map).readers() == old(map).readers(),
    {
        map.event_stream.push_back(event);
    }

    /// Once no reader looks at `map`, applies its pending events to it,
    /// oldest first, and hands the spent events back for the caller to drop.
    /// While a reader still looks at it, `map` is left as it is.
    pub fn catch_up(apply_change: &TApplyChange, map: &mut MapContainer<K, V, E>) -> (spent: VecDeque<E>)
        requires
            obeys_key_model::<K>(),
        ensures
            final(map).tag() == old(map).tag(),
            final(map).readers() == old(map).readers(),
            old(map).readers() == 0 ==> final(map).content() == replay(
                apply_change,
                old(map).content(),
                old(map).pending(),
            ) && final(map).pending() == Seq::<E>::empty() && spent@ == old(map).pending(),
            old(map).readers() != 0 ==> final(map).content() == old(map).content()
                && final(map).pending() == old(map).pending() && spent@ == Seq::<E>::empty(),
    {
        let mut spent: VecDeque<E> = VecDeque::new();
        if map.reader_count == 0 {
            core::mem::swap(&mut map.event_stream, &mut spent);
            let count: usize = spent.len();
            let mut done: usize = 0;
            assert(spent@.skip(0) =~= spent@);
            while done < count
                invariant
                    obeys_key_model::<K>(),
                    done <= count,
                    count == spent@.len(),
                    spent@ == old(map).pending(),
                    map.event_stream@ == Seq::<E>::empty(),
                    map.state == old(map).state,
                    map.reader_count == old(map).reader_count,
                    replay(apply_change, map.map@, spent@.skip(done as int)) == replay(
                        apply_change,
                        old(map).content(),
                        old(map).pending(),
                    ),
                decreases count - done,
            {
                proof {
                    lemma_replay_front(apply_change, map.map@, spent@.skip(done as int));
                    assert(spent@.skip(done as int).skip(1) =~= spent@.skip(done + 1));
                }
                Self::apply_int(apply_change, map, &spent[done]);
                done = done + 1;
            }
            assert(spent@.skip(done as int) =~= Seq::<E>::empty());
        }
        spent
    }

    /// The content of the copy that readers are sent to, whether or not the
    /// map is well-formed.
    pub closed spec fn current_content(&self) -> Map<K, V> {
        match self.current_reader {
            CurrentReader::Map1 => self.map1.map@,
            CurrentReader::Map2 => self.map2.map@,
        }
    }

    /// [`WriterMap::add_event`] for a map of which nothing is known. On one
    /// that is not well-formed nothing is promised but that the call
    /// returns.
    pub fn guarded_add_event(&mut self, event: E)
        requires
            obeys_key_model::<K>(),
        ensures
            final(self).applier() == old(self).applier(),
            final(self).current() == old(self).current(),
            final(self).first_copy().tag() == old(self).first_copy().tag(),
            final(self).second_copy().tag() == old(self).second_copy().tag(),
            old(self).wf() ==> final(self).wf() && final(self).run() == writer_step(
                &old(self).applier(),
                old(self).run(),
                WriterOp::Add(event),
            ),
    {
        proof {
            lemma_replay_push(
                &self.apply_change,
                self.reader_copy().content(),
                self.reader_copy().pending(),
                event,
            );
        }
        if self.map1.state == WRITER {
            Self::apply_int(&self.apply_change, &mut self.map1, &event);
            Self::add_event_int(&mut self.map2, event);
        } else {
            Self::apply_int(&self.apply_change, &mut self.map2, &event);
            Self::add_event_int(&mut self.map1, event);
        }
    }

    /// [`WriterMap::commit`] for a map of which nothing is known. The spent
    /// events are handed back for the caller to drop. On a map that is not
    /// well-formed nothing is promised but that the call returns.
    pub fn guarded_commit(&mut self) -> (spent: VecDeque<E>)
        requires
            obeys_key_model::<K>(),
        ensures
            final(self).applier() == old(self).applier(),
            old(self).wf() ==> {
                &&& final(self).wf()
                &&& final(self).run() == writer_step(
                    &old(self).applier(),
                    old(self).run(),
                    WriterOp::Commit,
                )
                &&& final(self).current() == old(self).current().other()
                &&& final(self).first_copy().tag() == old(self).second_copy().tag()
                &&& final(self).second_copy().tag() == old(self).first_copy().tag()
                &&& spent@ == old(self).pending()
            },
    {
        if self.map1.state == WRITER {
            self.map1.state = READER;
            self.map2.state = WRITER;
            self.current_reader = CurrentReader::Map1;
            Self::catch_up(&self.apply_change, &mut self.map2)
        } else {
            self.map2.state = READER;
            self.map1.state = WRITER;
            self.current_reader = CurrentReader::Map2;
            Self::catch_up(&self.apply_change, &mut self.map1)
        }
    }

    /// [`ReaderMap::get`] for a map of which nothing is known. On one that
    /// is not well-formed, `act` is handed what the copy that readers are
    /// sent to holds under `key`, and nothing more is promised.
    pub fn guarded_get<R, F: FnOnce(Option<&V>) -> R>(&mut self, key: &K, act: F) -> (result: R)
        requires
            obeys_key_model::<K>(),
            call_requires(act, (lookup(&old(self).current_content(), *key),)),
        ensures
            call_ensures(act, (lookup(&old(self).current_content(), *key),), result),
            old(self).wf() ==> final(self).wf() && final(self).run() == old(self).run()
                && old(self).current_content() == old(self).visible(),
            final(self).applier() == old(self).applier(),
            final(self).current() == old(self).current(),
            final(self).first_copy().tag() == old(self).first_copy().tag(),
            final(self).second_copy().tag() == old(self).second_copy().tag(),
    {
        match self.current_reader {
            CurrentReader::Map1 => {
                self.map1.reader_count = self.map1.reader_count.wrapping_add(1);
                let elem = self.map1.map.get(key);
                let r = act(elem);
                self.map1.reader_count = self.map1.reader_count.wrapping_sub(1);
                r
            },
            CurrentReader::Map2 => {
                self.map2.reader_count = self.map2.reader_count.wrapping_add(1);
                let elem = self.map2.map.get(key);
                let r = act(elem);
                self.map2.reader_count = self.map2.reader_count.wrapping_sub(1);
                r
            },
        }
    }

    /// A copy of what the copy that readers are sent to holds under `key`,
    /// or `None`: what [`ReaderMap::get`] hands to its callback, for a map of
    /// which nothing is known.
    pub fn guarded_lookup(&mut self, key: &K) -> (found: Option<V>) where V: Clone
        requires
            obeys_key_model::<K>(),
        ensures
            match lookup(&old(self).current_content(), *key) {
                Some(value) => found is Some && cloned(*value, found->0),
                None => found is None,
            },
            old(self).wf() ==> final(self).wf() && final(self).run() == old(self).run()
                && old(self).current_content() == old(self).visible(),
            final(self).applier() == old(self).applier(),
    {
        let copy = |item: Option<&V>| -> (copied: Option<V>)
            ensures
                match item {
                    Some(value) => copied is Some && cloned(*value, copied->0),
                    None => copied is None,
                },
            {
                match item {
                    Some(value) => Some(value.clone()),
                    None => None,
                }
            };
        self.guarded_get(key, copy)
    }

    /// In a well-formed map, readers are sent to the copy that carries the
    /// readers' tag.
    pub proof fn lemma_current_is_visible(&self)
        requires
            self.wf(),
        ensures
            self.current_content() == self.visible(),
    {
    }

    /// One copy carries the readers' tag and the other the writer's, readers
    /// are sent to the one with the readers' tag, no reader is in the middle
    /// of a look-up, and the writer's copy has nothing to catch up on.
    pub proof fn lemma_tags(&self)
        requires
            self.wf(),
        ensures
            self.reader_copy().tag() == READER,
            self.writer_copy().tag() == WRITER,
            self.reader_copy().readers() == 0,
            self.writer_copy().readers() == 0,
            self.writer_copy().pending() == Seq::<E>::empty(),
            self.reader_copy().content() == self.visible(),
            self.writer_copy().content() == self.staged(),
            self.current() is Map1 ==> self.reader_copy() == self.first_copy()
                && self.writer_copy() == self.second_copy(),
            self.current() is Map2 ==> self.reader_copy() == self.second_copy()
                && self.writer_copy() == self.first_copy(),
    {
    }

    /// What the writer's copy holds is what the readers' copy holds with the
    /// pending events applied: a commit shows readers every event that was
    /// added before it, each of them whole.
    pub proof fn lemma_staged_is_replay(&self)
        requires
            self.wf(),
        ensures
            self.staged() == replay(&self.applier(), self.visible(), self.pending()),
    {
    }
}

impl<K: Hash + Eq, V, E, TApplyChange: ApplyChanges<K, V, E>> WriterMap<K, V, E> for MrswMap<
    K,
    V,
    E,
    TApplyChange,
> {
    closed spec fn wf(&self) -> bool {
        &&& obeys_key_model::<K>()
        &&& {
            ||| self.map1.state == READER && self.map2.state == WRITER
                && self.current_reader is Map1
            ||| self.map1.state == WRITER && self.map2.state == READER
                && self.current_reader is Map2
        }
        &&& self.map1.reader_count == 0
        &&& self.map2.reader_count == 0
        &&& self.writer_copy().pending() == Seq::<E>::empty()
        &&& self.writer_copy().content() == replay(
            &self.apply_change,
            self.reader_copy().content(),
            self.reader_copy().pending(),
        )
    }

    closed spec fn visible(&self) -> Map<K, V> {
        self.reader_copy().content()
    }

    closed spec fn staged(&self) -> Map<K, V> {
        self.writer_copy().content()
    }

    closed spec fn pending(&self) -> Seq<E> {
        self.reader_copy().pending()
    }

    open spec fn event_applied(&self, map: Map<K, V>, event: E) -> Map<K, V> {
        self.applier().applied(map, event)
    }

    fn add_event(&mut self, event: E)
        ensures
            final(self).applier() == old(self).applier(),
            final(self).run() == writer_step(&old(self).applier(), old(self).run(), WriterOp::Add(event)),
            final(self).current() == old(self).current(),
            final(self).first_copy().tag() == old(self).first_copy().tag(),
            final(self).second_copy().tag() == old(self).second_copy().tag(),
    {
        self.guarded_add_event(event)
    }

    fn commit(&mut self)
        ensures
            final(self).applier() == old(self).applier(),
            final(self).run() == writer_step(&old(self).applier(), old(self).run(), WriterOp::Commit),
            final(self).current() == old(self).current().other(),
            final(self).first_copy().tag() == old(self).second_copy().tag(),
            final(self).second_copy().tag() == old(self).first_copy().tag(),
    {
        let _ = self.guarded_commit();
    }
}

impl<K: Hash + Eq, V, E, TApplyChange: ApplyChanges<K, V, E>> ReaderMap<K, V> for MrswMap<
    K,
    V,
    E,
    TApplyChange,
> {
    open spec fn readable(&self) -> bool {
        self.wf()
    }

    open spec fn seen(&self) -> Map<K, V> {
        self.visible()
    }

    fn get<R, F: FnOnce(Option<&V>) -> R>(&mut self, key: K, act: F) -> (result: R)
        ensures
            final(self).applier() == old(self).applier(),
            final(self).run() == old(self).run(),
            final(self).current() == old(self).current(),
            final(self).first_copy().tag() == old(self).first_copy().tag(),
            final(self).second_copy().tag() == old(self).second_copy().tag(),
    {
        proof {
            self.lemma_current_is_visible();
        }
        self.guarded_get(&key, act)
    }
}

/// The readers' handle to a shared map. Any number of readers may use it at
/// the same time.
#[verifier::reject_recursive_types(K)]
#[verifier::reject_recursive_types(V)]
#[verifier::reject_recursive_types(E)]
#[verifier::reject_recursive_types(TApplyChange)]
pub struct MrswMapReader<K: Hash + Eq, V, E, TApplyChange: ApplyChanges<K, V, E>> {
    map: Arc<Mutex<MrswMap<K, V, E, TApplyChange>>>,
    spin_limit: usize,
    origin: Ghost<MrswMap<K, V, E, TApplyChange>>,
}

/// The writer's handle to a shared map.
#[verifier::reject_recursive_types(K)]
#[verifier::reject_recursive_types(V)]
#[verifier::reject_recursive_types(E)]
#[verifier::reject_recursive_types(TApplyChange)]
pub struct MrswMapWriter<K: Hash + Eq, V, E, TApplyChange: ApplyChanges<K, V, E>> {
    map: Arc<Mutex<MrswMap<K, V, E, TApplyChange>>>,
    spin_limit: usize,
    origin: Ghost<MrswMap<K, V, E, TApplyChange>>,
}

impl<K: Hash + Eq, V, E, TApplyChange: ApplyChanges<K, V, E>> MrswMapReader<K, V, E, TApplyChange> {
    /// The map as it was when the handle was made.
    pub closed spec fn origin(&self) -> MrswMap<K, V, E, TApplyChange> {
        self.origin@
    }

    /// How often the handle asks for the map's lock before it gives up.
    pub closed spec fn spin_limit(&self) -> usize {
        self.spin_limit
    }

    /// This handle and `writer` reach one and the same map.
    pub closed spec fn shares_with(&self, writer: &MrswMapWriter<K, V, E, TApplyChange>) -> bool {
        self.map == writer.map
    }

    /// Sets how often the handle asks for the map's lock before it gives up.
    /// The handle stays a handle of the same map.
    pub fn set_spin_limit(&mut self, limit: usize)
        ensures
            final(self).spin_limit() == limit,
            final(self).origin() == old(self).origin(),
            forall|writer: MrswMapWriter<K, V, E, TApplyChange>| #[trigger]
                final(self).shares_with(&writer) == old(self).shares_with(&writer),
    {
        self.spin_limit = limit;
    }

    /// A copy of the value that readers of the map behind the lock see under
    /// `key`, returned once the lock is free again.
    fn find(&self, key: &K) -> (found: Result<Option<V>, Starved>) where V: Clone
        requires
            obeys_key_model::<K>(),
        ensures
            self.spin_limit() == 0 ==> found is Err,
    {
        match acquire(&self.map, self.spin_limit) {
            Some(mut guard) => {
                let map = exclusive(&mut guard);
                Ok(map.guarded_lookup(key))
            },
            None => Err(Starved),
        }
    }

    /// Hands `act` a copy of the value that readers of the shared map see
    /// under `key`, or `None`, and returns `Ok` with what `act` makes of it;
    /// or returns `Err`, with `act` not called, when the map's lock stayed
    /// taken for every try that the handle has. The copy is made under the
    /// lock and `act` runs after the lock is free again. Whether the lock is
    /// free and what readers see depend on the writer, so nothing is said of
    /// what `act` is handed.
    pub fn get<R, F: FnOnce(Option<&V>) -> R>(&self, key: K, act: F) -> (outcome: Result<
        R,
        Starved,
    >) where V: Clone
        requires
            obeys_key_model::<K>(),
            forall|item: Option<&V>| call_requires(act, (item,)),
        ensures
            self.spin_limit() == 0 ==> outcome is Err,
            match outcome {
                Ok(result) => made_of_a_look_up(act, result),
                Err(_) => true,
            },
    {
        match self.find(&key) {
            Ok(found) => {
                let result = match &found {
                    Some(value) => act(Some(value)),
                    None => act(None),
                };
                assert(made_of_a_look_up(act, result));
                Ok(result)
            },
            Err(starved) => Err(starved),
        }
    }
}

impl<K: Hash + Eq, V, E, TApplyChange: ApplyChanges<K, V, E>> MrswMapWriter<K, V, E, TApplyChange> {
    /// The map as it was when the handle was made.
    pub closed spec fn origin(&self) -> MrswMap<K, V, E, TApplyChange> {
        self.origin@
    }

    /// How often the handle asks for the map's lock before it gives up.
    pub closed spec fn spin_limit(&self) -> usize {
        self.spin_limit
    }

    /// Sets how often the handle asks for the map's lock before it gives up.
    /// The handle stays a handle of the same map.
    pub fn set_spin_limit(&mut self, limit: usize)
        ensures
            final(self).spin_limit() == limit,
            final(self).origin() == old(self).origin(),
            forall|reader: MrswMapReader<K, V, E, TApplyChange>| #[trigger]
                reader.shares_with(final(self)) == reader.shares_with(old(self)),
    {
        self.spin_limit = limit;
    }

    /// Adds `event` to the shared map, where readers see it after the next
    /// commit: `Ok` when it is added, `Err`, with the event dropped, when
    /// the map's lock stayed taken for every try that the handle has.
    pub fn add_event(&self, event: E) -> (outcome: Result<(), Starved>)
        requires
            obeys_key_model::<K>(),
        ensures
            self.spin_limit() == 0 ==> outcome is Err,
    {
        match acquire(&self.map, self.spin_limit) {
            Some(mut guard) => {
                let map = exclusive(&mut guard);
                map.guarded_add_event(event);
                Ok(())
            },
            None => Err(Starved),
        }
    }

    /// Commits the map behind the lock and returns the spent events once the
    /// lock is free again.
    fn settle(&self) -> (spent: Result<VecDeque<E>, Starved>)
        requires
            obeys_key_model::<K>(),
        ensures
            self.spin_limit() == 0 ==> spent is Err,
    {
        match acquire(&self.map, self.spin_limit) {
            Some(mut guard) => {
                let map = exclusive(&mut guard);
                Ok(map.guarded_commit())
            },
            None => Err(Starved),
        }
    }

    /// Shows the readers of the shared map every event that was added: `Ok`
    /// when that is done, `Err`, with nothing changed, when the map's lock
    /// stayed taken for every try that the handle has. The spent events are
    /// dropped after the lock is free again.
    pub fn commit(&self) -> (outcome: Result<(), Starved>)
        requires
            obeys_key_model::<K>(),
        ensures
            self.spin_limit() == 0 ==> outcome is Err,
    {
        match self.settle() {
            Ok(_) => Ok(()),
            Err(starved) => Err(starved),
        }
    }
}

} // verus!

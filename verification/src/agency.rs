//! The registry of topics over one storage.

use vstd::prelude::*;

use crate::storage::{
    answers_read_all, answers_topics, Storage, StorageError, StorageItem, StorageTopic,
};
use crate::topic::{
    consistent, hydrated, published, LoadError, PublishError, TopicCore, TopicLog,
};

verus! {

/// Whether no two topics of a registry share a name.
pub open spec fn distinct_names(topics: Seq<TopicLog>) -> bool {
    forall|i: int, j: int|
        0 <= i < j < topics.len() ==> (#[trigger] topics[i]).name != (#[trigger] topics[j]).name
}

/// Whether a registry holds a topic of this name.
pub open spec fn registered(topics: Seq<TopicLog>, name: Seq<char>) -> bool {
    exists|i: int| 0 <= i < topics.len() && (#[trigger] topics[i]).name == name
}

/// The event lists of a snapshot, one per topic.
pub open spec fn event_lists(events: Seq<Vec<StorageItem>>) -> Seq<Seq<StorageItem>> {
    Seq::new(events.len(), |i: int| events[i]@)
}

/// Whether a snapshot of a store can be loaded: it has one event list per
/// summary, each summary agrees with its events, and no name comes twice.
pub open spec fn loadable(topics: Seq<StorageTopic>, events: Seq<Seq<StorageItem>>) -> bool {
    &&& topics.len() == events.len()
    &&& forall|i: int| 0 <= i < topics.len() ==> consistent(#[trigger] topics[i], events[i])
    &&& forall|i: int, j: int|
        0 <= i < j < topics.len() ==> (#[trigger] topics[i]).name@ != (#[trigger] topics[j]).name@
}

/// The registry that a loadable snapshot describes: one topic per summary, in
/// the snapshot's order.
pub open spec fn loaded(topics: Seq<StorageTopic>, events: Seq<Seq<StorageItem>>) -> Seq<
    TopicLog,
> {
    Seq::new(topics.len(), |i: int| hydrated(topics[i], events[i]))
}

/// Whether a snapshot is what the store answered: its summaries, and for each
/// of them the events of its topic.
pub open spec fn answered<S: Storage>(
    storage: &S,
    topics: Vec<StorageTopic>,
    events: Vec<Vec<StorageItem>>,
) -> bool {
    &&& answers_topics(storage, Ok(topics))
    &&& events@.len() == topics@.len()
    &&& forall|i: int|
        0 <= i < topics@.len() ==> answers_read_all(
            storage,
            (#[trigger] topics@[i]).name@,
            Ok(events@[i]),
        )
}

/// Whether a registry is what a load of this store may build: the store
/// answers a loadable snapshot, and the registry is the one that the snapshot
/// describes.
pub open spec fn loads_to<S: Storage>(storage: &S, registry: Seq<TopicLog>) -> bool {
    exists|topics: Vec<StorageTopic>, events: Vec<Vec<StorageItem>>|
        #![trigger answered(storage, topics, events)]
        answered(storage, topics, events) && loadable(topics@, event_lists(events@)) && registry
            == loaded(topics@, event_lists(events@))
}

/// Whether the store may answer a load with a snapshot that cannot be loaded.
pub open spec fn answers_unloadable<S: Storage>(storage: &S) -> bool {
    exists|topics: Vec<StorageTopic>, events: Vec<Vec<StorageItem>>|
        #![trigger answered(storage, topics, events)]
        answered(storage, topics, events) && !loadable(topics@, event_lists(events@))
}

/// Whether the store may fail a load with this error: when it is asked for
/// its summaries, or, after it has answered them, for the events of one of
/// the topics that it summarized.
pub open spec fn fails_load<S: Storage>(storage: &S, e: StorageError) -> bool {
    answers_topics(storage, Err(e)) || exists|topics: Vec<StorageTopic>, i: int|
        #![trigger answers_read_all(storage, topics@[i].name@, Err(e))]
        answers_topics(storage, Ok(topics)) && 0 <= i < topics@.len() && answers_read_all(
            storage,
            topics@[i].name@,
            Err(e),
        )
}

/// The registry of topics of one process, and the storage they publish to.
/// A topic is known by its position in the registry, which never changes once
/// given.
pub struct Agency<S> {
    storage: S,
    topics: Vec<TopicCore>,
}

impl<S> View for Agency<S> {
    type V = Seq<TopicLog>;

    closed spec fn view(&self) -> Seq<TopicLog> {
        Seq::new(self.topics@.len(), |i: int| self.topics@[i]@)
    }
}

impl<S: Storage> Agency<S> {
    /// The invariant of a registry: every core is well formed and no two
    /// share a name.
    pub closed spec fn wf(&self) -> bool {
        &&& forall|i: int| 0 <= i < self.topics@.len() ==> (#[trigger] self.topics@[i]).wf()
        &&& distinct_names(self@)
    }

    /// Every topic of a well-formed registry has a well-formed log.
    pub proof fn lemma_wf(&self)
        requires
            self.wf(),
        ensures
            distinct_names(self@),
            forall|i: int| 0 <= i < self@.len() ==> (#[trigger] self@[i]).wf(),
    {
        assert forall|i: int| 0 <= i < self@.len() implies (#[trigger] self@[i]).wf() by {
            self.topics@[i].lemma_wf();
        }
    }

    /// Builds the registry from what a store returned: the summaries of its
    /// topics and, for each, its full event list.
    pub fn from_snapshot(
        storage: S,
        topics: &Vec<StorageTopic>,
        events: &Vec<Vec<StorageItem>>,
    ) -> (r: Result<Agency<S>, LoadError>)
        ensures
            r is Ok <==> loadable(topics@, event_lists(events@)),
            r matches Ok(agency) ==> agency.wf() && agency.store() == storage && agency@
                == loaded(topics@, event_lists(events@)),
            r matches Err(e) ==> e == LoadError::Inconsistent,
    {
        if topics.len() != events.len() {
            return Err(LoadError::Inconsistent);
        }
        let mut agency = Agency { storage, topics: Vec::new() };
        let ghost lists = event_lists(events@);
        let mut i: usize = 0;
        while i < topics.len()
            invariant
                topics@.len() == events@.len(),
                lists == event_lists(events@),
                i <= topics@.len(),
                agency.wf(),
                agency.store() == storage,
                agency@.len() == i,
                forall|j: int| 0 <= j < i ==> consistent(#[trigger] topics@[j], lists[j]),
                forall|j: int|
                    0 <= j < i ==> (#[trigger] agency@[j]) == hydrated(topics@[j], lists[j]),
            decreases topics@.len() - i,
        {
            let core = match TopicCore::new(&topics[i], &events[i]) {
                Ok(core) => core,
                Err(_) => {
                    return Err(LoadError::Inconsistent);
                },
            };
            match agency.find(topics[i].name.as_str()) {
                Some(earlier) => {
                    assert(topics@[earlier as int].name@ == topics@[i as int].name@);
                    return Err(LoadError::Inconsistent);
                },
                None => {},
            }
            let ghost before = agency@;
            agency.topics.push(core);
            assert(agency@ =~= before.push(core@));
            i = i + 1;
        }
        assert forall|a: int, b: int| 0 <= a < b < topics@.len() implies (
        #[trigger] topics@[a]).name@ != (#[trigger] topics@[b]).name@ by {
            assert(agency@[a].name != agency@[b].name);
        }
        Ok(agency)
    }

    /// Rehydrates every topic of a store: asks for the summaries, then for
    /// each topic's full event list, and builds the registry from the answers
    /// as [`Agency::from_snapshot`] does. The first failure of the store ends
    /// the load with the store's error.
    pub fn load(storage: S) -> (r: Result<Agency<S>, LoadError>)
        ensures
            match r {
                Ok(agency) => agency.wf() && agency.store() == storage && loads_to(
                    &storage,
                    agency@,
                ),
                Err(LoadError::Inconsistent) => answers_unloadable(&storage),
                Err(LoadError::Storage(e)) => fails_load(&storage, e),
            },
    {
        let topics = match storage.topics() {
            Ok(topics) => topics,
            Err(e) => {
                return Err(LoadError::Storage(e));
            },
        };
        let mut events: Vec<Vec<StorageItem>> = Vec::new();
        let mut i: usize = 0;
        while i < topics.len()
            invariant
                answers_topics(&storage, Ok(topics)),
                i <= topics@.len(),
                events@.len() == i,
                forall|j: int|
                    0 <= j < i ==> answers_read_all(
                        &storage,
                        (#[trigger] topics@[j]).name@,
                        Ok(events@[j]),
                    ),
            decreases topics@.len() - i,
        {
            match storage.read_all(topics[i].name.as_str()) {
                Ok(items) => {
                    events.push(items);
                },
                Err(e) => {
                    assert(answers_read_all(&storage, topics@[i as int].name@, Err(e)));
                    return Err(LoadError::Storage(e));
                },
            }
            i = i + 1;
        }
        assert(answered(&storage, topics, events));
        Agency::from_snapshot(storage, &topics, &events)
    }

    /// The number of topics registered.
    pub fn len(&self) -> (len: usize)
        ensures
            len == self@.len(),
    {
        self.topics.len()
    }

    /// The position of the topic of this name, if it is registered.
    pub fn find(&self, name: &str) -> (r: Option<usize>)
        ensures
            match r {
                Some(index) => index < self@.len() && self@[index as int].name == name@,
                None => !registered(self@, name@),
            },
    {
        let wanted = name.to_owned();
        let mut i: usize = 0;
        while i < self.topics.len()
            invariant
                wanted@ == name@,
                i <= self.topics@.len(),
                forall|j: int| 0 <= j < i ==> (#[trigger] self@[j]).name != name@,
            decreases self.topics@.len() - i,
        {
            if *self.topics[i].name() == wanted {
                return Some(i);
            }
            i = i + 1;
        }
        None
    }

    /// The core at a position of the registry.
    pub fn topic(&self, index: usize) -> (r: Option<&TopicCore>)
        requires
            self.wf(),
        ensures
            match r {
                Some(core) => index < self@.len() && core@ == self@[index as int] && core.wf(),
                None => index >= self@.len(),
            },
    {
        if index < self.topics.len() {
            Some(&self.topics[index])
        } else {
            None
        }
    }

    /// The storage that this registry publishes to.
    pub closed spec fn store(&self) -> S {
        self.storage
    }

    /// The storage that this registry publishes to.
    pub fn storage(&self) -> (storage: &S)
        ensures
            *storage == self.store(),
    {
        &self.storage
    }

    /// Gives up the registry and hands its storage back.
    pub fn into_storage(self) -> (storage: S)
        ensures
            storage == self.store(),
    {
        self.storage
    }

    /// Returns the position of the topic of this name, registering a new,
    /// empty topic at the end of the registry if the name is not known yet.
    pub fn create_topic(&mut self, name: &str) -> (index: usize)
        requires
            old(self).wf(),
        ensures
            final(self).wf(),
            final(self).store() == old(self).store(),
            index < final(self)@.len(),
            final(self)@[index as int].name == name@,
            registered(old(self)@, name@) ==> final(self)@ == old(self)@,
            !registered(old(self)@, name@) ==> final(self)@ == old(self)@.push(
                TopicLog::empty(name@),
            ) && index == old(self)@.len(),
    {
        match self.find(name) {
            Some(index) => index,
            None => {
                let index = self.topics.len();
                let core = TopicCore::empty(name.to_owned());
                self.topics.push(core);
                assert(self@ =~= old(self)@.push(TopicLog::empty(name@)));
                index
            },
        }
    }

    /// Publishes one payload to the topic at a position of the registry, as
    /// [`TopicCore::publish`] does, to the registry's storage. A position
    /// that names no topic is refused before the store is asked.
    pub fn publish(&mut self, index: usize, data: String) -> (r: Result<u64, PublishError>)
        requires
            old(self).wf(),
        ensures
            final(self).wf(),
            index >= old(self)@.len() ==> final(self)@ == old(self)@ && final(self).store() == old(
                self,
            ).store() && r == Err::<u64, PublishError>(PublishError::UnknownTopic),
            index < old(self)@.len() ==> match r {
                Ok(seq) => seq == old(self)@[index as int].next() && final(self)@ == old(
                    self,
                )@.update(index as int, old(self)@[index as int].append(data@)),
                Err(e) => final(self)@ == old(self)@ && (e is Exhausted || e is Storage) && (e
                    is Exhausted <==> old(self)@[index as int].last() == u64::MAX),
            },
            index < old(self)@.len() && old(self)@[index as int].last() == u64::MAX
                ==> final(self).store() == old(self).store(),
            index < old(self)@.len() && old(self)@[index as int].last() < u64::MAX ==> exists|
                store: &mut S,
                name: &str,
                text: &str,
                reply: Result<(), StorageError>,
            |
                {
                    &&& *store == old(self).store() && *final(store) == final(self).store()
                    &&& name@ == old(self)@[index as int].name && text@ == data@
                    &&& #[trigger] call_ensures(
                        S::push,
                        (store, name, old(self)@[index as int].next() as u64, text),
                        reply,
                    )
                    &&& final(self)@ == old(self)@.update(
                        index as int,
                        old(self)@[index as int].attempt(data@, reply is Ok),
                    )
                    &&& r == published(old(self)@[index as int].next() as u64, reply)
                },
    {
        if index >= self.topics.len() {
            return Err(PublishError::UnknownTopic);
        }
        let r = self.topics[index].publish(&mut self.storage, data);
        assert forall|j: int| 0 <= j < self@.len() implies (#[trigger] self@[j]).name == old(
            self,
        )@[j].name && (j != index ==> self@[j] == old(self)@[j]) by {
            assert(j != index ==> self.topics@[j] == old(self).topics@[j]);
        }
        assert(self@ =~= old(self)@.update(index as int, self.topics@[index as int]@));
        r
    }
}

} // verus!

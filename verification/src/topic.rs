//! One topic: its sequence numbers, its replay cache, and the publish step
//! that keeps the two in line with the durable store.

use vstd::prelude::*;

use crate::message::CodecError;
use crate::storage::{payloads, Storage, StorageError, StorageItem, StorageTopic};

verus! {

/// A topic as a mathematical value: its name, the sequence number of its
/// oldest event, and the payloads it holds, oldest first. The event at
/// position `i` of `entries` has sequence number `first + i`, so sequence
/// numbers are contiguous and unique by construction.
#[verifier::ext_equal]
pub struct TopicLog {
    pub name: Seq<char>,
    pub first: int,
    pub entries: Seq<Seq<char>>,
}

impl TopicLog {
    /// The topic that nothing was published to yet.
    pub open spec fn empty(name: Seq<char>) -> TopicLog {
        TopicLog { name, first: 1, entries: Seq::empty() }
    }

    /// The sequence number of the newest event; `first - 1` while there is none.
    pub open spec fn last(self) -> int {
        self.first + self.entries.len() - 1
    }

    /// The sequence number that the next publish is given.
    pub open spec fn next(self) -> int {
        self.last() + 1
    }

    /// Whether an event with this sequence number is held.
    pub open spec fn holds(self, seq: int) -> bool {
        self.first <= seq <= self.last()
    }

    /// The payload stored under a sequence number.
    pub open spec fn get(self, seq: int) -> Option<Seq<char>> {
        if self.holds(seq) {
            Some(self.entries[seq - self.first])
        } else {
            None
        }
    }

    /// The topic after one more payload became durable.
    pub open spec fn append(self, data: Seq<char>) -> TopicLog {
        TopicLog { entries: self.entries.push(data), ..self }
    }

    /// The topic after one publish attempt: the payload is appended when the
    /// store acknowledged it and a sequence number was left for it, and
    /// nothing changes otherwise.
    pub open spec fn attempt(self, data: Seq<char>, acknowledged: bool) -> TopicLog {
        if acknowledged && self.last() < u64::MAX {
            self.append(data)
        } else {
            self
        }
    }

    /// The topic after a run of publish attempts, taken one after the other.
    pub open spec fn run(self, attempts: Seq<(Seq<char>, bool)>) -> TopicLog
        decreases attempts.len(),
    {
        if attempts.len() == 0 {
            self
        } else {
            self.run(attempts.drop_last()).attempt(attempts.last().0, attempts.last().1)
        }
    }

    /// The payloads that a run of publish attempts adds to the topic, in
    /// order: those that the store acknowledged while a sequence number was
    /// left for them.
    pub open spec fn stored(self, attempts: Seq<(Seq<char>, bool)>) -> Seq<Seq<char>>
        decreases attempts.len(),
    {
        if attempts.len() == 0 {
            Seq::empty()
        } else if attempts.last().1 && self.run(attempts.drop_last()).last() < u64::MAX {
            self.stored(attempts.drop_last()).push(attempts.last().0)
        } else {
            self.stored(attempts.drop_last())
        }
    }

    /// Sequence numbers start at 1 and fit the machine's 64 bits.
    pub open spec fn wf(self) -> bool {
        &&& 1 <= self.first
        &&& self.last() <= u64::MAX
    }

    /// However many publishes are attempted on a topic, and whichever of them
    /// succeed, the topic afterwards holds its old events followed by the
    /// payloads of the successful ones in the order of the attempts. The
    /// `k`-th success carries the `k`-th sequence number after the old `last`,
    /// so the numbers held are exactly `first ..= last`, none missing and none
    /// twice; on a new topic they are `1 ..= k` after `k` successes.
    pub proof fn lemma_run_is_gap_free(self, attempts: Seq<(Seq<char>, bool)>)
        requires
            self.wf(),
        ensures
            self.run(attempts).wf(),
            self.run(attempts) == (TopicLog {
                entries: self.entries + self.stored(attempts),
                ..self
            }),
            self.run(attempts).last() == self.last() + self.stored(attempts).len(),
            forall|seq: int|
                self.run(attempts).holds(seq) <==> self.first <= seq <= self.last() + self.stored(
                    attempts,
                ).len(),
            forall|k: int|
                0 <= k < self.stored(attempts).len() ==> self.run(attempts).get(self.next() + k)
                    == Some(#[trigger] self.stored(attempts)[k]),
            forall|seq: int|
                self.holds(seq) ==> self.run(attempts).get(seq) == #[trigger] self.get(seq),
        decreases attempts.len(),
    {
        if attempts.len() > 0 {
            self.lemma_run_is_gap_free(attempts.drop_last());
        }
    }

    /// Publishes that the store acknowledges all enter the topic, in their
    /// order, as long as sequence numbers are left for them.
    pub proof fn lemma_run_of_successes(self, payloads: Seq<Seq<char>>)
        requires
            self.wf(),
            self.last() + payloads.len() <= u64::MAX,
        ensures
            self.run(acknowledged(payloads)).entries == self.entries + payloads,
        decreases payloads.len(),
    {
        let attempts = acknowledged(payloads);
        if payloads.len() > 0 {
            self.lemma_run_of_successes(payloads.drop_last());
            assert(attempts.drop_last() =~= acknowledged(payloads.drop_last()));
            self.lemma_run_is_gap_free(attempts.drop_last());
        }
    }

    /// Attempts made one run after another end as the two runs joined.
    pub proof fn lemma_run_joined(
        self,
        earlier: Seq<(Seq<char>, bool)>,
        later: Seq<(Seq<char>, bool)>,
    )
        ensures
            self.run(earlier + later) == self.run(earlier).run(later),
        decreases later.len(),
    {
        if later.len() > 0 {
            self.lemma_run_joined(earlier, later.drop_last());
            assert((earlier + later).drop_last() =~= earlier + later.drop_last());
        }
    }

    /// A publish that the store refused leaves no trace: the topic is as it
    /// was, `last` included, and whatever is attempted later ends as if the
    /// refused publish had never been tried, so no later replay shows its
    /// payload.
    pub proof fn lemma_refusal_leaves_no_trace(
        self,
        data: Seq<char>,
        later: Seq<(Seq<char>, bool)>,
    )
        ensures
            self.attempt(data, false) == self,
            self.attempt(data, false).last() == self.last(),
            self.run(seq![(data, false)] + later) == self.run(later),
    {
        let refused = seq![(data, false)];
        self.lemma_run_joined(refused, later);
        assert(self.run(refused) == self.run(refused.drop_last()).attempt(data, false));
    }
}

/// The attempts to publish these payloads that the store all acknowledges.
pub open spec fn acknowledged(payloads: Seq<Seq<char>>) -> Seq<(Seq<char>, bool)> {
    Seq::new(payloads.len(), |i: int| (payloads[i], true))
}

/// Whether a summary and a run of events describe one topic: the summary's
/// bounds start at 1 or above, and the events are exactly the sequence
/// numbers from `first` to `last`, ascending and without a gap.
pub open spec fn consistent(topic: StorageTopic, events: Seq<StorageItem>) -> bool {
    &&& 1 <= topic.first
    &&& events.len() == topic.last + 1 - topic.first
    &&& forall|i: int| 0 <= i < events.len() ==> (#[trigger] events[i]).seq == topic.first + i
}

/// The topic that a consistent summary and its events describe.
pub open spec fn hydrated(topic: StorageTopic, events: Seq<StorageItem>) -> TopicLog {
    TopicLog { name: topic.name@, first: topic.first as int, entries: payloads(events) }
}

/// Why a publish stored nothing.
#[derive(Debug, Clone, PartialEq, Eq)]
pub enum PublishError {
    /// The value could not be encoded.
    Encode(CodecError),
    /// The handle names no topic of this registry.
    UnknownTopic,
    /// The topic has used its last sequence number.
    Exhausted,
    /// The store did not acknowledge the write.
    Storage(StorageError),
}

/// What a publish returns once the store has replied, where a sequence number
/// was left for it: the number on an acknowledgement, the store's error on a
/// refusal.
pub open spec fn published(next: u64, reply: Result<(), StorageError>) -> Result<
    u64,
    PublishError,
> {
    match reply {
        Ok(_) => Ok(next),
        Err(e) => Err(PublishError::Storage(e)),
    }
}

/// Why a topic could not be built from what the store returned.
#[derive(Debug, Clone, PartialEq, Eq)]
pub enum LoadError {
    /// The store failed to answer.
    Storage(StorageError),
    /// A summary and its events disagree, or a topic is named twice.
    Inconsistent,
}

/// The in-memory authority of one topic. Exclusive access to the core is the
/// topic's serialization point: one publish runs at a time, from choosing the
/// sequence number to advancing `last`.
pub struct TopicCore {
    name: String,
    first: u64,
    last: u64,
    cache: Vec<String>,
}

impl View for TopicCore {
    type V = TopicLog;

    closed spec fn view(&self) -> TopicLog {
        TopicLog {
            name: self.name@,
            first: self.first as int,
            entries: Seq::new(self.cache@.len(), |i: int| self.cache@[i]@),
        }
    }
}

impl TopicCore {
    /// The invariant of a core: `last` is at least `first - 1`, and the cache
    /// holds every sequence number from `first` to `last`.
    pub closed spec fn wf(&self) -> bool {
        &&& 1 <= self.first
        &&& self.cache@.len() == self.last + 1 - self.first
    }

    /// A well-formed core has a well-formed log.
    pub proof fn lemma_wf(&self)
        requires
            self.wf(),
        ensures
            self@.wf(),
    {
    }

    /// A core for a topic that the store has not seen: `first` is 1, `last` is 0.
    pub fn empty(name: String) -> (core: TopicCore)
        ensures
            core.wf(),
            core@ == TopicLog::empty(name@),
    {
        TopicCore { name, first: 1, last: 0, cache: Vec::new() }
    }

    /// A core hydrated from a topic's summary and its full event list, or
    /// `Inconsistent` where the two do not describe one gap-free topic.
    pub fn new(topic: &StorageTopic, events: &Vec<StorageItem>) -> (r: Result<TopicCore, LoadError>)
        ensures
            r is Ok <==> consistent(*topic, events@),
            r matches Ok(core) ==> core.wf() && core@ == hydrated(*topic, events@),
            r matches Err(e) ==> e == LoadError::Inconsistent,
    {
        if topic.first < 1 || topic.last < topic.first - 1 {
            return Err(LoadError::Inconsistent);
        }
        let span = topic.last - (topic.first - 1);
        let count = events.len();
        if count as u64 != span {
            return Err(LoadError::Inconsistent);
        }
        let mut cache: Vec<String> = Vec::new();
        let mut i: usize = 0;
        while i < count
            invariant
                count == events@.len(),
                count == topic.last + 1 - topic.first,
                i <= count,
                cache@.len() == i,
                forall|j: int| 0 <= j < i ==> (#[trigger] events@[j]).seq == topic.first + j,
                forall|j: int| 0 <= j < i ==> (#[trigger] cache@[j])@ == events@[j].data@,
            decreases count - i,
        {
            if events[i].seq != topic.first + i as u64 {
                return Err(LoadError::Inconsistent);
            }
            cache.push(events[i].data.clone());
            i = i + 1;
        }
        Ok(TopicCore { name: topic.name.clone(), first: topic.first, last: topic.last, cache })
    }

    /// The topic's name.
    pub fn name(&self) -> (name: &String)
        ensures
            name@ == self@.name,
    {
        &self.name
    }

    /// The sequence number of the oldest event.
    pub fn first(&self) -> (first: u64)
        ensures
            first == self@.first,
    {
        self.first
    }

    /// The sequence number of the newest event; `first - 1` while there is none.
    pub fn last(&self) -> (last: u64)
        requires
            self.wf(),
        ensures
            last == self@.last(),
    {
        self.last
    }

    /// The number of events held.
    pub fn len(&self) -> (len: usize)
        ensures
            len == self@.entries.len(),
    {
        self.cache.len()
    }

    /// The payload published under `seq`, from the cache alone.
    pub fn get(&self, seq: u64) -> (r: Option<&String>)
        requires
            self.wf(),
        ensures
            match r {
                Some(data) => self@.get(seq as int) == Some(data@),
                None => self@.get(seq as int) is None,
            },
    {
        if seq < self.first {
            return None;
        }
        let offset = seq - self.first;
        if offset < self.cache.len() as u64 {
            Some(&self.cache[offset as usize])
        } else {
            None
        }
    }

    /// Settles one publish on the store's reply. An acknowledged payload
    /// enters the cache under the next sequence number and `last` advances to
    /// it; after a refusal the core is as it was.
    pub fn commit(&mut self, data: String, reply: Result<(), StorageError>) -> (r: Result<
        u64,
        PublishError,
    >)
        requires
            old(self).wf(),
        ensures
            final(self).wf(),
            final(self)@ == old(self)@.attempt(data@, reply is Ok),
            old(self)@.last() == u64::MAX ==> r == Err::<u64, PublishError>(
                PublishError::Exhausted,
            ),
            old(self)@.last() < u64::MAX ==> r == published(old(self)@.next() as u64, reply),
    {
        if self.last == u64::MAX {
            return Err(PublishError::Exhausted);
        }
        match reply {
            Ok(_) => {
                let next = self.last + 1;
                self.cache.push(data);
                self.last = next;
                Ok(next)
            },
            Err(e) => Err(PublishError::Storage(e)),
        }
    }

    /// Publishes one payload: picks the next sequence number, has the store
    /// make the event durable, and only then lets it show in the cache and in
    /// `last`. The store is asked once, for the topic's name, the number after
    /// `last` and the payload, and the publish ends as its reply says. It is
    /// not asked when no sequence number is left.
    pub fn publish<S: Storage>(&mut self, storage: &mut S, data: String) -> (r: Result<
        u64,
        PublishError,
    >)
        requires
            old(self).wf(),
        ensures
            final(self).wf(),
            match r {
                Ok(seq) => seq == old(self)@.next() && final(self)@ == old(self)@.append(data@),
                Err(e) => final(self)@ == old(self)@ && (e is Exhausted || e is Storage) && (e
                    is Exhausted <==> old(self)@.last() == u64::MAX),
            },
            old(self)@.last() == u64::MAX ==> *final(storage) == *old(storage),
            old(self)@.last() < u64::MAX ==> exists|
                store: &mut S,
                name: &str,
                text: &str,
                reply: Result<(), StorageError>,
            |
                {
                    &&& *store == *old(storage) && *final(store) == *final(storage)
                    &&& name@ == old(self)@.name && text@ == data@
                    &&& #[trigger] call_ensures(
                        S::push,
                        (store, name, old(self)@.next() as u64, text),
                        reply,
                    )
                    &&& final(self)@ == old(self)@.attempt(data@, reply is Ok)
                    &&& r == published(old(self)@.next() as u64, reply)
                },
    {
        if self.last == u64::MAX {
            return Err(PublishError::Exhausted);
        }
        let next = self.last + 1;
        let reply = storage.push(self.name.as_str(), next, data.as_str());
        self.commit(data, reply)
    }

    /// Every event held, oldest first: the walk from `first` up to the first
    /// sequence number that the cache does not hold.
    pub fn replay(&self) -> (events: Vec<StorageItem>)
        requires
            self.wf(),
        ensures
            events@.len() == self@.entries.len(),
            forall|i: int|
                0 <= i < events@.len() ==> (#[trigger] events@[i]).seq == self@.first + i
                    && events@[i].data@ == self@.entries[i],
    {
        let mut events: Vec<StorageItem> = Vec::new();
        let mut seq: u64 = self.first;
        loop
            invariant_except_break
                self@.first <= seq <= self@.last() + 1,
                events@.len() == seq - self@.first,
            invariant
                self.wf(),
                forall|i: int|
                    0 <= i < events@.len() ==> (#[trigger] events@[i]).seq == self@.first + i
                        && events@[i].data@ == self@.entries[i],
            ensures
                events@.len() == self@.entries.len(),
            decreases self@.last() + 1 - seq,
        {
            match self.get(seq) {
                Some(data) => {
                    events.push(StorageItem { seq, data: data.clone() });
                    if seq == u64::MAX {
                        break ;
                    }
                    seq = seq + 1;
                },
                None => {
                    break ;
                },
            }
        }
        events
    }
}

} // verus!

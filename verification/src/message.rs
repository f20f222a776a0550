//! Typed topics: a codec per message type, and the view of a registered
//! topic that publishes and replays values of that type.

use std::marker::PhantomData;
use vstd::prelude::*;

use crate::agency::Agency;
use crate::storage::{Storage, StorageError};
use crate::topic::{acknowledged, published, PublishError, TopicLog};

verus! {

/// A value that a codec could not encode, or a stored text that it could not
/// decode; the message is the codec's.
#[derive(Debug, Clone, PartialEq, Eq)]
pub struct CodecError {
    pub message: String,
}

/// A type whose values can be published: it can be encoded to text and
/// decoded from it. The log stores the encoded form only.
pub trait Message: Sized {
    /// The text that stands for this value in the log.
    fn encode(&self) -> Result<String, CodecError>;

    /// The value that a stored text stands for.
    fn decode(text: &String) -> Result<Self, CodecError>;
}

/// Whether `outcome` is what the codec of `M` may return for this value.
pub open spec fn encodes<M: Message>(value: &M, outcome: Result<String, CodecError>) -> bool {
    call_ensures(M::encode, (value,), outcome)
}

/// Whether `outcome` is what the codec of `M` may return for this stored text.
pub open spec fn decodes<M: Message>(text: Seq<char>, outcome: Result<M, CodecError>) -> bool {
    exists|stored: String| stored@ == text && call_ensures(M::decode, (&stored,), outcome)
}

/// A typed view of one registered topic. It holds the topic's position in
/// the registry and the type of its messages, and no state of its own.
#[verifier::reject_recursive_types(M)]
pub struct Topic<M> {
    index: usize,
    marker: PhantomData<M>,
}

impl<M: Message> Topic<M> {
    /// The view of the topic at this position of a registry.
    pub fn new(index: usize) -> (topic: Topic<M>)
        ensures
            topic.index() == index,
    {
        Topic { index, marker: PhantomData }
    }

    /// The position of the topic in its registry.
    pub closed spec fn index(&self) -> usize {
        self.index
    }

    /// The position of the topic in its registry.
    #[verifier::when_used_as_spec(index)]
    pub fn position(&self) -> (index: usize)
        ensures
            index == self.index(),
    {
        self.index
    }

    /// Encodes a value and publishes the text. A value that does not encode
    /// is reported as `Encode` before the store is asked; an encoded value is
    /// published as by [`Agency::publish`].
    pub fn publish<S: Storage>(&self, agency: &mut Agency<S>, value: &M) -> (r: Result<
        u64,
        PublishError,
    >)
        requires
            old(agency).wf(),
        ensures
            final(agency).wf(),
            r matches Err(PublishError::Encode(e)) ==> encodes(value, Err(e)) && final(agency)@
                == old(agency)@,
            r matches Err(PublishError::UnknownTopic) ==> self.index() >= old(agency)@.len()
                && final(agency)@ == old(agency)@,
            r matches Err(PublishError::Exhausted) ==> self.index() < old(agency)@.len() && old(
                agency,
            )@[self.index() as int].last() == u64::MAX && final(agency)@ == old(agency)@,
            r matches Err(PublishError::Storage(_)) ==> self.index() < old(agency)@.len()
                && final(agency)@ == old(agency)@,
            r matches Ok(seq) ==> self.index() < old(agency)@.len() && seq == old(
                agency,
            )@[self.index() as int].next() && exists|text: String|
                encodes(value, Ok(text)) && final(agency)@ == old(agency)@.update(
                    self.index() as int,
                    old(agency)@[self.index() as int].append(text@),
                ),
            (r is Ok || r matches Err(PublishError::Storage(_))) ==> exists|
                text: String,
                store: &mut S,
                name: &str,
                sent: &str,
                reply: Result<(), StorageError>,
            |
                {
                    &&& #[trigger] encodes(value, Ok(text))
                    &&& *store == old(agency).store() && *final(store) == final(agency).store()
                    &&& name@ == old(agency)@[self.index() as int].name && sent@ == text@
                    &&& #[trigger] call_ensures(
                        S::push,
                        (store, name, old(agency)@[self.index() as int].next() as u64, sent),
                        reply,
                    )
                    &&& r == published(old(agency)@[self.index() as int].next() as u64, reply)
                },
            !(r is Ok || r matches Err(PublishError::Storage(_))) ==> final(agency).store() == old(
                agency,
            ).store(),
    {
        match value.encode() {
            Ok(text) => {
                let ghost encoded = text;
                let r = agency.publish(self.index, text);
                proof {
                    old(agency).lemma_wf();
                    assert(encodes(value, Ok(encoded)));
                }
                r
            },
            Err(e) => Err(PublishError::Encode(e)),
        }
    }

    /// Starts a replay at the topic's first event. The replay is lazy: it
    /// reads the topic one event at a time, as it is asked to. Subscribing
    /// again starts over.
    pub fn subscribe(&self) -> (replay: Subscription<M>)
        ensures
            replay.index() == self.index(),
            replay.seen() == 0,
    {
        Subscription { index: self.index, seen: 0, marker: PhantomData }
    }
}

/// A replay of one topic in progress. It walks the topic from its first
/// event and stops at the first sequence number that the topic does not hold
/// yet; asked again after more was published, it goes on from there.
#[verifier::reject_recursive_types(M)]
pub struct Subscription<M> {
    index: usize,
    seen: u64,
    marker: PhantomData<M>,
}

/// Whether `items` are the decodings of the events of a topic from the
/// `seen`-th on, one per stored text, in the order of their sequence numbers.
pub open spec fn replays<M: Message>(
    topic: TopicLog,
    seen: int,
    items: Seq<Result<M, CodecError>>,
) -> bool {
    &&& items.len() == if seen < topic.entries.len() {
        topic.entries.len() - seen
    } else {
        0
    }
    &&& forall|i: int|
        0 <= i < items.len() ==> decodes(topic.entries[seen + i], #[trigger] items[i])
}

impl<M: Message> Subscription<M> {
    /// The position in the registry of the topic that is replayed.
    pub closed spec fn index(&self) -> usize {
        self.index
    }

    /// The number of events that the replay has yielded.
    pub closed spec fn seen(&self) -> u64 {
        self.seen
    }

    /// The number of events that the replay has yielded.
    #[verifier::when_used_as_spec(seen)]
    pub fn yielded(&self) -> (seen: u64)
        ensures
            seen == self.seen(),
    {
        self.seen
    }

    /// The decoding of the next event, or `None` where the topic holds no
    /// further event or the registry no such topic. A text that does not
    /// decode yields its error and counts as read.
    pub fn next<S: Storage>(&mut self, agency: &Agency<S>) -> (item: Option<Result<M, CodecError>>)
        requires
            agency.wf(),
        ensures
            final(self).index() == old(self).index(),
            match item {
                Some(outcome) => {
                    &&& old(self).index() < agency@.len()
                    &&& old(self).seen() < agency@[old(self).index() as int].entries.len()
                    &&& decodes(
                        agency@[old(self).index() as int].entries[old(self).seen() as int],
                        outcome,
                    )
                    &&& final(self).seen() == old(self).seen() + 1
                },
                None => {
                    &&& final(self).seen() == old(self).seen()
                    &&& old(self).index() < agency@.len() ==> old(self).seen() >= agency@[old(
                        self,
                    ).index() as int].entries.len()
                },
            },
    {
        let core = match agency.topic(self.index) {
            Some(core) => core,
            None => {
                return None;
            },
        };
        proof {
            core.lemma_wf();
        }
        let first = core.first();
        let last = core.last();
        if last < first || self.seen > last - first {
            return None;
        }
        match core.get(first + self.seen) {
            Some(text) => {
                let outcome = M::decode(text);
                self.seen = self.seen + 1;
                Some(outcome)
            },
            None => None,
        }
    }

    /// Every item from here to the end of what the topic holds now, oldest
    /// first. A text that does not decode yields its error in its place and
    /// does not end the replay.
    pub fn rest<S: Storage>(&mut self, agency: &Agency<S>) -> (items: Vec<Result<M, CodecError>>)
        requires
            agency.wf(),
        ensures
            final(self).index() == old(self).index(),
            final(self).seen() == old(self).seen() + items@.len(),
            old(self).index() >= agency@.len() ==> items@.len() == 0,
            old(self).index() < agency@.len() ==> replays(
                agency@[old(self).index() as int],
                old(self).seen() as int,
                items@,
            ),
    {
        let mut items: Vec<Result<M, CodecError>> = Vec::new();
        let ghost start = self.seen as int;
        loop
            invariant
                agency.wf(),
                self.index() == old(self).index(),
                start == old(self).seen(),
                self.seen() == start + items@.len(),
                self.index() < agency@.len() ==> forall|i: int|
                    0 <= i < items@.len() ==> decodes(
                        agency@[self.index() as int].entries[start + i],
                        #[trigger] items@[i],
                    ),
                self.index() >= agency@.len() ==> items@.len() == 0,
                items@.len() > 0 ==> self.seen() <= agency@[self.index() as int].entries.len(),
            ensures
                self.index() < agency@.len() ==> self.seen()
                    >= agency@[self.index() as int].entries.len(),
            decreases agency@[self.index() as int].entries.len() - self.seen(),
        {
            match self.next(agency) {
                Some(outcome) => {
                    items.push(outcome);
                },
                None => {
                    break ;
                },
            }
        }
        items
    }
}

/// Whether the codec of `M` reads back what it wrote: a text that a value
/// was encoded to decodes to that value and to nothing else.
pub open spec fn faithful<M: Message>() -> bool {
    forall|value: &M, text: String, outcome: Result<M, CodecError>|
        #![trigger encodes(value, Ok(text)), decodes(text@, outcome)]
        encodes(value, Ok(text)) && decodes(text@, outcome) ==> outcome == Ok::<M, CodecError>(
            *value,
        )
}

/// The texts of a run of strings.
pub open spec fn texts_of(texts: Seq<String>) -> Seq<Seq<char>> {
    Seq::new(texts.len(), |i: int| texts[i]@)
}

/// After `M` successful publishes to a new topic, a replay from the start
/// yields exactly `M` items, in the order of the publishes, each the decoding
/// of the text that its value was encoded to; where the codec reads back what
/// it wrote, each item is the value that was published.
pub proof fn lemma_replay_yields_what_was_published<M: Message>(
    name: Seq<char>,
    values: Seq<M>,
    texts: Seq<String>,
    items: Seq<Result<M, CodecError>>,
)
    requires
        values.len() <= u64::MAX,
        texts.len() == values.len(),
        forall|k: int| 0 <= k < values.len() ==> encodes(&#[trigger] values[k], Ok(texts[k])),
        replays(TopicLog::empty(name).run(acknowledged(texts_of(texts))), 0, items),
    ensures
        items.len() == values.len(),
        forall|k: int| 0 <= k < items.len() ==> decodes(texts[k]@, #[trigger] items[k]),
        faithful::<M>() ==> forall|k: int|
            0 <= k < items.len() ==> #[trigger] items[k] == Ok::<M, CodecError>(values[k]),
{
    TopicLog::empty(name).lemma_run_of_successes(texts_of(texts));
}

} // verus!

//! The storage boundary: the records a backend keeps, the errors it reports,
//! and the capability interface every backend offers.

use vstd::prelude::*;

verus! {

/// One durable event of a topic: its sequence number and its encoded payload.
#[derive(Debug, Clone, PartialEq, Eq)]
pub struct StorageItem {
    pub seq: u64,
    pub data: String,
}

/// The summary a backend keeps of one topic: its name and the lowest and
/// highest sequence numbers it holds for it.
#[derive(Debug, Clone, PartialEq, Eq)]
pub struct StorageTopic {
    pub name: String,
    pub first: u64,
    pub last: u64,
}

/// Why a storage call failed.
#[derive(Debug, Clone, Copy, PartialEq, Eq, Structural)]
pub enum StorageErrorKind {
    /// The backend ran the operation and reported a failure.
    Failed,
    /// The backend worker is gone: the request or its reply was dropped.
    Unavailable,
}

/// A failed storage call: its kind, and the backend's message where it gave one.
#[derive(Debug, Clone, PartialEq, Eq)]
pub struct StorageError {
    pub kind: StorageErrorKind,
    pub message: String,
}

impl StorageError {
    /// A failure that the backend reported, with its message.
    pub fn failed(message: String) -> (e: StorageError)
        ensures
            e.kind == StorageErrorKind::Failed,
            e.message == message,
    {
        StorageError { kind: StorageErrorKind::Failed, message }
    }

    /// The error of a call that never reached the backend, or whose reply
    /// never came back.
    pub fn unavailable() -> (e: StorageError)
        ensures
            e.kind == StorageErrorKind::Unavailable,
            e.message@ == "storage backend unavailable"@,
    {
        StorageError {
            kind: StorageErrorKind::Unavailable,
            message: "storage backend unavailable".to_owned(),
        }
    }

    /// Whether the backend was out of reach, as opposed to reporting a failure.
    pub fn is_unavailable(&self) -> (b: bool)
        ensures
            b == (self.kind == StorageErrorKind::Unavailable),
    {
        match self.kind {
            StorageErrorKind::Unavailable => true,
            StorageErrorKind::Failed => false,
        }
    }
}

/// The sequence number that a backend holds as a signed number: the number
/// itself, or a failure where it is negative, which no sequence number is.
pub fn stored_sequence(stored: i64) -> (r: Result<u64, StorageError>)
    ensures
        match r {
            Ok(seq) => 0 <= stored && seq == stored,
            Err(e) => stored < 0 && e.kind == StorageErrorKind::Failed && e.message@
                == "the store holds a negative sequence number"@,
        },
{
    if stored < 0 {
        Err(StorageError::failed("the store holds a negative sequence number".to_owned()))
    } else {
        Ok(stored as u64)
    }
}

/// The signed number under which a backend that counts in signed 64 bits
/// holds a sequence number: the number itself, or a failure where it is
/// beyond that range.
pub fn storable_sequence(seq: u64) -> (r: Result<i64, StorageError>)
    ensures
        match r {
            Ok(stored) => seq <= i64::MAX && stored == seq,
            Err(e) => seq > i64::MAX && e.kind == StorageErrorKind::Failed && e.message@
                == "the sequence number is too large to store"@,
        },
{
    if seq > 0x7fff_ffff_ffff_ffff {
        Err(StorageError::failed("the sequence number is too large to store".to_owned()))
    } else {
        Ok(seq as i64)
    }
}

/// What a persistence backend can do. Sequence numbers are chosen by the
/// caller; a backend stores what it is given and invents no ordering.
pub trait Storage {
    /// The summary of every topic that holds at least one event.
    fn topics(&self) -> Result<Vec<StorageTopic>, StorageError>;

    /// Appends one event. The event is durable when this returns `Ok`.
    fn push(&mut self, topic: &str, seq: u64, data: &str) -> Result<(), StorageError>;

    /// Every event of one topic, by ascending sequence number.
    fn read_all(&self, topic: &str) -> Result<Vec<StorageItem>, StorageError>;
}

/// Whether `answer` is what the store may return when it is asked for its
/// summaries.
pub open spec fn answers_topics<S: Storage>(
    storage: &S,
    answer: Result<Vec<StorageTopic>, StorageError>,
) -> bool {
    call_ensures(S::topics, (storage,), answer)
}

/// Whether `answer` is what the store may return when it is asked for the
/// events of the topic of this name.
pub open spec fn answers_read_all<S: Storage>(
    storage: &S,
    topic: Seq<char>,
    answer: Result<Vec<StorageItem>, StorageError>,
) -> bool {
    exists|name: &str| name@ == topic && call_ensures(S::read_all, (storage, name), answer)
}

/// The payloads of a run of events, in order.
pub open spec fn payloads(events: Seq<StorageItem>) -> Seq<Seq<char>> {
    Seq::new(events.len(), |i: int| events[i].data@)
}

} // verus!

//! An in-process event log with pluggable storage, and the actor runtime that
//! drives it.
//!
//! Named topics receive strictly ordered, append-only messages. A
//! [`TopicCore`] owns the sequencing and the replay cache of one topic, an
//! [`Agency`] is the registry of all topics over one storage, and a
//! [`Topic`] is a typed view of one registered topic. The storage is any
//! [`Storage`]: the in-memory [`MemoryStore`], or a [`StoragePort`] that
//! reaches a backend worker by request and reply.
//!
//! The actor runtime turns a [`State`] into a [`StateAgent`] that is fed
//! through a mailbox: a bounded inbound queue paired with a multicast
//! outbound stream. [`Todo`] is such a state: a to-do list that is the fold
//! of its topic.
//!
//! Everything here runs on the calling thread. Exclusive access to a core or
//! to a registry stands for the lock that a program with several publishers
//! puts around it.
//!
//! What holds of the log whatever is published is stated as proof functions:
//! sequence numbers without a gap or a duplicate and a refused publish that
//! leaves no trace in [`topic`], replays that yield what was published in
//! [`message`], and the store in step with the cache, and loads that can be
//! repeated, in [`durable`].

pub mod agency;
pub mod agent;
pub mod durable;
pub mod handle;
pub mod memory;
pub mod message;
pub mod port;
pub mod storage;
pub mod todo;
pub mod topic;

pub use agency::Agency;
pub use agent::{State, StateAgent};
pub use handle::{
    handle, Context, Handle, ReadError, ReadHandle, TryError, TryWriteError, WriteError,
    WriteHandle,
};
pub use memory::MemoryStore;
pub use message::{CodecError, Message, Subscription, Topic};
pub use port::{
    answer, serve, settle, Pending, StorageInput, StorageOutput, StoragePort, StorageReply,
};
pub use storage::{
    storable_sequence, stored_sequence, Storage, StorageError, StorageErrorKind, StorageItem,
    StorageTopic,
};
pub use todo::{Todo, TodoEvent, TodoInput, TodoOutput};
pub use topic::{LoadError, PublishError, TopicCore, TopicLog};

//! The storage port: a request/reply facade over a backend that one worker
//! owns.
//!
//! A caller puts a request into the worker's mailbox, each request carrying
//! the sending half of a single-use reply channel, and waits on the receiving
//! half. The worker takes one request at a time, runs it on the backend, and
//! sends the result back. A reply channel that is dropped unanswered means
//! that the worker is gone, and is reported as such.

use vstd::prelude::*;

use crate::handle::{WriteError, WriteHandle};
use crate::storage::{Storage, StorageError, StorageErrorKind, StorageItem, StorageTopic};

verus! {

/// `tokio::sync::oneshot::Sender`: the sending half of a channel that
/// carries one value. Opaque here.
#[verifier::external_type_specification]
#[verifier::external_body]
#[verifier::reject_recursive_types(T)]
pub struct ExReplySender<T>(tokio::sync::oneshot::Sender<T>);

/// `tokio::sync::oneshot::Receiver`: the receiving half of a channel that
/// carries one value. Opaque here.
#[verifier::external_type_specification]
#[verifier::external_body]
#[verifier::reject_recursive_types(T)]
pub struct ExReplyReceiver<T>(tokio::sync::oneshot::Receiver<T>);

/// `tokio::sync::oneshot::error::RecvError`: what the receiving half yields
/// when the sending half was dropped. Opaque here. No signature of this
/// library holds it; it is declared because Verus reads the receiving half's
/// impl of `Future`, whose output names it, and refuses the receiving half
/// without it.
#[verifier::external_type_specification]
#[verifier::external_body]
pub struct ExReplyDropped(tokio::sync::oneshot::error::RecvError);

/// A request to the storage worker, with the channel to answer it on.
pub enum StorageInput {
    /// Asks for the summary of every topic.
    Topics(tokio::sync::oneshot::Sender<Result<Vec<StorageTopic>, StorageError>>),
    /// Asks to append the payload to the topic under the sequence number.
    Push(String, u64, String, tokio::sync::oneshot::Sender<Result<(), StorageError>>),
    /// Asks for every event of the topic, by ascending sequence number.
    ReadAll(String, tokio::sync::oneshot::Sender<Result<Vec<StorageItem>, StorageError>>),
}

/// What the storage worker broadcasts to whoever reads its mailbox.
#[derive(Debug, Clone)]
pub enum StorageOutput {
    /// The backend could not be opened; the worker has stopped.
    Error(StorageError),
}

/// `tokio::sync::oneshot::channel`: makes the two halves of a channel that
/// carries one value.
#[verifier::external_body]
fn reply_channel<T>() -> (halves: (
    tokio::sync::oneshot::Sender<T>,
    tokio::sync::oneshot::Receiver<T>,
)) {
    tokio::sync::oneshot::channel()
}

/// `tokio::sync::oneshot::Sender::send`: hands the value to the receiving
/// half, without blocking. Claimed: if the receiving half is gone, the error
/// holds the very value that was passed in.
#[verifier::external_body]
fn reply_send<T>(sender: tokio::sync::oneshot::Sender<T>, value: T) -> (r: Result<(), T>)
    ensures
        r matches Err(back) ==> back == value,
{
    sender.send(value)
}

/// `futures_lite::future::block_on`, on the receiving half of a
/// `tokio::sync::oneshot` channel: blocks the thread until the value was sent
/// or the sending half was dropped; `None` stands for the latter.
#[verifier::external_body]
fn reply_wait<T>(receiver: tokio::sync::oneshot::Receiver<T>) -> (r: Option<T>) {
    match futures_lite::future::block_on(receiver) {
        Ok(value) => Some(value),
        Err(_) => None,
    }
}

/// Whether the two are the halves of one reply channel: what
/// `tokio::sync::oneshot::channel` may return.
pub closed spec fn reply_paired<T>(
    sender: tokio::sync::oneshot::Sender<T>,
    receiver: tokio::sync::oneshot::Receiver<T>,
) -> bool {
    call_ensures(reply_channel::<T>, (), (sender, receiver))
}

/// Whether `sent` is what may come of handing `value` to this sending half:
/// what `tokio::sync::oneshot::Sender::send` may return.
pub closed spec fn reply_handed<T>(
    sender: tokio::sync::oneshot::Sender<T>,
    value: T,
    sent: Result<(), T>,
) -> bool {
    call_ensures(reply_send::<T>, (sender, value), sent)
}

/// Whether `reply` is what may come of waiting on this receiving half: the
/// value that was sent, or `None` where the sending half was dropped.
pub closed spec fn reply_brought<T>(
    receiver: tokio::sync::oneshot::Receiver<T>,
    reply: Option<T>,
) -> bool {
    call_ensures(reply_wait::<T>, (receiver,), reply)
}

/// Whether an error is the one that reports a worker out of reach.
pub open spec fn gone(e: StorageError) -> bool {
    e.kind == StorageErrorKind::Unavailable && e.message@ == "storage backend unavailable"@
}

/// What a caller makes of the end of a round trip: the worker's answer where
/// one came, and `Unavailable` where the reply channel was dropped unanswered.
pub fn settle<T>(reply: Option<Result<T, StorageError>>) -> (r: Result<T, StorageError>)
    ensures
        match reply {
            Some(answer) => r == answer,
            None => r matches Err(e) && gone(e),
        },
{
    match reply {
        Some(answer) => answer,
        None => Err(StorageError::unavailable()),
    }
}

/// A reply that is still to come: the receiving half of the reply channel of
/// one request.
#[verifier::reject_recursive_types(T)]
pub struct Pending<T> {
    reply: tokio::sync::oneshot::Receiver<Result<T, StorageError>>,
}

impl<T> Pending<T> {
    /// The receiving half that the reply comes on.
    pub closed spec fn receiver(&self) -> tokio::sync::oneshot::Receiver<Result<T, StorageError>> {
        self.reply
    }

    /// Blocks until the worker has answered, and returns its answer, or
    /// `Unavailable` if the worker dropped the request unanswered: what
    /// [`settle`] makes of what the receiving half brings.
    pub fn wait(self) -> (r: Result<T, StorageError>)
        ensures
            exists|reply: Option<Result<T, StorageError>>|
                {
                    &&& #[trigger] reply_brought(self.receiver(), reply)
                    &&& match reply {
                        Some(answer) => r == answer,
                        None => r matches Err(e) && gone(e),
                    }
                },
    {
        let reply = reply_wait(self.reply);
        assert(reply_brought(self.receiver(), reply));
        settle(reply)
    }
}

/// The callers' end of the storage port. Every port made from one by
/// [`StoragePort::another`] reaches the same worker.
pub struct StoragePort {
    requests: WriteHandle<StorageInput>,
}

impl StoragePort {
    /// A port that sends its requests through this write side of the
    /// worker's mailbox.
    pub fn new(requests: WriteHandle<StorageInput>) -> (port: StoragePort)
        ensures
            port.requests() == requests,
    {
        StoragePort { requests }
    }

    /// The write side that the port sends its requests through.
    pub closed spec fn requests(&self) -> WriteHandle<StorageInput> {
        self.requests
    }

    /// Another port to the same worker: it sends its requests through the
    /// write side that this port sends them through.
    pub fn another(&self) -> (port: StoragePort)
        ensures
            port.requests() == self.requests(),
    {
        StoragePort { requests: self.requests.new_writer() }
    }

    /// Sends the request for the summaries, waiting for room in the worker's
    /// mailbox, and returns the reply to wait for. The port's write side is
    /// handed one `Topics` request, and the reply is owed exactly when it
    /// took the request: the receiving half of the request's own reply
    /// channel. `Unavailable` means that the mailbox is closed.
    pub fn request_topics(&self) -> (r: Result<Pending<Vec<StorageTopic>>, StorageError>)
        ensures
            r matches Err(e) ==> gone(e),
            exists|request: StorageInput, written: Result<(), WriteError<StorageInput>>|
                {
                    &&& request is Topics
                    &&& #[trigger] call_ensures(
                        WriteHandle::<StorageInput>::write_blocking,
                        (&self.requests(), request),
                        written,
                    )
                    &&& r is Ok <==> written is Ok
                    &&& r matches Ok(pending) ==> reply_paired(
                        request->Topics_0,
                        pending.receiver(),
                    )
                },
    {
        let (answer_to, reply) = reply_channel();
        assert(reply_paired(answer_to, reply));
        let request = StorageInput::Topics(answer_to);
        let ghost sent = request;
        let written = self.requests.write_blocking(request);
        assert(call_ensures(
            WriteHandle::<StorageInput>::write_blocking,
            (&self.requests(), sent),
            written,
        ));
        match written {
            Ok(_) => Ok(Pending { reply }),
            Err(_) => Err(StorageError::unavailable()),
        }
    }

    /// Sends the request to append one event, waiting for room in the
    /// worker's mailbox, and returns the reply to wait for. The port's write
    /// side is handed one `Push` request with this topic, number and payload,
    /// and the reply is owed exactly when it took the request: the receiving
    /// half of the request's own reply channel. `Unavailable` means that the
    /// mailbox is closed.
    pub fn request_push(&self, topic: &str, seq: u64, data: &str) -> (r: Result<
        Pending<()>,
        StorageError,
    >)
        ensures
            r matches Err(e) ==> gone(e),
            exists|request: StorageInput, written: Result<(), WriteError<StorageInput>>|
                {
                    &&& request matches StorageInput::Push(name, number, text, _) && name@
                        == topic@ && number == seq && text@ == data@
                    &&& #[trigger] call_ensures(
                        WriteHandle::<StorageInput>::write_blocking,
                        (&self.requests(), request),
                        written,
                    )
                    &&& r is Ok <==> written is Ok
                    &&& r matches Ok(pending) ==> reply_paired(
                        request->Push_3,
                        pending.receiver(),
                    )
                },
    {
        let (answer_to, reply) = reply_channel();
        assert(reply_paired(answer_to, reply));
        let request = StorageInput::Push(topic.to_owned(), seq, data.to_owned(), answer_to);
        let ghost sent = request;
        let written = self.requests.write_blocking(request);
        assert(call_ensures(
            WriteHandle::<StorageInput>::write_blocking,
            (&self.requests(), sent),
            written,
        ));
        match written {
            Ok(_) => Ok(Pending { reply }),
            Err(_) => Err(StorageError::unavailable()),
        }
    }

    /// Sends the request for the events of one topic, waiting for room in
    /// the worker's mailbox, and returns the reply to wait for. The port's
    /// write side is handed one `ReadAll` request for this topic, and the
    /// reply is owed exactly when it took the request: the receiving half of
    /// the request's own reply channel. `Unavailable` means that the mailbox
    /// is closed.
    pub fn request_read_all(&self, topic: &str) -> (r: Result<
        Pending<Vec<StorageItem>>,
        StorageError,
    >)
        ensures
            r matches Err(e) ==> gone(e),
            exists|request: StorageInput, written: Result<(), WriteError<StorageInput>>|
                {
                    &&& request matches StorageInput::ReadAll(name, _) && name@ == topic@
                    &&& #[trigger] call_ensures(
                        WriteHandle::<StorageInput>::write_blocking,
                        (&self.requests(), request),
                        written,
                    )
                    &&& r is Ok <==> written is Ok
                    &&& r matches Ok(pending) ==> reply_paired(
                        request->ReadAll_1,
                        pending.receiver(),
                    )
                },
    {
        let (answer_to, reply) = reply_channel();
        assert(reply_paired(answer_to, reply));
        let request = StorageInput::ReadAll(topic.to_owned(), answer_to);
        let ghost sent = request;
        let written = self.requests.write_blocking(request);
        assert(call_ensures(
            WriteHandle::<StorageInput>::write_blocking,
            (&self.requests(), sent),
            written,
        ));
        match written {
            Ok(_) => Ok(Pending { reply }),
            Err(_) => Err(StorageError::unavailable()),
        }
    }
}

impl Storage for StoragePort {
    /// Asks the worker for the summaries and waits for its answer: the
    /// outcome of [`StoragePort::request_topics`] where that fails, and of
    /// [`Pending::wait`] on its reply where it succeeds.
    fn topics(&self) -> (r: Result<Vec<StorageTopic>, StorageError>)
        ensures
            exists|asked: Result<Pending<Vec<StorageTopic>>, StorageError>|
                {
                    &&& #[trigger] call_ensures(StoragePort::request_topics, (self,), asked)
                    &&& match asked {
                        Ok(pending) => call_ensures(
                            Pending::<Vec<StorageTopic>>::wait,
                            (pending,),
                            r,
                        ),
                        Err(e) => r == Err::<Vec<StorageTopic>, StorageError>(e),
                    }
                },
    {
        match self.request_topics() {
            Ok(pending) => pending.wait(),
            Err(e) => Err(e),
        }
    }

    /// Asks the worker to append one event and waits for its
    /// acknowledgement: the outcome of [`StoragePort::request_push`] where
    /// that fails, and of [`Pending::wait`] on its reply where it succeeds.
    /// The port stays as it is.
    fn push(&mut self, topic: &str, seq: u64, data: &str) -> (r: Result<(), StorageError>)
        ensures
            *final(self) == *old(self),
            exists|asked: Result<Pending<()>, StorageError>|
                {
                    &&& #[trigger] call_ensures(
                        StoragePort::request_push,
                        (&*old(self), topic, seq, data),
                        asked,
                    )
                    &&& match asked {
                        Ok(pending) => call_ensures(Pending::<()>::wait, (pending,), r),
                        Err(e) => r == Err::<(), StorageError>(e),
                    }
                },
    {
        match self.request_push(topic, seq, data) {
            Ok(pending) => pending.wait(),
            Err(e) => Err(e),
        }
    }

    /// Asks the worker for the events of one topic and waits for its answer:
    /// the outcome of [`StoragePort::request_read_all`] where that fails, and
    /// of [`Pending::wait`] on its reply where it succeeds.
    fn read_all(&self, topic: &str) -> (r: Result<Vec<StorageItem>, StorageError>)
        ensures
            exists|asked: Result<Pending<Vec<StorageItem>>, StorageError>|
                {
                    &&& #[trigger] call_ensures(
                        StoragePort::request_read_all,
                        (self, topic),
                        asked,
                    )
                    &&& match asked {
                        Ok(pending) => call_ensures(
                            Pending::<Vec<StorageItem>>::wait,
                            (pending,),
                            r,
                        ),
                        Err(e) => r == Err::<Vec<StorageItem>, StorageError>(e),
                    }
                },
    {
        match self.request_read_all(topic) {
            Ok(pending) => pending.wait(),
            Err(e) => Err(e),
        }
    }
}

/// What the backend answered to one request, by the kind of the request.
#[derive(Debug, PartialEq, Eq)]
pub enum StorageReply {
    /// The answer to a `Topics` request.
    Topics(Result<Vec<StorageTopic>, StorageError>),
    /// The answer to a `Push` request.
    Pushed(Result<(), StorageError>),
    /// The answer to a `ReadAll` request.
    Events(Result<Vec<StorageItem>, StorageError>),
}

/// Runs one request on the backend and returns what the backend answered.
/// The backend is asked once, with the request's own values: for its
/// summaries, to append the event, or for the events of the topic. The two
/// reads leave the backend as it is.
pub fn answer<B: Storage>(backend: &mut B, request: &StorageInput) -> (reply: StorageReply)
    ensures
        match *request {
            StorageInput::Topics(_) => {
                &&& *final(backend) == *old(backend)
                &&& reply matches StorageReply::Topics(answer)
                &&& call_ensures(B::topics, (&*old(backend),), answer)
            },
            StorageInput::Push(topic, seq, data, _) => {
                &&& reply matches StorageReply::Pushed(answer)
                &&& exists|store: &mut B, name: &str, text: &str|
                    {
                        &&& *store == *old(backend) && *final(store) == *final(backend)
                        &&& name@ == topic@ && text@ == data@
                        &&& #[trigger] call_ensures(B::push, (store, name, seq, text), answer)
                    }
            },
            StorageInput::ReadAll(topic, _) => {
                &&& *final(backend) == *old(backend)
                &&& reply matches StorageReply::Events(answer)
                &&& exists|name: &str|
                    name@ == topic@ && #[trigger] call_ensures(
                        B::read_all,
                        (&*old(backend), name),
                        answer,
                    )
            },
        },
{
    match request {
        StorageInput::Topics(_) => StorageReply::Topics(backend.topics()),
        StorageInput::Push(topic, seq, data, _) => StorageReply::Pushed(
            backend.push(topic.as_str(), *seq, data.as_str()),
        ),
        StorageInput::ReadAll(topic, _) => StorageReply::Events(backend.read_all(topic.as_str())),
    }
}

/// The worker's part of one round trip: has the backend answer the request,
/// as [`answer`] does, and hands that answer to the sending half of the
/// request's own reply channel. Returns whether the channel took it: `false`
/// says that the caller had gone away.
pub fn serve<B: Storage>(backend: &mut B, request: StorageInput) -> (delivered: bool)
    ensures
        match request {
            StorageInput::Topics(answer_to) => *final(backend) == *old(backend) && exists|
                answer: Result<Vec<StorageTopic>, StorageError>,
                sent: Result<(), Result<Vec<StorageTopic>, StorageError>>,
            |
                {
                    &&& call_ensures(B::topics, (&*old(backend),), answer)
                    &&& #[trigger] reply_handed(answer_to, answer, sent)
                    &&& delivered == (sent is Ok)
                },
            StorageInput::Push(topic, seq, data, answer_to) => exists|
                store: &mut B,
                name: &str,
                text: &str,
                answer: Result<(), StorageError>,
                sent: Result<(), Result<(), StorageError>>,
            |
                {
                    &&& *store == *old(backend) && *final(store) == *final(backend)
                    &&& name@ == topic@ && text@ == data@
                    &&& #[trigger] call_ensures(B::push, (store, name, seq, text), answer)
                    &&& #[trigger] reply_handed(answer_to, answer, sent)
                    &&& delivered == (sent is Ok)
                },
            StorageInput::ReadAll(topic, answer_to) => *final(backend) == *old(backend)
                && exists|
                name: &str,
                answer: Result<Vec<StorageItem>, StorageError>,
                sent: Result<(), Result<Vec<StorageItem>, StorageError>>,
            |
                {
                    &&& name@ == topic@
                    &&& #[trigger] call_ensures(B::read_all, (&*old(backend), name), answer)
                    &&& #[trigger] reply_handed(answer_to, answer, sent)
                    &&& delivered == (sent is Ok)
                },
        },
{
    let reply = answer(backend, &request);
    match request {
        StorageInput::Topics(answer_to) => match reply {
            StorageReply::Topics(answer) => {
                let sent = reply_send(answer_to, answer);
                assert(reply_handed(answer_to, answer, sent));
                sent.is_ok()
            },
            // the answer is of the request's kind
            _ => unreached(),
        },
        StorageInput::Push(_, _, _, answer_to) => match reply {
            StorageReply::Pushed(answer) => {
                let sent = reply_send(answer_to, answer);
                assert(reply_handed(answer_to, answer, sent));
                sent.is_ok()
            },
            // the answer is of the request's kind
            _ => unreached(),
        },
        StorageInput::ReadAll(_, answer_to) => match reply {
            StorageReply::Events(answer) => {
                let sent = reply_send(answer_to, answer);
                assert(reply_handed(answer_to, answer, sent));
                sent.is_ok()
            },
            // the answer is of the request's kind
            _ => unreached(),
        },
    }
}

} // verus!

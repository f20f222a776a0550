//! The mailbox: a bounded inbound queue paired with a multicast outbound
//! stream.
//!
//! A [`Handle`] is the outside of a mailbox: it writes inputs and reads the
//! outputs broadcast after it started reading. A [`Context`] is the inside,
//! held by whoever serves the mailbox: it pops inputs and pushes outputs. The
//! bound on the inbound queue is the only backpressure there is.
//!
//! Both queues live in channels that are shared with other handles and other
//! threads, so what a call returns depends on what those did in the meantime.
//! The contracts here say which end of which channel was asked, in the terms
//! of `queue_offered`, `queue_yields`, `stream_handed` and their like, and
//! what holds of every outcome. What a full or a closed channel answers is
//! the channel's to say.

use vstd::prelude::*;

verus! {

/// `async_channel::Sender`: the sending end of a bounded queue. Opaque here.
#[verifier::external_type_specification]
#[verifier::external_body]
#[verifier::reject_recursive_types(T)]
pub struct ExQueueSender<T>(async_channel::Sender<T>);

/// `async_channel::Receiver`: the receiving end of a bounded queue. Opaque
/// here.
#[verifier::external_type_specification]
#[verifier::external_body]
#[verifier::reject_recursive_types(T)]
pub struct ExQueueReceiver<T>(async_channel::Receiver<T>);

/// `async_broadcast::Sender`: the sending end of a multicast stream. Opaque
/// here.
#[verifier::external_type_specification]
#[verifier::external_body]
#[verifier::reject_recursive_types(T)]
pub struct ExBroadcastSender<T>(async_broadcast::Sender<T>);

/// `async_broadcast::Receiver`: one cursor over a multicast stream. Opaque
/// here.
#[verifier::external_type_specification]
#[verifier::external_body]
#[verifier::reject_recursive_types(T)]
pub struct ExBroadcastReceiver<T>(async_broadcast::Receiver<T>);

/// A write that found the mailbox closed. It hands the message back.
#[derive(Debug, Clone, Copy, PartialEq, Eq)]
pub struct WriteError<T>(pub T);

/// A non-blocking write that could not enqueue. It hands the message back.
#[derive(Debug, Clone, Copy, PartialEq, Eq)]
pub enum TryWriteError<T> {
    /// The inbound queue holds as many messages as its capacity allows.
    Full(T),
    /// Nobody serves the mailbox any more.
    Closed(T),
}

impl<T> TryWriteError<T> {
    /// The message that was not enqueued.
    pub open spec fn message(self) -> T {
        match self {
            TryWriteError::Full(msg) => msg,
            TryWriteError::Closed(msg) => msg,
        }
    }

    /// Takes the message that was not enqueued back out of the error.
    pub fn into_inner(self) -> (msg: T)
        ensures
            msg == self.message(),
    {
        match self {
            TryWriteError::Full(msg) => msg,
            TryWriteError::Closed(msg) => msg,
        }
    }

    /// Whether the write failed for want of room, as opposed to a closed mailbox.
    pub fn is_full(&self) -> (b: bool)
        ensures
            b == (self is Full),
    {
        match self {
            TryWriteError::Full(_) => true,
            TryWriteError::Closed(_) => false,
        }
    }
}

/// A blocking read that found no output.
#[derive(Debug, Clone, Copy, PartialEq, Eq, Structural)]
pub enum ReadError {
    /// The stream is drained and its sender is gone.
    Closed,
    /// Outputs were overwritten before this handle read them; the number says
    /// how many. A mailbox never overwrites, so this reports a broken
    /// contract and not a state to recover from.
    Overflowed(u64),
}

/// A non-blocking read that found no output.
#[derive(Debug, Clone, Copy, PartialEq, Eq, Structural)]
pub enum TryError {
    /// There is no output to return just now; a blocking read would wait.
    Empty,
    /// The stream is drained and its sender is gone.
    Closed,
    /// Outputs were overwritten before this handle read them; the number says
    /// how many. A mailbox never overwrites, so this reports a broken
    /// contract and not a state to recover from.
    Overflowed(u64),
}

impl TryError {
    /// What the error says, as a sentence.
    pub open spec fn sentence(self) -> Seq<char> {
        match self {
            TryError::Empty => "There is no data to return just now. (Would block.)"@,
            TryError::Closed => "This channel is closed from sender."@,
            TryError::Overflowed(_) => "Outputs were overwritten before they were read."@,
        }
    }

    /// What the error says, as a sentence.
    pub fn text(&self) -> (text: String)
        ensures
            text@ == self.sentence(),
    {
        match self {
            TryError::Empty => "There is no data to return just now. (Would block.)".to_owned(),
            TryError::Closed => "This channel is closed from sender.".to_owned(),
            TryError::Overflowed(_) => "Outputs were overwritten before they were read.".to_owned(),
        }
    }
}

/// `async_channel::bounded`: makes the two ends of a queue that holds at most
/// `cap` messages. The outside function panics on a capacity of zero, which
/// the precondition leaves out.
#[verifier::external_body]
fn queue_bounded<T>(cap: usize) -> (ends: (async_channel::Sender<T>, async_channel::Receiver<T>))
    requires
        cap > 0,
{
    async_channel::bounded(cap)
}

/// `async_broadcast::broadcast`: makes the two ends of a multicast stream
/// that holds at most `cap` messages. The outside function panics on a
/// capacity of zero, which the precondition leaves out.
#[verifier::external_body]
fn stream_bounded<T>(cap: usize) -> (ends: (
    async_broadcast::Sender<T>,
    async_broadcast::Receiver<T>,
))
    requires
        cap > 0,
{
    async_broadcast::broadcast(cap)
}

/// `async_channel::Sender::try_send`: enqueues the message or returns at
/// once. Claimed: an error holds the very message that was passed in.
#[verifier::external_body]
fn queue_try_send<T>(sender: &async_channel::Sender<T>, msg: T) -> (r: Result<
    (),
    TryWriteError<T>,
>)
    ensures
        r matches Err(e) ==> e.message() == msg,
{
    match sender.try_send(msg) {
        Ok(()) => Ok(()),
        Err(async_channel::TrySendError::Full(msg)) => Err(TryWriteError::Full(msg)),
        Err(async_channel::TrySendError::Closed(msg)) => Err(TryWriteError::Closed(msg)),
    }
}

/// `async_channel::Sender::send_blocking`: enqueues the message, blocking
/// the thread while the queue is full. Claimed: the error of a closed queue
/// holds the very message that was passed in.
#[verifier::external_body]
fn queue_send_blocking<T>(sender: &async_channel::Sender<T>, msg: T) -> (r: Result<
    (),
    WriteError<T>,
>)
    ensures
        r matches Err(e) ==> e.0 == msg,
{
    match sender.send_blocking(msg) {
        Ok(()) => Ok(()),
        Err(async_channel::SendError(msg)) => Err(WriteError(msg)),
    }
}

/// `Clone::clone` of `async_channel::Sender`: another sender into the same
/// queue. Claimed: the clone is the same value as the sender that it was
/// made from, which holds nothing but the queue that it sends into.
#[verifier::external_body]
fn queue_sender_clone<T>(sender: &async_channel::Sender<T>) -> (other: async_channel::Sender<T>)
    ensures
        other == *sender,
{
    sender.clone()
}

/// `async_channel::Receiver::recv_blocking`: dequeues the oldest message,
/// blocking the thread while the queue is empty and open; `None` once it is
/// empty and closed.
#[verifier::external_body]
fn queue_recv_blocking<T>(receiver: &async_channel::Receiver<T>) -> (r: Option<T>) {
    match receiver.recv_blocking() {
        Ok(msg) => Some(msg),
        Err(async_channel::RecvError) => None,
    }
}

/// `async_channel::Receiver::try_recv`: dequeues the oldest message if there
/// is one, at once. Claimed: the error is `Empty` or `Closed`.
#[verifier::external_body]
fn queue_try_recv<T>(receiver: &async_channel::Receiver<T>) -> (r: Result<T, TryError>)
    ensures
        r matches Err(e) ==> e is Empty || e is Closed,
{
    match receiver.try_recv() {
        Ok(msg) => Ok(msg),
        Err(async_channel::TryRecvError::Empty) => Err(TryError::Empty),
        Err(async_channel::TryRecvError::Closed) => Err(TryError::Closed),
    }
}

/// `async_channel::Receiver::close`: closes the queue to further messages;
/// those already in it can still be dequeued. Returns whether this call
/// closed it.
#[verifier::external_body]
fn queue_close<T>(receiver: &async_channel::Receiver<T>) -> (closed: bool) {
    receiver.close()
}

/// `async_broadcast::Sender::broadcast_blocking`: appends the value to the
/// stream for every active receiver, blocking the thread while the stream is
/// full. Claimed: the error of a closed stream holds the very value that was
/// passed in.
#[verifier::external_body]
fn stream_send_blocking<T: Clone>(sender: &async_broadcast::Sender<T>, value: T) -> (r: Result<
    (),
    WriteError<T>,
>)
    ensures
        r matches Err(e) ==> e.0 == value,
{
    match sender.broadcast_blocking(value) {
        Ok(_) => Ok(()),
        Err(async_broadcast::SendError(value)) => Err(WriteError(value)),
    }
}

/// `async_broadcast::Receiver::try_recv`: the next value after this
/// receiver's cursor, or the reason why there is none, at once.
#[verifier::external_body]
fn stream_try_recv<T: Clone>(receiver: &mut async_broadcast::Receiver<T>) -> (r: Result<
    T,
    TryError,
>) {
    match receiver.try_recv() {
        Ok(value) => Ok(value),
        Err(async_broadcast::TryRecvError::Empty) => Err(TryError::Empty),
        Err(async_broadcast::TryRecvError::Closed) => Err(TryError::Closed),
        Err(async_broadcast::TryRecvError::Overflowed(missed)) => Err(TryError::Overflowed(missed)),
    }
}

/// `async_broadcast::Receiver::recv_blocking`: the next value after this
/// receiver's cursor, blocking the thread while the stream is empty and open.
#[verifier::external_body]
fn stream_recv_blocking<T: Clone>(receiver: &mut async_broadcast::Receiver<T>) -> (r: Result<
    T,
    ReadError,
>) {
    match receiver.recv_blocking() {
        Ok(value) => Ok(value),
        Err(async_broadcast::RecvError::Closed) => Err(ReadError::Closed),
        Err(async_broadcast::RecvError::Overflowed(missed)) => Err(ReadError::Overflowed(missed)),
    }
}

/// `async_broadcast::Receiver::new_receiver`: another receiver of the same
/// stream, whose cursor starts behind everything sent so far.
#[verifier::external_body]
fn stream_new_receiver<T: Clone>(receiver: &async_broadcast::Receiver<T>) -> (other:
    async_broadcast::Receiver<T>) {
    receiver.new_receiver()
}

/// Whether the two are the ends of one queue made to hold `cap` messages:
/// what `async_channel::bounded` may return.
pub closed spec fn queue_made<T>(
    cap: usize,
    sender: async_channel::Sender<T>,
    receiver: async_channel::Receiver<T>,
) -> bool {
    call_ensures(queue_bounded::<T>, (cap,), (sender, receiver))
}

/// Whether the two are the ends of one stream made to hold `cap` values:
/// what `async_broadcast::broadcast` may return.
pub closed spec fn stream_made<T>(
    cap: usize,
    sender: async_broadcast::Sender<T>,
    receiver: async_broadcast::Receiver<T>,
) -> bool {
    call_ensures(stream_bounded::<T>, (cap,), (sender, receiver))
}

/// Whether `r` is what a queue may answer when this sender offers it `msg`
/// without blocking: what `async_channel::Sender::try_send` may return.
pub closed spec fn queue_offered<T>(
    sender: &async_channel::Sender<T>,
    msg: T,
    r: Result<(), TryWriteError<T>>,
) -> bool {
    call_ensures(queue_try_send::<T>, (sender, msg), r)
}

/// Whether `r` is what a queue may answer when this sender hands it `msg`
/// and waits for room: what `async_channel::Sender::send_blocking` may
/// return.
pub closed spec fn queue_handed<T>(
    sender: &async_channel::Sender<T>,
    msg: T,
    r: Result<(), WriteError<T>>,
) -> bool {
    call_ensures(queue_send_blocking::<T>, (sender, msg), r)
}

/// Whether `r` is what a queue may yield to this receiver when it waits for
/// a message: what `async_channel::Receiver::recv_blocking` may return.
pub closed spec fn queue_yields<T>(receiver: &async_channel::Receiver<T>, r: Option<T>) -> bool {
    call_ensures(queue_recv_blocking::<T>, (receiver,), r)
}

/// Whether `r` is what a queue may yield to this receiver at once: what
/// `async_channel::Receiver::try_recv` may return.
pub closed spec fn queue_yields_now<T>(
    receiver: &async_channel::Receiver<T>,
    r: Result<T, TryError>,
) -> bool {
    call_ensures(queue_try_recv::<T>, (receiver,), r)
}

/// Whether `closed` is what closing the queue through this receiver may
/// return: what `async_channel::Receiver::close` may return.
pub closed spec fn queue_closed<T>(receiver: &async_channel::Receiver<T>, closed: bool) -> bool {
    call_ensures(queue_close::<T>, (receiver,), closed)
}

/// Whether `r` is what a stream may answer when this sender broadcasts
/// `value` and waits for room: what
/// `async_broadcast::Sender::broadcast_blocking` may return.
pub closed spec fn stream_handed<T: Clone>(
    sender: &async_broadcast::Sender<T>,
    value: T,
    r: Result<(), WriteError<T>>,
) -> bool {
    call_ensures(stream_send_blocking::<T>, (sender, value), r)
}

/// Whether `r` is what a stream may yield through this borrow of a receiver
/// at once: what `async_broadcast::Receiver::try_recv` may return. The
/// receiver before the call is `*receiver`; the receiver after it is the
/// borrow's final value.
pub closed spec fn stream_yields_now<T: Clone>(
    receiver: &mut async_broadcast::Receiver<T>,
    r: Result<T, TryError>,
) -> bool {
    call_ensures(stream_try_recv::<T>, (receiver,), r)
}

/// Whether `r` is what a stream may yield through this borrow of a receiver
/// when it waits for a value: what `async_broadcast::Receiver::recv_blocking`
/// may return.
pub closed spec fn stream_yields<T: Clone>(
    receiver: &mut async_broadcast::Receiver<T>,
    r: Result<T, ReadError>,
) -> bool {
    call_ensures(stream_recv_blocking::<T>, (receiver,), r)
}

/// Whether `other` is what a new receiver of this receiver's stream may be:
/// what `async_broadcast::Receiver::new_receiver` may return.
pub closed spec fn stream_joined<T: Clone>(
    receiver: &async_broadcast::Receiver<T>,
    other: async_broadcast::Receiver<T>,
) -> bool {
    call_ensures(stream_new_receiver::<T>, (receiver,), other)
}

/// The read side of a mailbox: an independent cursor over the live stream of
/// outputs. It sees what is broadcast after it was made, never what came
/// before.
#[verifier::reject_recursive_types(Out)]
pub struct ReadHandle<Out>(async_broadcast::Receiver<Out>);

impl<Out: Clone> ReadHandle<Out> {
    /// Another cursor over the same stream, starting at what is sent from
    /// now on: it holds a new receiver of this handle's stream.
    pub fn new_reader(&self) -> (reader: ReadHandle<Out>)
        ensures
            stream_joined(&self.receiver(), reader.receiver()),
    {
        ReadHandle(stream_new_receiver(&self.0))
    }

    /// The next output if one is waiting, without blocking: what the stream
    /// yields to this handle's receiver at once.
    pub fn try_read(&mut self) -> (r: Result<Out, TryError>)
        ensures
            exists|receiver: &mut async_broadcast::Receiver<Out>|
                {
                    &&& *receiver == old(self).receiver()
                    &&& *final(receiver) == final(self).receiver()
                    &&& #[trigger] stream_yields_now(receiver, r)
                },
    {
        let r = stream_try_recv(&mut self.0);
        proof {
            let receiver = choose|receiver: &mut async_broadcast::Receiver<Out>|
                {
                    &&& *receiver == old(self).0
                    &&& *final(receiver) == self.0
                    &&& #[trigger] call_ensures(stream_try_recv::<Out>, (receiver,), r)
                };
            assert(stream_yields_now(receiver, r));
        }
        r
    }

    /// The receiver that this handle reads from.
    pub closed spec fn receiver(&self) -> async_broadcast::Receiver<Out> {
        self.0
    }

    /// The receiver that this handle reads from, for callers that await
    /// instead of blocking. What they do to the receiver is done to the
    /// handle.
    pub fn stream(&mut self) -> (stream: &mut async_broadcast::Receiver<Out>)
        ensures
            *stream == old(self).receiver(),
            final(self).receiver() == *final(stream),
    {
        &mut self.0
    }

    /// The next output, waiting for it while the stream is open: what the
    /// stream yields to this handle's receiver when it waits.
    pub fn read_blocking(&mut self) -> (r: Result<Out, ReadError>)
        ensures
            exists|receiver: &mut async_broadcast::Receiver<Out>|
                {
                    &&& *receiver == old(self).receiver()
                    &&& *final(receiver) == final(self).receiver()
                    &&& #[trigger] stream_yields(receiver, r)
                },
    {
        let r = stream_recv_blocking(&mut self.0);
        proof {
            let receiver = choose|receiver: &mut async_broadcast::Receiver<Out>|
                {
                    &&& *receiver == old(self).0
                    &&& *final(receiver) == self.0
                    &&& #[trigger] call_ensures(stream_recv_blocking::<Out>, (receiver,), r)
                };
            assert(stream_yields(receiver, r));
        }
        r
    }
}

/// The write side of a mailbox.
#[verifier::reject_recursive_types(In)]
pub struct WriteHandle<In>(async_channel::Sender<In>);

impl<In> WriteHandle<In> {
    /// The sender that this handle writes to.
    pub closed spec fn sender(&self) -> async_channel::Sender<In> {
        self.0
    }

    /// Another writer into the same inbound queue: it holds the sender that
    /// this one holds.
    pub fn new_writer(&self) -> (writer: WriteHandle<In>)
        ensures
            writer == *self,
            writer.sender() == self.sender(),
    {
        WriteHandle(queue_sender_clone(&self.0))
    }

    /// The sender that this handle writes to, for callers that await instead
    /// of blocking.
    pub fn queue(&self) -> (queue: &async_channel::Sender<In>)
        ensures
            *queue == self.sender(),
    {
        &self.0
    }

    /// Enqueues a message if there is room, without blocking: what the
    /// queue answers when this handle's sender offers it the message. A
    /// message that was not enqueued comes back in the error; what was
    /// enqueued before stays enqueued.
    pub fn try_write(&self, msg: In) -> (r: Result<(), TryWriteError<In>>)
        ensures
            queue_offered(&self.sender(), msg, r),
            r matches Err(e) ==> e.message() == msg,
    {
        queue_try_send(&self.0, msg)
    }

    /// Enqueues a message, waiting for room while the queue is full: what
    /// the queue answers when this handle's sender hands it the message. The
    /// message comes back in the error if the mailbox is closed.
    pub fn write_blocking(&self, msg: In) -> (r: Result<(), WriteError<In>>)
        ensures
            queue_handed(&self.sender(), msg, r),
            r matches Err(e) ==> e.0 == msg,
    {
        queue_send_blocking(&self.0, msg)
    }
}

/// Both sides of a mailbox, as its users hold it.
#[verifier::reject_recursive_types(In)]
#[verifier::reject_recursive_types(Out)]
pub struct Handle<In, Out> {
    pub reader: ReadHandle<Out>,
    pub writer: WriteHandle<In>,
}

impl<In, Out: Clone> Handle<In, Out> {
    /// Another handle of the same mailbox: its write side is that of this
    /// handle, and its read side is a new reader of this handle's read side,
    /// which reads what is broadcast from now on.
    pub fn new_handle(&self) -> (handle: Handle<In, Out>)
        ensures
            handle.writer == self.writer,
            call_ensures(ReadHandle::<Out>::new_reader, (&self.reader,), handle.reader),
    {
        Handle { reader: self.reader.new_reader(), writer: self.writer.new_writer() }
    }

    /// Joins a read side and a write side into one handle.
    pub fn merge(reader: ReadHandle<Out>, writer: WriteHandle<In>) -> (handle: Handle<In, Out>)
        ensures
            handle.reader == reader,
            handle.writer == writer,
    {
        Handle { reader, writer }
    }

    /// Parts the handle into its read side and its write side.
    pub fn split(self) -> (sides: (ReadHandle<Out>, WriteHandle<In>))
        ensures
            sides.0 == self.reader,
            sides.1 == self.writer,
    {
        (self.reader, self.writer)
    }

    /// Keeps the read side and drops the write side.
    pub fn read_only(self) -> (reader: ReadHandle<Out>)
        ensures
            reader == self.reader,
    {
        self.reader
    }

    /// Keeps the write side and drops the read side.
    pub fn write_only(self) -> (writer: WriteHandle<In>)
        ensures
            writer == self.writer,
    {
        self.writer
    }

    /// Enqueues a message if there is room, without blocking: what the write
    /// side answers to this message. A message that was not enqueued comes
    /// back in the error.
    pub fn try_write(&self, msg: In) -> (r: Result<(), TryWriteError<In>>)
        ensures
            r matches Err(e) ==> e.message() == msg,
            call_ensures(WriteHandle::<In>::try_write, (&self.writer, msg), r),
    {
        self.writer.try_write(msg)
    }

    /// Enqueues a message, waiting for room while the queue is full: what the
    /// write side answers to this message.
    pub fn write_blocking(&self, msg: In) -> (r: Result<(), WriteError<In>>)
        ensures
            r matches Err(e) ==> e.0 == msg,
            call_ensures(WriteHandle::<In>::write_blocking, (&self.writer, msg), r),
    {
        self.writer.write_blocking(msg)
    }

    /// The next output if one is waiting, without blocking: what the read
    /// side yields, whose cursor moves as it does there. The write side stays
    /// as it is.
    pub fn try_read(&mut self) -> (r: Result<Out, TryError>)
        ensures
            final(self).writer == old(self).writer,
            exists|reader: &mut ReadHandle<Out>|
                {
                    &&& *reader == old(self).reader && *final(reader) == final(self).reader
                    &&& #[trigger] call_ensures(ReadHandle::<Out>::try_read, (reader,), r)
                },
    {
        self.reader.try_read()
    }

    /// The next output, waiting for it while the stream is open: what the
    /// read side yields, whose cursor moves as it does there. The write side
    /// stays as it is.
    pub fn read_blocking(&mut self) -> (r: Result<Out, ReadError>)
        ensures
            final(self).writer == old(self).writer,
            exists|reader: &mut ReadHandle<Out>|
                {
                    &&& *reader == old(self).reader && *final(reader) == final(self).reader
                    &&& #[trigger] call_ensures(ReadHandle::<Out>::read_blocking, (reader,), r)
                },
    {
        self.reader.read_blocking()
    }
}

/// The inside of a mailbox, held by whoever serves it.
#[verifier::reject_recursive_types(In)]
#[verifier::reject_recursive_types(Out)]
pub struct Context<In, Out> {
    input: async_channel::Receiver<In>,
    output: async_broadcast::Sender<Out>,
    capacity: usize,
}

impl<In, Out: Clone> Context<In, Out> {
    /// Broadcasts one output to every handle that reads, waiting for room
    /// while the stream is full. Returns `true` if the output was not
    /// delivered because no reader is left: whether the stream refused the
    /// output when this context's sender handed it over.
    pub fn push(&self, value: Out) -> (lost: bool)
        ensures
            exists|sent: Result<(), WriteError<Out>>|
                #[trigger] stream_handed(&self.outbox(), value, sent) && lost == (sent is Err),
    {
        let ghost handed = value;
        let sent = stream_send_blocking(&self.output, value);
        assert(stream_handed(&self.outbox(), handed, sent));
        sent.is_err()
    }

    /// The oldest input, waiting for one while the mailbox is open: what the
    /// queue yields to this context's receiver. `None` means that every
    /// writer is gone and the queue is drained.
    pub fn pop(&self) -> (r: Option<In>)
        ensures
            queue_yields(&self.inbox(), r),
    {
        queue_recv_blocking(&self.input)
    }

    /// The oldest input if one is waiting, without blocking: what the queue
    /// yields to this context's receiver at once. The error is `Empty` or
    /// `Closed`.
    pub fn try_pop(&self) -> (r: Result<In, TryError>)
        ensures
            queue_yields_now(&self.inbox(), r),
            r matches Err(e) ==> e is Empty || e is Closed,
    {
        queue_try_recv(&self.input)
    }

    /// Closes the mailbox and discards the inputs that are still queued, at
    /// most as many as the mailbox holds. Returns how many were discarded.
    /// The queue is closed through this context's receiver; then one input
    /// after the other is taken from it without blocking and dropped, until
    /// the queue yields none or as many were taken as the mailbox holds.
    ///
    /// Dropping a context closes the mailbox too, but leaves what is queued
    /// in place for as long as a writer lives. An input that carries a reply
    /// channel then keeps its caller waiting; after `shut` the caller learns
    /// that no answer will come.
    pub fn shut(self) -> (discarded: usize)
        ensures
            discarded <= self.capacity(),
            exists|closed: bool| #[trigger] queue_closed(&self.inbox(), closed),
            exists|taken: Seq<In>|
                #![trigger taken.len()]
                taken.len() == discarded && forall|i: int|
                    0 <= i < taken.len() ==> queue_yields_now(
                        &self.inbox(),
                        Ok(#[trigger] taken[i]),
                    ),
            discarded < self.capacity() ==> exists|last: Result<In, TryError>|
                #[trigger] queue_yields_now(&self.inbox(), last) && last is Err,
    {
        let closed = queue_close(&self.input);
        assert(queue_closed(&self.inbox(), closed));
        let mut discarded: usize = 0;
        let ghost mut taken: Seq<In> = Seq::empty();
        while discarded < self.capacity
            invariant
                queue_closed(&self.inbox(), closed),
                discarded <= self.capacity,
                taken.len() == discarded,
                forall|i: int|
                    0 <= i < taken.len() ==> queue_yields_now(
                        &self.inbox(),
                        Ok(#[trigger] taken[i]),
                    ),
            decreases self.capacity - discarded,
        {
            let next = self.try_pop();
            match next {
                Ok(input) => {
                    proof {
                        taken = taken.push(input);
                    }
                    discarded = discarded + 1;
                },
                Err(_) => {
                    return discarded;
                },
            }
        }
        discarded
    }

    /// The number of inputs that the mailbox holds at most.
    pub closed spec fn capacity(&self) -> usize {
        self.capacity
    }

    /// The receiver that the inputs come from.
    pub closed spec fn inbox(&self) -> async_channel::Receiver<In> {
        self.input
    }

    /// The sender that the outputs go to.
    pub closed spec fn outbox(&self) -> async_broadcast::Sender<Out> {
        self.output
    }

    /// The receiver that the inputs come from, for callers that await instead
    /// of blocking.
    pub fn input(&self) -> (input: &async_channel::Receiver<In>)
        ensures
            *input == self.inbox(),
    {
        &self.input
    }

    /// The sender that the outputs go to, for callers that await instead of
    /// blocking.
    pub fn output(&self) -> (output: &async_broadcast::Sender<Out>)
        ensures
            *output == self.outbox(),
    {
        &self.output
    }
}

/// Makes a mailbox whose inbound queue and outbound stream hold `cap`
/// messages each, and returns its two ends: the handle writes into the queue
/// that the context pops from, and reads the stream that the context pushes
/// to.
pub fn handle<In, Out: Clone>(cap: usize) -> (ends: (Handle<In, Out>, Context<In, Out>))
    requires
        cap > 0,
    ensures
        ends.1.capacity() == cap,
        queue_made(cap, ends.0.writer.sender(), ends.1.inbox()),
        stream_made(cap, ends.1.outbox(), ends.0.reader.receiver()),
{
    let (in_s, in_r) = queue_bounded(cap);
    let (out_s, out_r) = stream_bounded(cap);
    (
        Handle { reader: ReadHandle(out_r), writer: WriteHandle(in_s) },
        Context { input: in_r, output: out_s, capacity: cap },
    )
}

} // verus!

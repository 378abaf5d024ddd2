//! POSIX message queues.

use std::marker::PhantomData;

use vstd::prelude::*;
use vstd::utf8::encode_utf8;

use crate::buffer::{last_bytes, message_at_end, zeroed, zeros};
use crate::message::{decoding_of_whole_encoding, received_once_ready, Message};
use crate::operation::{run, Async, IpcError, Operation, Poll, Reply, Step};

verus! {

/// A POSIX message queue.
///
/// This is a one-way channel: the process that queues a value can read, and immediately gets the
/// value that it just queued. For a two-way channel use Unix sockets.
#[derive(Debug)]
pub struct MessageQueue<T> {
    /// The name of the queue, without the zero byte that ends it in memory.
    pub mq_name: Vec<u8>,
    /// The descriptor of the queue.
    pub fd: i32,
    /// The size in bytes of the largest message that the queue takes.
    pub size: usize,
    /// What the queue carries.
    pub _phantom: PhantomData<T>,
}

/// How a queue is opened.
#[derive(Clone, Copy, Debug, PartialEq, Eq, Structural)]
pub struct OpenOptions {
    /// Calls on the queue return an error where they would have to wait.
    pub nonblocking: bool,
    /// The queue is opened for sending and for receiving.
    pub read_write: bool,
    /// The queue is made if there is none of that name.
    pub create: bool,
    /// A queue that is made can be read by its owner.
    pub owner_reads: bool,
    /// A queue that is made can be written by its owner.
    pub owner_writes: bool,
    /// A queue that is made can be read by others.
    pub others_read: bool,
    /// A queue that is made can be written by others.
    pub others_write: bool,
}

/// The attributes of a queue.
#[derive(Clone, Copy, Debug, PartialEq, Eq, Structural)]
pub struct QueueAttributes {
    /// How many messages the queue holds at most.
    pub mq_maxmsg: i64,
    /// The size in bytes of the largest message.
    pub mq_msgsize: i64,
    /// How many messages the queue holds now.
    pub mq_curmsgs: i64,
}

/// What a call on a queue left behind; only a call for the attributes fills them in.
#[derive(Clone, Copy, Debug, PartialEq, Eq, Structural)]
pub struct QueueReply {
    /// What the call returned.
    pub ret: i32,
    /// The error code of the calling thread after the call.
    pub errno: i32,
    /// The attributes.
    pub attributes: QueueAttributes,
}

/// What a call that receives a message left behind.
#[derive(Clone, Copy, Debug, PartialEq, Eq, Structural)]
pub struct ReceiveReply {
    /// What the call returned: the size of the message, or a negative number.
    pub ret: isize,
    /// The error code of the calling thread after the call.
    pub errno: i32,
}

/// The name that the system knows a queue by: a slash and the name.
pub open spec fn queue_name(name: Seq<char>) -> Seq<u8> {
    seq![0x2fu8] + encode_utf8(name)
}

/// The options that a queue is opened with.
pub open spec fn queue_options() -> OpenOptions {
    OpenOptions {
        nonblocking: true,
        read_write: true,
        create: true,
        owner_reads: true,
        owner_writes: true,
        others_read: true,
        others_write: true,
    }
}

/// Whether a name holds a zero byte, which no name of a queue can.
pub fn holds_zero(name: &str) -> (holds: bool)
    ensures
        holds == encode_utf8(name@).contains(0),
{
    let bytes = name.as_bytes();
    let mut i: usize = 0;
    while i < bytes.len()
        invariant
            bytes@ == encode_utf8(name@),
            i <= bytes@.len(),
            !bytes@.take(i as int).contains(0),
        decreases bytes@.len() - i,
    {
        if bytes[i] == 0 {
            assert(bytes@[i as int] == 0);
            return true;
        }
        assert(bytes@.take(i + 1) =~= bytes@.take(i as int).push(bytes@[i as int]));
        i = i + 1;
    }
    assert(bytes@.take(i as int) =~= bytes@);
    false
}

/// Opening a queue.
#[derive(Debug)]
pub enum OpenQueue<T> {
    /// Opens the queue of that name.
    Open { name: Vec<u8>, options: OpenOptions, _phantom: PhantomData<T> },
    /// Asks for the attributes of the queue that was opened.
    GetAttributes { name: Vec<u8>, fd: i32, _phantom: PhantomData<T> },
}

impl<T> Operation for OpenQueue<T> {
    type Reply = QueueReply;

    type Outcome = Result<MessageQueue<T>, IpcError>;

    open spec fn answered_by(self, reply: QueueReply) -> bool {
        true
    }

    open spec fn after(self, reply: QueueReply) -> Step<Self, Result<MessageQueue<T>, IpcError>> {
        match self {
            OpenQueue::Open { name, options, _phantom } => if reply.ret == -1 {
                Step::Done(Err(IpcError::Os(reply.errno)))
            } else {
                Step::Call(OpenQueue::GetAttributes { name, fd: reply.ret, _phantom })
            },
            OpenQueue::GetAttributes { name, fd, _phantom } => if reply.ret < 0 {
                Step::Done(Err(IpcError::Os(reply.errno)))
            } else {
                Step::Done(
                    Ok(
                        MessageQueue {
                            mq_name: name,
                            fd,
                            size: reply.attributes.mq_msgsize as usize,
                            _phantom,
                        },
                    ),
                )
            },
        }
    }

    fn resume(self, reply: QueueReply) -> Step<Self, Result<MessageQueue<T>, IpcError>> {
        match self {
            OpenQueue::Open { name, options: _, _phantom } => {
                if reply.ret == -1 {
                    return Step::Done(Err(IpcError::Os(reply.errno)));
                }
                Step::Call(OpenQueue::GetAttributes { name, fd: reply.ret, _phantom })
            },
            OpenQueue::GetAttributes { name, fd, _phantom } => {
                if reply.ret < 0 {
                    return Step::Done(Err(IpcError::Os(reply.errno)));
                }
                Step::Done(
                    Ok(
                        MessageQueue {
                            mq_name: name,
                            fd,
                            size: reply.attributes.mq_msgsize as usize,
                            _phantom,
                        },
                    ),
                )
            },
        }
    }
}

/// Putting one message on a queue, with the lowest priority.
#[derive(Clone, Copy, Debug)]
pub struct QueueWrite<'a> {
    /// The descriptor of the queue.
    pub fd: i32,
    /// The message.
    pub buf: &'a [u8],
    /// The priority of the message.
    pub priority: u32,
}

impl<'a> Operation for QueueWrite<'a> {
    type Reply = Reply;

    type Outcome = Result<usize, IpcError>;

    open spec fn answered_by(self, reply: Reply) -> bool {
        true
    }

    open spec fn after(self, reply: Reply) -> Step<Self, Result<usize, IpcError>> {
        if reply.ret == -1 {
            Step::Done(Err(IpcError::Os(reply.errno)))
        } else {
            Step::Done(Ok(self.buf.len()))
        }
    }

    fn resume(self, reply: Reply) -> Step<Self, Result<usize, IpcError>> {
        if reply.ret == -1 {
            return Step::Done(Err(IpcError::Os(reply.errno)));
        }
        Step::Done(Ok(self.buf.len()))
    }
}

/// Taking one message off a queue.
#[derive(Clone, Copy, Debug)]
pub struct QueueRead {
    /// The descriptor of the queue.
    pub fd: i32,
    /// How many bytes the system may write to the buffer.
    pub size: usize,
}

impl Operation for QueueRead {
    type Reply = ReceiveReply;

    type Outcome = Result<usize, IpcError>;

    open spec fn answered_by(self, reply: ReceiveReply) -> bool {
        true
    }

    open spec fn after(self, reply: ReceiveReply) -> Step<Self, Result<usize, IpcError>> {
        if reply.ret < 0 {
            Step::Done(Err(IpcError::Os(reply.errno)))
        } else {
            Step::Done(Ok(reply.ret as usize))
        }
    }

    fn resume(self, reply: ReceiveReply) -> Step<Self, Result<usize, IpcError>> {
        if reply.ret < 0 {
            return Step::Done(Err(IpcError::Os(reply.errno)));
        }
        Step::Done(Ok(reply.ret as usize))
    }
}

/// Asking whether a queue has room for one more message.
#[derive(Clone, Copy, Debug)]
pub struct QueueRoom {
    /// The descriptor of the queue.
    pub fd: i32,
}

impl Operation for QueueRoom {
    type Reply = QueueReply;

    type Outcome = Poll<()>;

    open spec fn answered_by(self, reply: QueueReply) -> bool {
        true
    }

    open spec fn after(self, reply: QueueReply) -> Step<Self, Poll<()>> {
        if reply.ret < 0 {
            Step::Done(Err(IpcError::Os(reply.errno)))
        } else if reply.attributes.mq_maxmsg == reply.attributes.mq_curmsgs {
            Step::Done(Ok(Async::NotReady))
        } else {
            Step::Done(Ok(Async::Ready(())))
        }
    }

    fn resume(self, reply: QueueReply) -> Step<Self, Poll<()>> {
        if reply.ret < 0 {
            return Step::Done(Err(IpcError::Os(reply.errno)));
        }
        if reply.attributes.mq_maxmsg == reply.attributes.mq_curmsgs {
            return Step::Done(Ok(Async::NotReady));
        }
        Step::Done(Ok(Async::Ready(())))
    }
}

/// Letting go of a queue: its name is taken away, or, where that fails, its descriptor is closed.
#[derive(Clone, Copy, Debug)]
pub enum QueueRelease<'a> {
    /// Takes the name away.
    Unlink { name: &'a [u8], fd: i32 },
    /// Closes the descriptor.
    Close { fd: i32 },
}

impl<'a> Operation for QueueRelease<'a> {
    type Reply = Reply;

    type Outcome = Poll<()>;

    open spec fn answered_by(self, reply: Reply) -> bool {
        true
    }

    open spec fn after(self, reply: Reply) -> Step<Self, Poll<()>> {
        match self {
            QueueRelease::Unlink { name, fd } => if reply.ret < 0 {
                Step::Call(QueueRelease::Close { fd })
            } else {
                Step::Done(Ok(Async::Ready(())))
            },
            QueueRelease::Close { fd } => if reply.ret < 0 {
                Step::Done(Err(IpcError::Os(reply.errno)))
            } else {
                Step::Done(Ok(Async::Ready(())))
            },
        }
    }

    fn resume(self, reply: Reply) -> Step<Self, Poll<()>> {
        match self {
            QueueRelease::Unlink { name: _, fd } => {
                if reply.ret < 0 {
                    return Step::Call(QueueRelease::Close { fd });
                }
                Step::Done(Ok(Async::Ready(())))
            },
            QueueRelease::Close { fd: _ } => {
                if reply.ret < 0 {
                    return Step::Done(Err(IpcError::Os(reply.errno)));
                }
                Step::Done(Ok(Async::Ready(())))
            },
        }
    }
}

impl<T> Clone for MessageQueue<T> {
    /// Another handle of the same queue.
    fn clone(&self) -> (other: Self)
        ensures
            other.mq_name@ == self.mq_name@,
            other.fd == self.fd,
            other.size == self.size,
    {
        let name = self.mq_name.clone();
        assert(name@ =~= self.mq_name@);
        MessageQueue { mq_name: name, fd: self.fd, size: self.size, _phantom: PhantomData }
    }
}

impl<T> MessageQueue<T> {
    /// Opens the queue of that name, or makes it.
    pub fn new(name: &str) -> (step: Step<OpenQueue<T>, Result<MessageQueue<T>, IpcError>>)
        requires
            !encode_utf8(name@).contains(0),
        ensures
            step matches Step::Call(OpenQueue::Open { name: n, options, _phantom }) && n@
                == queue_name(name@) && options == queue_options(),
    {
        let mut n: Vec<u8> = Vec::new();
        n.push(0x2f);
        n.extend_from_slice(name.as_bytes());
        assert(n@ =~= queue_name(name@));
        Step::Call(
            OpenQueue::Open {
                name: n,
                options: OpenOptions {
                    nonblocking: true,
                    read_write: true,
                    create: true,
                    owner_reads: true,
                    owner_writes: true,
                    others_read: true,
                    others_write: true,
                },
                _phantom: PhantomData,
            },
        )
    }

    /// The two ends of a queue: one to send on, one to receive on.
    pub fn channel(self) -> (ends: (MessageQueue<T>, MessageQueue<T>))
        ensures
            ends.0.mq_name@ == self.mq_name@ && ends.1.mq_name@ == self.mq_name@,
            ends.0.fd == self.fd && ends.1.fd == self.fd,
            ends.0.size == self.size && ends.1.size == self.size,
    {
        let other = self.clone();
        (self, other)
    }

    /// Puts `buf` on the queue as one message.
    pub fn write<'a>(&self, buf: &'a [u8]) -> (step: Step<QueueWrite<'a>, Result<usize, IpcError>>)
        ensures
            step == Step::<_, Result<usize, IpcError>>::Call(
                QueueWrite { fd: self.fd, buf, priority: 0 },
            ),
    {
        Step::Call(QueueWrite { fd: self.fd, buf, priority: 0 })
    }

    /// Does nothing: a message is on the queue as soon as it is written.
    pub fn flush(&self) -> (result: Result<(), IpcError>)
        ensures
            result == Ok::<(), IpcError>(()),
    {
        Ok(())
    }

    /// Lets go of the queue.
    pub fn shutdown(&self) -> (step: Step<QueueRelease<'_>, Poll<()>>)
        ensures
            step matches Step::Call(QueueRelease::Unlink { name, fd }) && name@ == self.mq_name@
                && fd == self.fd,
    {
        Step::Call(QueueRelease::Unlink { name: self.mq_name.as_slice(), fd: self.fd })
    }

    /// Asks whether the queue has room for one more message.
    pub fn poll_room(&self) -> (step: Step<QueueRoom, Poll<()>>)
        ensures
            step == Step::<_, Poll<()>>::Call(QueueRoom { fd: self.fd }),
    {
        Step::Call(QueueRoom { fd: self.fd })
    }

    /// Takes a message off the queue, into a buffer of `room` bytes.
    pub fn read(&self, room: usize) -> (step: Step<QueueRead, Result<usize, IpcError>>)
        requires
            self.size <= room,
        ensures
            step == Step::<_, Result<usize, IpcError>>::Call(
                QueueRead { fd: self.fd, size: self.size },
            ),
    {
        Step::Call(QueueRead { fd: self.fd, size: self.size })
    }

    /// The buffer that a receiver starts with; what it reads is appended to it.
    pub fn receive_buffer(&self) -> (buf: Vec<u8>)
        requires
            self.size <= isize::MAX,
        ensures
            buf@ == zeros(self.size as nat),
    {
        zeroed(self.size)
    }
}

impl<T: Message> MessageQueue<T> {
    /// The bytes to write to the queue in order to send a value.
    pub fn async_send(&self, to_send: &T) -> (buf: Vec<u8>)
        ensures
            buf@ == T::encoding(to_send@),
    {
        to_send.encode()
    }

    /// The value received, given what a read has appended to the receive buffer.
    pub fn async_recv(&self, buf: &[u8], read: Poll<usize>) -> (value: Poll<T>)
        requires
            read matches Ok(Async::Ready(n)) ==> n <= buf@.len() && T::decoding(
                last_bytes(buf@, n as nat),
            ) is Some,
        ensures
            match read {
                Ok(Async::Ready(n)) => value matches Ok(Async::Ready(v)) && T::decoding(
                    last_bytes(buf@, n as nat),
                ) == Some(v@),
                Ok(Async::NotReady) => value matches Ok(Async::NotReady),
                Err(e) => value matches Err(f) && f == e,
            },
    {
        received_once_ready(message_at_end(buf, read))
    }
}

/// What a queue holds: messages, the oldest first, all of one priority.
pub struct QueueContents {
    /// The messages.
    pub messages: Seq<Seq<u8>>,
    /// How many messages there is room for.
    pub maxmsg: nat,
    /// The size of the largest message.
    pub msgsize: nat,
}

impl QueueContents {
    /// Whether there is room for a message.
    pub open spec fn takes(self, message: Seq<u8>) -> bool {
        message.len() <= self.msgsize && self.messages.len() < self.maxmsg
    }

    /// Whether a call that sends, made while the queue holds this, can leave `reply` behind and the
    /// queue with `after`.
    pub open spec fn sends(self, call: QueueWrite, reply: Reply, after: QueueContents) -> bool {
        if self.takes(call.buf@) {
            reply.ret == 0 && after == (QueueContents {
                messages: self.messages.push(call.buf@),
                ..self
            })
        } else {
            reply.ret == -1 && after == self
        }
    }

    /// Whether a call that receives, made while the queue holds this, can write `data`, leave
    /// `reply` behind and the queue with `after`.
    pub open spec fn receives(
        self,
        call: QueueRead,
        reply: ReceiveReply,
        data: Seq<u8>,
        after: QueueContents,
    ) -> bool {
        if self.messages.len() > 0 && self.msgsize <= call.size {
            reply.ret == data.len() && data == self.messages[0] && after == (QueueContents {
                messages: self.messages.drop_first(),
                ..self
            })
        } else {
            reply.ret == -1 && data.len() == 0 && after == self
        }
    }
}

/// Opening a queue succeeds exactly where both calls succeed. The queue then has the name it was
/// opened by, the descriptor of the first call and the message size of the second. A call that
/// fails gives its error code.
pub proof fn open_queue_outcome<T>(
    name: Vec<u8>,
    options: OpenOptions,
    opened: QueueReply,
    asked: QueueReply,
)
    ensures
        run(
            Step::Call(OpenQueue::<T>::Open { name, options, _phantom: PhantomData }),
            seq![opened, asked],
        ) == Step::<OpenQueue<T>, Result<MessageQueue<T>, IpcError>>::Done(
            if opened.ret == -1 {
                Err(IpcError::Os(opened.errno))
            } else if asked.ret < 0 {
                Err(IpcError::Os(asked.errno))
            } else {
                Ok(
                    MessageQueue {
                        mq_name: name,
                        fd: opened.ret,
                        size: asked.attributes.mq_msgsize as usize,
                        _phantom: PhantomData,
                    },
                )
            },
        ),
{
    reveal_with_fuel(run, 3);
    assert(seq![opened, asked].drop_first() =~= seq![asked]);
}

/// A queue's name starts with a slash and, like the name it was made from, holds no zero byte.
pub proof fn queue_name_is_valid(name: Seq<char>)
    requires
        !encode_utf8(name).contains(0),
    ensures
        queue_name(name)[0] == 0x2f,
        !queue_name(name).contains(0),
{
    if queue_name(name).contains(0) {
        let i = choose|i: int| 0 <= i < queue_name(name).len() && queue_name(name)[i] == 0;
        assert(encode_utf8(name)[i - 1] == 0);
    }
}

/// Two names open the same queue only where they are equal.
pub proof fn queue_names_differ(a: Seq<char>, b: Seq<char>)
    requires
        queue_name(a) == queue_name(b),
    ensures
        a == b,
{
    assert(queue_name(a).skip(1) =~= encode_utf8(a));
    assert(queue_name(b).skip(1) =~= encode_utf8(b));
    vstd::utf8::encode_utf8_decode_utf8(a);
    vstd::utf8::encode_utf8_decode_utf8(b);
}

/// A queue asks to be written again later exactly while it is full.
pub proof fn room_unless_full(contents: QueueContents, call: QueueRoom, reply: QueueReply)
    requires
        reply.ret == 0,
        reply.attributes.mq_maxmsg == contents.maxmsg,
        reply.attributes.mq_curmsgs == contents.messages.len(),
        contents.messages.len() <= contents.maxmsg,
    ensures
        call.after(reply) == Step::<QueueRoom, Poll<()>>::Done(
            if contents.messages.len() < contents.maxmsg {
                Ok(Async::Ready(()))
            } else {
                Ok(Async::NotReady)
            },
        ),
{
}

/// What is written to a queue with room comes out of it, the oldest message first.
pub proof fn written_is_read<'a>(
    before: QueueContents,
    write: QueueWrite<'a>,
    written: Reply,
    between: QueueContents,
    read: QueueRead,
    received: ReceiveReply,
    data: Seq<u8>,
    after: QueueContents,
)
    requires
        before.takes(write.buf@),
        before.sends(write, written, between),
        before.msgsize <= read.size,
        between.receives(read, received, data, after),
    ensures
        write.after(written) == Step::<QueueWrite<'a>, Result<usize, IpcError>>::Done(
            Ok(write.buf.len()),
        ),
        read.after(received) == Step::<QueueRead, Result<usize, IpcError>>::Done(
            Ok(data.len() as usize),
        ),
        data.len() <= isize::MAX,
        data == before.messages.push(write.buf@)[0],
        after.messages == before.messages.push(write.buf@).drop_first(),
{
}

/// A value sent on an empty queue is received from it at once, on any handle of the queue: the
/// bytes that the read appends to the receive buffer decode to that value.
pub proof fn sent_is_received<T: Message>(
    before: QueueContents,
    value: T::V,
    write: QueueWrite<'_>,
    written: Reply,
    between: QueueContents,
    rx: MessageQueue<T>,
    received: ReceiveReply,
    data: Seq<u8>,
    after: QueueContents,
)
    requires
        T::representable(value),
        write.buf@ == T::encoding(value),
        before.messages.len() == 0,
        before.takes(write.buf@),
        before.sends(write, written, between),
        before.msgsize <= rx.size,
        between.receives(QueueRead { fd: rx.fd, size: rx.size }, received, data, after),
    ensures
        data == T::encoding(value),
        T::decoding(last_bytes(zeros(rx.size as nat) + data, data.len())) == Some(value),
        after == before,
{
    assert(data =~= write.buf@);
    crate::buffer::appended_is_at_end(zeros(rx.size as nat), data);
    decoding_of_whole_encoding::<T>(value);
    assert(after.messages =~= before.messages);
}

/// Whether a queue holds exactly these values, the oldest first.
pub open spec fn holds_values<T: Message>(contents: QueueContents, values: Seq<T::V>) -> bool {
    contents.messages == values.map_values(|value: T::V| T::encoding(value))
}

/// Values are received in the order in which they were sent, whatever the queue holds: after one
/// more value is sent, the oldest is received, and the others stay in their order.
pub proof fn values_come_in_order<T: Message>(
    before: QueueContents,
    pending: Seq<T::V>,
    value: T::V,
    write: QueueWrite<'_>,
    written: Reply,
    between: QueueContents,
    rx: MessageQueue<T>,
    received: ReceiveReply,
    data: Seq<u8>,
    after: QueueContents,
)
    requires
        forall|i: int|
            0 <= i < pending.len() ==> T::representable(#[trigger] pending[i]),
        T::representable(value),
        holds_values::<T>(before, pending),
        write.buf@ == T::encoding(value),
        before.takes(write.buf@),
        before.sends(write, written, between),
        before.msgsize <= rx.size,
        between.receives(QueueRead { fd: rx.fd, size: rx.size }, received, data, after),
    ensures
        holds_values::<T>(between, pending.push(value)),
        T::decoding(last_bytes(zeros(rx.size as nat) + data, data.len())) == Some(
            pending.push(value)[0],
        ),
        holds_values::<T>(after, pending.push(value).drop_first()),
{
    let all = pending.push(value);
    let oldest = all[0];
    assert(T::representable(oldest)) by {
        if pending.len() > 0 {
            assert(oldest == pending[0]);
        }
    }
    let encode = |v: T::V| T::encoding(v);
    assert(between.messages =~= all.map_values(encode));
    assert(after.messages =~= all.drop_first().map_values(encode));
    assert(data == T::encoding(oldest));
    crate::buffer::appended_is_at_end(zeros(rx.size as nat), data);
    decoding_of_whole_encoding::<T>(oldest);
}

/// A message that is too large, or that a full queue has no room for, is refused with the error code
/// of the call, and the queue stays as it is.
pub proof fn refused_is_not_queued<'a>(
    before: QueueContents,
    write: QueueWrite<'a>,
    written: Reply,
    after: QueueContents,
)
    requires
        write.buf@.len() > before.msgsize || before.messages.len() >= before.maxmsg,
        before.sends(write, written, after),
    ensures
        write.after(written) == Step::<QueueWrite<'a>, Result<usize, IpcError>>::Done(
            Err(IpcError::Os(written.errno)),
        ),
        after == before,
{
}

/// Reading a queue that holds nothing gives the error code of the call, and the queue stays as it is.
pub proof fn nothing_is_read_of_nothing(
    before: QueueContents,
    read: QueueRead,
    received: ReceiveReply,
    data: Seq<u8>,
    after: QueueContents,
)
    requires
        before.messages.len() == 0,
        before.receives(read, received, data, after),
    ensures
        read.after(received) == Step::<QueueRead, Result<usize, IpcError>>::Done(
            Err(IpcError::Os(received.errno)),
        ),
        after == before,
{
}

/// Of two handles of one queue, the first to be let go takes the name away and makes no other call;
/// the second, for which there is no name left, closes the descriptor.
pub proof fn two_handles_are_released<'a>(
    name: &'a [u8],
    fd: i32,
    first: Reply,
    second: Reply,
    closed: Reply,
)
    requires
        first.ret == 0,
        second.ret == -1,
    ensures
        run(Step::Call(QueueRelease::Unlink { name, fd }), seq![first]) == Step::<
            QueueRelease<'a>,
            Poll<()>,
        >::Done(Ok(Async::Ready(()))),
        run(Step::Call(QueueRelease::Unlink { name, fd }), seq![second]) == Step::<
            QueueRelease<'a>,
            Poll<()>,
        >::Call(QueueRelease::Close { fd }),
        run(Step::Call(QueueRelease::Unlink { name, fd }), seq![second, closed]) == Step::<
            QueueRelease<'a>,
            Poll<()>,
        >::Done(
            if closed.ret < 0 {
                Err(IpcError::Os(closed.errno))
            } else {
                Ok(Async::Ready(()))
            },
        ),
{
    reveal_with_fuel(run, 3);
    assert(seq![second, closed].drop_first() =~= seq![closed]);
}

/// The name of a queue is a slash and then the name that was given, with nothing left out or added.
pub proof fn queue_name_layout(name: Seq<char>)
    ensures
        queue_name(name).len() == 1 + encode_utf8(name).len(),
        queue_name(name).first() == 0x2f,
        queue_name(name).skip(1) == encode_utf8(name),
{
    assert(queue_name(name).skip(1) =~= encode_utf8(name));
}

/// A queue is opened so that calls on it do not wait, for sending and receiving, and is made if
/// there is none; its owner and others can read and write it.
pub proof fn queues_are_open_to_all()
    ensures
        queue_options().nonblocking && queue_options().read_write && queue_options().create,
        queue_options().owner_reads && queue_options().owner_writes,
        queue_options().others_read && queue_options().others_write,
{
}

/// The attributes that are asked for are those of the queue that was opened, under its name; a queue
/// that could not be opened is asked for nothing.
pub proof fn opened_queue_is_asked<T>(name: Vec<u8>, options: OpenOptions, opened: QueueReply)
    ensures
        match (OpenQueue::<T>::Open { name, options, _phantom: PhantomData }).after(opened) {
            Step::Call(OpenQueue::GetAttributes { name: n, fd, _phantom }) => opened.ret != -1 && n
                == name && fd == opened.ret,
            Step::Call(OpenQueue::Open { name, options, _phantom }) => false,
            Step::Done(Ok(queue)) => false,
            Step::Done(Err(e)) => opened.ret == -1 && e == IpcError::Os(opened.errno),
        },
        (OpenQueue::<T>::Open { name, options, _phantom: PhantomData }).answered_by(opened),
{
}

/// The queue that comes of opening is the one whose attributes were asked for: it has the name and
/// the descriptor that the call was made with, and the message size that came back.
pub proof fn asked_queue_is_given<T>(name: Vec<u8>, fd: i32, asked: QueueReply)
    ensures
        match (OpenQueue::<T>::GetAttributes { name, fd, _phantom: PhantomData }).after(asked) {
            Step::Call(call) => false,
            Step::Done(Ok(queue)) => {
                &&& asked.ret >= 0
                &&& queue.mq_name == name
                &&& queue.fd == fd
                &&& queue.size == asked.attributes.mq_msgsize as usize
            },
            Step::Done(Err(e)) => asked.ret < 0 && e == IpcError::Os(asked.errno),
        },
        (OpenQueue::<T>::GetAttributes { name, fd, _phantom: PhantomData }).answered_by(asked),
{
}

/// A write is over after its call. It counts as failed exactly where the call returned minus one,
/// and otherwise as having taken the whole message.
pub proof fn write_takes_all_or_fails<'a>(write: QueueWrite<'a>, written: Reply)
    ensures
        match write.after(written) {
            Step::Call(call) => false,
            Step::Done(Ok(n)) => written.ret != -1 && n == write.buf@.len(),
            Step::Done(Err(e)) => written.ret == -1 && e == IpcError::Os(written.errno),
        },
        write.answered_by(written),
{
}

/// A read is over after its call, and reports what the call reported: the size of the message, or
/// where that is negative the error code.
pub proof fn read_reports_the_size(read: QueueRead, received: ReceiveReply)
    ensures
        match read.after(received) {
            Step::Call(call) => false,
            Step::Done(Ok(n)) => n == received.ret,
            Step::Done(Err(e)) => received.ret < 0 && e == IpcError::Os(received.errno),
        },
        read.answered_by(received),
{
}

/// Asking for room is over after its call. It fails exactly where the call failed; there is no room
/// exactly where the queue holds as many messages as it can.
pub proof fn room_is_told_by_the_attributes(call: QueueRoom, reply: QueueReply)
    ensures
        match call.after(reply) {
            Step::Call(call) => false,
            Step::Done(Ok(Async::Ready(()))) => reply.ret >= 0 && reply.attributes.mq_maxmsg
                != reply.attributes.mq_curmsgs,
            Step::Done(Ok(Async::NotReady)) => reply.ret >= 0 && reply.attributes.mq_maxmsg
                == reply.attributes.mq_curmsgs,
            Step::Done(Err(e)) => reply.ret < 0 && e == IpcError::Os(reply.errno),
        },
        call.answered_by(reply),
{
}

/// A queue is let go of by its name first; its descriptor, and no other, is closed exactly where
/// that fails. Letting go fails only where closing fails as well.
pub proof fn descriptor_is_closed_where_the_name_stays<'a>(
    name: &'a [u8],
    fd: i32,
    unlinked: Reply,
    closed: Reply,
)
    ensures
        match (QueueRelease::Unlink { name, fd }).after(unlinked) {
            Step::Call(QueueRelease::Close { fd: f }) => unlinked.ret < 0 && f == fd,
            Step::Call(QueueRelease::Unlink { name, fd }) => false,
            Step::Done(released) => unlinked.ret >= 0 && released == Ok::<_, IpcError>(
                Async::Ready(()),
            ),
        },
        match (QueueRelease::Close { fd }).after(closed) {
            Step::Call(call) => false,
            Step::Done(Ok(released)) => closed.ret >= 0 && released is Ready,
            Step::Done(Err(e)) => closed.ret < 0 && e == IpcError::Os(closed.errno),
        },
        (QueueRelease::Unlink { name, fd }).answered_by(unlinked),
        (QueueRelease::Close { fd }).answered_by(closed),
{
}

} // verus!

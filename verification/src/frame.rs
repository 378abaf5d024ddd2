//! Messages on a byte stream: each goes behind its length, a machine word.

use vstd::prelude::*;

use crate::operation::{run, IpcError, Operation, Step};
use crate::wire::{
    decode_word, encode_word, word_bytes, word_bytes_len, word_value, word_value_bound,
    word_value_of_word_bytes, word_values, word_values_of_machine_words, ByteOrder,
};

verus! {

broadcast use vstd::layout::layout_of_primitives;

/// The size in bytes of a machine word.
pub open spec fn word_size() -> nat {
    (usize::BITS / 8) as nat
}

/// The size in bytes of a machine word.
pub fn size_of_word() -> (size: usize)
    ensures
        size == word_size(),
        size == 4 || size == 8,
{
    core::mem::size_of::<usize>()
}

/// A message as it stands on the stream.
pub open spec fn frame(body: Seq<u8>, order: ByteOrder) -> Seq<u8> {
    word_bytes(body.len(), word_size(), order) + body
}

/// Messages as they stand on the stream, one behind the other.
pub open spec fn frames(bodies: Seq<Seq<u8>>, order: ByteOrder) -> Seq<u8>
    decreases bodies.len(),
{
    if bodies.len() == 0 {
        Seq::empty()
    } else {
        frame(bodies[0], order) + frames(bodies.drop_first(), order)
    }
}

/// What a call that writes to a stream left behind.
#[derive(Clone, Copy, Debug, PartialEq, Eq, Structural)]
pub struct WriteReply {
    /// What the call returned.
    pub ret: isize,
    /// The error code of the calling thread after the call.
    pub errno: i32,
}

/// What a call that reads from a stream left behind.
#[derive(Debug)]
pub struct ReadReply {
    /// What the call returned.
    pub ret: isize,
    /// The error code of the calling thread after the call.
    pub errno: i32,
    /// The whole buffer that was handed to the call.
    pub data: Vec<u8>,
}

/// Writing one message to a stream. A call counts as failed only where it returns zero.
#[derive(Debug)]
pub enum FrameWrite<'a> {
    /// Writes the length.
    Length { socket: i32, length: Vec<u8>, body: &'a [u8] },
    /// Writes the message.
    Body { socket: i32, body: &'a [u8] },
}

impl<'a> FrameWrite<'a> {
    /// The message that is being written.
    pub open spec fn message(self) -> Seq<u8> {
        match self {
            FrameWrite::Length { socket, length, body } => body@,
            FrameWrite::Body { socket, body } => body@,
        }
    }

    /// The bytes that the call hands to the system.
    pub open spec fn bytes(self) -> Seq<u8> {
        match self {
            FrameWrite::Length { socket, length, body } => length@,
            FrameWrite::Body { socket, body } => body@,
        }
    }

    /// Whether this starts to write `body` on `socket`.
    pub open spec fn starts(self, socket: i32, order: ByteOrder, body: &'a [u8]) -> bool {
        self matches FrameWrite::Length { socket: s, length, body: b } && s == socket && length@
            == word_bytes(body@.len(), word_size(), order) && b == body
    }

    /// Starts to write `body` on `socket`.
    pub fn start(socket: i32, order: ByteOrder, body: &'a [u8]) -> (write: FrameWrite<'a>)
        ensures
            write.starts(socket, order, body),
    {
        let length = encode_word(body.len() as u64, size_of_word(), order);
        FrameWrite::Length { socket, length, body }
    }
}

impl<'a> Operation for FrameWrite<'a> {
    type Reply = WriteReply;

    type Outcome = Result<usize, IpcError>;

    open spec fn answered_by(self, reply: WriteReply) -> bool {
        self.message().len() <= isize::MAX
    }

    open spec fn after(self, reply: WriteReply) -> Step<Self, Result<usize, IpcError>> {
        if reply.ret == 0 {
            Step::Done(Err(IpcError::Os(reply.errno)))
        } else {
            match self {
                FrameWrite::Length { socket, length, body } => Step::Call(
                    FrameWrite::Body { socket, body },
                ),
                FrameWrite::Body { socket, body } => Step::Done(
                    Ok((body@.len() + word_size()) as usize),
                ),
            }
        }
    }

    fn resume(self, reply: WriteReply) -> Step<Self, Result<usize, IpcError>> {
        if reply.ret == 0 {
            return Step::Done(Err(IpcError::Os(reply.errno)));
        }
        match self {
            FrameWrite::Length { socket, length: _, body } => Step::Call(
                FrameWrite::Body { socket, body },
            ),
            FrameWrite::Body { socket: _, body } => Step::Done(Ok(body.len() + size_of_word())),
        }
    }
}

/// A message that was read from a stream.
#[derive(Debug)]
pub struct Frame {
    /// The message.
    pub body: Vec<u8>,
    /// How many bytes were read, the length included.
    pub count: usize,
}

/// Reading one message from a stream, for a buffer of `room` bytes.
#[derive(Clone, Copy, Debug)]
pub enum FrameRead {
    /// Reads the length.
    Length { socket: i32, order: ByteOrder, room: usize },
    /// Reads a message of `size` bytes.
    Body { socket: i32, size: usize, room: usize },
}

impl FrameRead {
    /// How many bytes the call asks the system for.
    pub open spec fn wants(self) -> nat {
        match self {
            FrameRead::Length { socket, order, room } => word_size(),
            FrameRead::Body { socket, size, room } => size as nat,
        }
    }
}

impl Operation for FrameRead {
    type Reply = ReadReply;

    type Outcome = Result<Frame, IpcError>;

    open spec fn answered_by(self, reply: ReadReply) -> bool {
        reply.data@.len() == self.wants() && self.wants() <= isize::MAX
    }

    open spec fn after(self, reply: ReadReply) -> Step<Self, Result<Frame, IpcError>> {
        if reply.ret != self.wants() {
            Step::Done(Err(IpcError::Os(reply.errno)))
        } else {
            match self {
                FrameRead::Length { socket, order, room } => Step::Call(
                    FrameRead::Body { socket, size: word_value(reply.data@, order) as usize, room },
                ),
                FrameRead::Body { socket, size, room } => if room < size {
                    Step::Done(Err(IpcError::InvalidInput))
                } else {
                    Step::Done(
                        Ok(Frame { body: reply.data, count: (size + word_size()) as usize }),
                    )
                },
            }
        }
    }

    fn resume(self, reply: ReadReply) -> Step<Self, Result<Frame, IpcError>> {
        match self {
            FrameRead::Length { socket, order, room } => {
                if reply.ret != size_of_word() as isize {
                    return Step::Done(Err(IpcError::Os(reply.errno)));
                }
                proof {
                    lemma_word_fits(reply.data@, order);
                }
                let size: usize = decode_word(reply.data.as_slice(), order) as usize;
                Step::Call(FrameRead::Body { socket, size, room })
            },
            FrameRead::Body { socket: _, size, room } => {
                if reply.ret != size as isize {
                    return Step::Done(Err(IpcError::Os(reply.errno)));
                }
                if room < size {
                    return Step::Done(Err(IpcError::InvalidInput));
                }
                Step::Done(Ok(Frame { body: reply.data, count: size + size_of_word() }))
            },
        }
    }
}

/// A machine word holds every length and nothing else.
proof fn lemma_word_fits(bytes: Seq<u8>, order: ByteOrder)
    requires
        bytes.len() == word_size(),
    ensures
        word_values(word_size()) == usize::MAX + 1,
        word_value(bytes, order) <= usize::MAX,
{
    word_value_bound(bytes, order);
    word_values_of_machine_words();
}

/// Whether a call that reads, made while `stream` waits to be read, can leave `reply` behind and
/// `rest` to be read: all that the call asks for is there, and the call gets it.
pub open spec fn reads(stream: Seq<u8>, call: FrameRead, reply: ReadReply, rest: Seq<u8>) -> bool {
    &&& call.wants() <= stream.len()
    &&& reply.ret == call.wants()
    &&& reply.data@ == stream.take(call.wants() as int)
    &&& rest == stream.skip(call.wants() as int)
}

/// Writing a message makes two calls, which put its frame on the stream, and reports a count that
/// is no less than the size of the message. Either call gives its error code where it returns zero.
pub proof fn frame_is_written<'a>(
    write: FrameWrite<'a>,
    socket: i32,
    order: ByteOrder,
    body: &'a [u8],
    first: WriteReply,
    second: WriteReply,
)
    requires
        write.starts(socket, order, body),
        body@.len() <= isize::MAX,
    ensures
        first.ret != 0 ==> (write.after(first) matches Step::Call(next) && next.message() == body@
            && write.bytes() + next.bytes() == frame(body@, order)),
        run(Step::Call(write), seq![first, second]) == Step::<
            FrameWrite<'a>,
            Result<usize, IpcError>,
        >::Done(
            if first.ret == 0 {
                Err(IpcError::Os(first.errno))
            } else if second.ret == 0 {
                Err(IpcError::Os(second.errno))
            } else {
                Ok((body@.len() + word_size()) as usize)
            },
        ),
        (body@.len() + word_size()) as usize >= body@.len(),
{
    reveal_with_fuel(run, 3);
    assert(seq![first, second].drop_first() =~= seq![second]);
}

/// A frame at the front of a stream is read back whole: the message that was written, and nothing
/// of what comes behind it. A message that is larger than the buffer is refused, and is then gone
/// from the stream as well.
pub proof fn frame_is_read(
    socket: i32,
    order: ByteOrder,
    room: usize,
    body: Seq<u8>,
    behind: Seq<u8>,
    first: ReadReply,
    between: Seq<u8>,
    second: ReadReply,
    rest: Seq<u8>,
)
    requires
        body.len() <= isize::MAX,
        reads(
            frame(body, order) + behind,
            FrameRead::Length { socket, order, room },
            first,
            between,
        ),
        reads(
            between,
            FrameRead::Body { socket, size: body.len() as usize, room },
            second,
            rest,
        ),
    ensures
        (FrameRead::Length { socket, order, room }).after(first) == Step::<
            FrameRead,
            Result<Frame, IpcError>,
        >::Call(FrameRead::Body { socket, size: body.len() as usize, room }),
        run(Step::Call(FrameRead::Length { socket, order, room }), seq![first, second]) == Step::<
            FrameRead,
            Result<Frame, IpcError>,
        >::Done(
            if body.len() <= room {
                Ok(Frame { body: second.data, count: (body.len() + word_size()) as usize })
            } else {
                Err(IpcError::InvalidInput)
            },
        ),
        second.data@ == body,
        rest == behind,
{
    let header = word_bytes(body.len(), word_size(), order);
    word_bytes_len(body.len(), word_size(), order);
    lemma_word_fits(header, order);
    word_value_of_word_bytes(body.len(), word_size(), order);
    assert((frame(body, order) + behind).take(word_size() as int) =~= header);
    assert((frame(body, order) + behind).skip(word_size() as int) =~= body + behind);
    assert((body + behind).take(body.len() as int) =~= body);
    assert((body + behind).skip(body.len() as int) =~= behind);
    reveal_with_fuel(run, 3);
    assert(seq![first, second].drop_first() =~= seq![second]);
}

/// Messages are read in the order in which they were written, each whole: reading one leaves the
/// frames of the others.
pub proof fn frames_are_read_in_order(
    socket: i32,
    order: ByteOrder,
    room: usize,
    bodies: Seq<Seq<u8>>,
    first: ReadReply,
    between: Seq<u8>,
    second: ReadReply,
    rest: Seq<u8>,
)
    requires
        bodies.len() > 0,
        bodies[0].len() <= isize::MAX,
        bodies[0].len() <= room,
        reads(
            frames(bodies, order),
            FrameRead::Length { socket, order, room },
            first,
            between,
        ),
        reads(
            between,
            FrameRead::Body { socket, size: bodies[0].len() as usize, room },
            second,
            rest,
        ),
    ensures
        run(Step::Call(FrameRead::Length { socket, order, room }), seq![first, second]) == Step::<
            FrameRead,
            Result<Frame, IpcError>,
        >::Done(
            Ok(Frame { body: second.data, count: (bodies[0].len() + word_size()) as usize }),
        ),
        second.data@ == bodies[0],
        rest == frames(bodies.drop_first(), order),
{
    frame_is_read(
        socket,
        order,
        room,
        bodies[0],
        frames(bodies.drop_first(), order),
        first,
        between,
        second,
        rest,
    );
}

/// Writing messages one after the other puts their frames on the stream in that order.
pub proof fn frames_are_appended(bodies: Seq<Seq<u8>>, last: Seq<u8>, order: ByteOrder)
    ensures
        frames(bodies.push(last), order) == frames(bodies, order) + frame(last, order),
    decreases bodies.len(),
{
    if bodies.len() == 0 {
        reveal_with_fuel(frames, 2);
        assert(bodies.push(last).drop_first() =~= Seq::<Seq<u8>>::empty());
        assert(frames(bodies.push(last), order) =~= frames(bodies, order) + frame(last, order));
    } else {
        frames_are_appended(bodies.drop_first(), last, order);
        assert(bodies.push(last).drop_first() =~= bodies.drop_first().push(last));
        assert(frames(bodies.push(last), order) =~= frames(bodies, order) + frame(last, order));
    }
}

/// A machine word has as many bytes as its bits fill.
pub proof fn word_size_fills_the_bits()
    ensures
        word_size() * 8 == usize::BITS,
{
}

/// A frame is the length of the message, as a machine word, and then the message.
pub proof fn frame_layout(body: Seq<u8>, order: ByteOrder)
    requires
        body.len() <= usize::MAX,
    ensures
        frame(body, order).len() == word_size() + body.len(),
        word_value(frame(body, order).take(word_size() as int), order) == body.len(),
        frame(body, order).skip(word_size() as int) == body,
{
    let header = word_bytes(body.len(), word_size(), order);
    word_bytes_len(body.len(), word_size(), order);
    lemma_word_fits(header, order);
    word_value_of_word_bytes(body.len(), word_size(), order);
    assert(frame(body, order).take(word_size() as int) =~= header);
    assert(frame(body, order).skip(word_size() as int) =~= body);
}

/// A message is written on one socket: the call that starts it writes the length there, and the call
/// after it, whatever the message is, writes all of the message to that same socket.
pub proof fn one_socket_is_written<'a>(
    write: FrameWrite<'a>,
    socket: i32,
    order: ByteOrder,
    body: &'a [u8],
    first: WriteReply,
)
    requires
        write.starts(socket, order, body),
    ensures
        write matches FrameWrite::Length { socket: s, length, body: b } && s == socket && length@
            + b@ == frame(body@, order) && b == body,
        first.ret != 0 ==> (write.after(first) matches Step::Call(
            FrameWrite::Body { socket: s, body: b },
        ) && s == socket && b == body),
        first.ret == 0 ==> (write.after(first) matches Step::Done(Err(e)) && e == IpcError::Os(
            first.errno,
        )),
        body@.len() <= isize::MAX ==> write.answered_by(first),
{
}

/// Once the message is written the write is over: it fails with the error code where the call
/// returned zero, and otherwise reports the message and its length.
pub proof fn message_ends_the_write<'a>(socket: i32, body: &'a [u8], second: WriteReply)
    requires
        body@.len() <= isize::MAX,
    ensures
        match (FrameWrite::Body { socket, body }).after(second) {
            Step::Call(call) => false,
            Step::Done(Ok(n)) => second.ret != 0 && n - word_size() == body@.len(),
            Step::Done(Err(e)) => second.ret == 0 && e == IpcError::Os(second.errno),
        },
        (FrameWrite::Body { socket, body }).answered_by(second),
{
}

/// A message is read from one socket, and only whole. Where the call for the length gets all of it,
/// the next call asks the same socket for as many bytes as the length says; where it gets any other
/// number, the read fails with the error code.
pub proof fn length_is_read_whole(
    socket: i32,
    order: ByteOrder,
    room: usize,
    first: ReadReply,
)
    requires
        first.data@.len() == usize::BITS / 8,
    ensures
        (FrameRead::Length { socket, order, room }).answered_by(first),
        match (FrameRead::Length { socket, order, room }).after(first) {
            Step::Call(FrameRead::Body { socket: s, size, room: r }) => {
                &&& first.ret * 8 == usize::BITS
                &&& s == socket
                &&& size == word_value(first.data@, order)
                &&& r == room
            },
            Step::Call(FrameRead::Length { socket, order, room }) => false,
            Step::Done(Ok(frame)) => false,
            Step::Done(Err(e)) => first.ret * 8 != usize::BITS && e == IpcError::Os(first.errno),
        },
{
    lemma_word_fits(first.data@, order);
}

/// Where the call for the message gets all of it and the buffer has room for it, the message is what
/// was read, and the count is that of the message and its length. Any other number of bytes fails
/// with the error code, and a message that is too large for the buffer is refused.
pub proof fn message_is_read_whole(socket: i32, size: usize, room: usize, second: ReadReply)
    requires
        second.data@.len() == size <= isize::MAX,
    ensures
        (FrameRead::Body { socket, size, room }).answered_by(second),
        match (FrameRead::Body { socket, size, room }).after(second) {
            Step::Call(call) => false,
            Step::Done(Ok(frame)) => {
                &&& second.ret == size
                &&& size <= room
                &&& frame.body == second.data
                &&& frame.count - word_size() == size
            },
            Step::Done(Err(IpcError::Os(code))) => second.ret != size && code == second.errno,
            Step::Done(Err(IpcError::InvalidInput)) => second.ret == size && room < size,
            Step::Done(Err(IpcError::InvalidData)) => false,
        },
{
}

} // verus!

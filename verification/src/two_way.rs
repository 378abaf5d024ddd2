//! Stream sockets of the Unix domain on Windows, where one type is both ends of a channel: the
//! first to use a name becomes its server, the next connects to it.

use std::marker::PhantomData;

use vstd::prelude::*;
use vstd::utf8::encode_utf8;

use crate::address::{stream_options, unix_stream, SocketAddress, SocketOptions, LONGEST_NAME};
use crate::message::{decoding_of_whole_encoding, received, Message};
use crate::operation::{run, IpcError, Operation, Step};
use crate::wire::{
    decode_word, encode_word, word_bytes, word_bytes_len, word_value, word_value_bound,
    word_value_of_word_bytes, word_values_of_machine_words, ByteOrder,
};

verus! {

/// The socket that stands for none.
pub const INVALID_SOCKET: usize = usize::MAX;

/// The error code of binding to an address that another socket is bound to.
pub const ADDRESS_IN_USE: i32 = 10048;

/// The size in bytes of the length that goes in front of a message.
pub const LENGTH_SIZE: usize = 4;

/// One end of a channel.
#[derive(Debug)]
pub struct UnixSockStream<T> {
    /// The socket that was made for the address.
    pub connect_socket: usize,
    /// The socket to talk on, or [`INVALID_SOCKET`] while there is none.
    pub socket: usize,
    /// What the channel carries.
    pub _phantom: PhantomData<T>,
}

/// What a call on a socket left behind.
#[derive(Debug)]
pub struct SocketReply {
    /// What a call that returns a number returned.
    pub ret: i32,
    /// What a call that returns a socket returned.
    pub socket: usize,
    /// The error code of the calling thread after the call.
    pub errno: i32,
    /// The whole buffer that was handed to a call that receives.
    pub data: Vec<u8>,
}

/// Opening an end.
#[derive(Debug)]
pub enum OpenStream<T> {
    /// Makes a socket.
    Socket { options: SocketOptions, address: SocketAddress, _phantom: PhantomData<T> },
    /// Binds it to the address.
    Bind { socket: usize, address: SocketAddress, _phantom: PhantomData<T> },
    /// Lets the other end connect to it; so many may wait.
    Listen { socket: usize, backlog: i32, address: SocketAddress, _phantom: PhantomData<T> },
    /// Connects it to the address, which is in use.
    Connect { socket: usize, address: SocketAddress, _phantom: PhantomData<T> },
}

impl<T> OpenStream<T> {
    /// What comes after binding or listening has failed: where the address is in use there is
    /// another end to connect to.
    pub open spec fn not_the_first(
        socket: usize,
        address: SocketAddress,
        errno: i32,
        _phantom: PhantomData<T>,
    ) -> Step<OpenStream<T>, Result<UnixSockStream<T>, IpcError>> {
        if errno == ADDRESS_IN_USE {
            Step::Call(OpenStream::Connect { socket, address, _phantom })
        } else {
            Step::Done(Err(IpcError::Os(errno)))
        }
    }
}

impl<T> Operation for OpenStream<T> {
    type Reply = SocketReply;

    type Outcome = Result<UnixSockStream<T>, IpcError>;

    open spec fn answered_by(self, reply: SocketReply) -> bool {
        true
    }

    open spec fn after(self, reply: SocketReply) -> Step<Self, Result<UnixSockStream<T>, IpcError>> {
        match self {
            OpenStream::Socket { options, address, _phantom } => if reply.socket == INVALID_SOCKET {
                Step::Done(Err(IpcError::Os(reply.errno)))
            } else {
                Step::Call(OpenStream::Bind { socket: reply.socket, address, _phantom })
            },
            OpenStream::Bind { socket, address, _phantom } => if reply.ret != 0 {
                Self::not_the_first(socket, address, reply.errno, _phantom)
            } else {
                Step::Call(OpenStream::Listen { socket, backlog: 1, address, _phantom })
            },
            OpenStream::Listen { socket, backlog, address, _phantom } => if reply.ret != 0 {
                Self::not_the_first(socket, address, reply.errno, _phantom)
            } else {
                Step::Done(
                    Ok(UnixSockStream { connect_socket: socket, socket: INVALID_SOCKET, _phantom }),
                )
            },
            OpenStream::Connect { socket, address, _phantom } => if reply.ret != 0 {
                Step::Done(Err(IpcError::Os(reply.errno)))
            } else {
                Step::Done(Ok(UnixSockStream { connect_socket: socket, socket, _phantom }))
            },
        }
    }

    fn resume(self, reply: SocketReply) -> Step<Self, Result<UnixSockStream<T>, IpcError>> {
        match self {
            OpenStream::Socket { options: _, address, _phantom } => {
                if reply.socket == INVALID_SOCKET {
                    return Step::Done(Err(IpcError::Os(reply.errno)));
                }
                Step::Call(OpenStream::Bind { socket: reply.socket, address, _phantom })
            },
            OpenStream::Bind { socket, address, _phantom } => {
                if reply.ret != 0 {
                    if reply.errno != ADDRESS_IN_USE {
                        return Step::Done(Err(IpcError::Os(reply.errno)));
                    }
                    return Step::Call(OpenStream::Connect { socket, address, _phantom });
                }
                Step::Call(OpenStream::Listen { socket, backlog: 1, address, _phantom })
            },
            OpenStream::Listen { socket, backlog: _, address, _phantom } => {
                if reply.ret != 0 {
                    if reply.errno != ADDRESS_IN_USE {
                        return Step::Done(Err(IpcError::Os(reply.errno)));
                    }
                    return Step::Call(OpenStream::Connect { socket, address, _phantom });
                }
                Step::Done(
                    Ok(UnixSockStream { connect_socket: socket, socket: INVALID_SOCKET, _phantom }),
                )
            },
            OpenStream::Connect { socket, address: _, _phantom } => {
                if reply.ret != 0 {
                    return Step::Done(Err(IpcError::Os(reply.errno)));
                }
                Step::Done(Ok(UnixSockStream { connect_socket: socket, socket, _phantom }))
            },
        }
    }
}

/// What an end has received, and the end as it then is.
#[derive(Debug)]
pub struct Received<T> {
    /// The end, with the socket it talks on, if it has got one.
    pub stream: UnixSockStream<T>,
    /// The message.
    pub message: Result<Vec<u8>, IpcError>,
}

/// Receiving one message.
#[derive(Debug)]
pub enum RecvStream<T> {
    /// Waits for the other end to connect.
    Accept { stream: UnixSockStream<T>, order: ByteOrder },
    /// Receives the length, of [`LENGTH_SIZE`] bytes.
    Length { stream: UnixSockStream<T>, order: ByteOrder, flags: i32 },
    /// Receives a message of `size` bytes.
    Body { stream: UnixSockStream<T>, size: i32, flags: i32 },
}

/// The number that the length in front of a message stands for.
pub open spec fn length_value(bytes: Seq<u8>, order: ByteOrder) -> i32 {
    let n = word_value(bytes, order);
    if n <= i32::MAX {
        n as i32
    } else {
        (n - 0x1_0000_0000) as i32
    }
}

impl<T> Operation for RecvStream<T> {
    type Reply = SocketReply;

    type Outcome = Received<T>;

    open spec fn answered_by(self, reply: SocketReply) -> bool {
        match self {
            RecvStream::Accept { stream, order } => true,
            RecvStream::Length { stream, order, flags } => reply.data@.len() == LENGTH_SIZE,
            RecvStream::Body { stream, size, flags } => reply.data@.len() == size,
        }
    }

    open spec fn after(self, reply: SocketReply) -> Step<Self, Received<T>> {
        match self {
            RecvStream::Accept { stream, order } => if reply.socket == INVALID_SOCKET {
                Step::Done(Received { stream, message: Err(IpcError::Os(reply.errno)) })
            } else {
                Step::Call(
                    RecvStream::Length {
                        stream: UnixSockStream { socket: reply.socket, ..stream },
                        order,
                        flags: 0,
                    },
                )
            },
            RecvStream::Length { stream, order, flags } => if reply.ret != LENGTH_SIZE {
                Step::Done(Received { stream, message: Err(IpcError::Os(reply.errno)) })
            } else {
                Step::Call(
                    RecvStream::Body {
                        stream,
                        size: length_value(reply.data@, order),
                        flags: 0,
                    },
                )
            },
            RecvStream::Body { stream, size, flags } => if reply.ret != size {
                Step::Done(Received { stream, message: Err(IpcError::Os(reply.errno)) })
            } else {
                Step::Done(Received { stream, message: Ok(reply.data) })
            },
        }
    }

    fn resume(self, reply: SocketReply) -> Step<Self, Received<T>> {
        match self {
            RecvStream::Accept { stream, order } => {
                if reply.socket == INVALID_SOCKET {
                    return Step::Done(
                        Received { stream, message: Err(IpcError::Os(reply.errno)) },
                    );
                }
                Step::Call(
                    RecvStream::Length {
                        stream: UnixSockStream {
                            connect_socket: stream.connect_socket,
                            socket: reply.socket,
                            _phantom: stream._phantom,
                        },
                        order,
                        flags: 0,
                    },
                )
            },
            RecvStream::Length { stream, order, flags: _ } => {
                if reply.ret != LENGTH_SIZE as i32 {
                    return Step::Done(
                        Received { stream, message: Err(IpcError::Os(reply.errno)) },
                    );
                }
                proof {
                    word_value_bound(reply.data@, order);
                    word_values_of_machine_words();
                }
                let n: u64 = decode_word(reply.data.as_slice(), order);
                let size: i32 = if n <= 0x7fff_ffff {
                    n as i32
                } else {
                    (n as i64 - 0x1_0000_0000) as i32
                };
                Step::Call(RecvStream::Body { stream, size, flags: 0 })
            },
            RecvStream::Body { stream, size, flags: _ } => {
                if reply.ret != size {
                    return Step::Done(
                        Received { stream, message: Err(IpcError::Os(reply.errno)) },
                    );
                }
                Step::Done(Received { stream, message: Ok(reply.data) })
            },
        }
    }
}

/// Waiting for the other end to connect, before something is sent to it.
#[derive(Debug)]
pub struct AcceptPeer<T> {
    /// The end that waits.
    pub stream: UnixSockStream<T>,
}

/// Whether an end has a socket to talk on.
#[derive(Debug)]
pub enum Peer<T> {
    /// It has one.
    Connected(UnixSockStream<T>),
    /// The system gave none; this is why.
    Refused(UnixSockStream<T>, IpcError),
}

impl<T> Operation for AcceptPeer<T> {
    type Reply = SocketReply;

    type Outcome = Peer<T>;

    open spec fn answered_by(self, reply: SocketReply) -> bool {
        true
    }

    open spec fn after(self, reply: SocketReply) -> Step<Self, Peer<T>> {
        if reply.socket == INVALID_SOCKET {
            Step::Done(Peer::Refused(self.stream, IpcError::Os(reply.errno)))
        } else {
            Step::Done(Peer::Connected(UnixSockStream { socket: reply.socket, ..self.stream }))
        }
    }

    fn resume(self, reply: SocketReply) -> Step<Self, Peer<T>> {
        if reply.socket == INVALID_SOCKET {
            return Step::Done(Peer::Refused(self.stream, IpcError::Os(reply.errno)));
        }
        Step::Done(
            Peer::Connected(
                UnixSockStream {
                    connect_socket: self.stream.connect_socket,
                    socket: reply.socket,
                    _phantom: self.stream._phantom,
                },
            ),
        )
    }
}

/// What came of sending, and the end as it then is.
#[derive(Debug)]
pub struct Sent<T> {
    /// The end, with the socket it talks on, if it has got one.
    pub stream: UnixSockStream<T>,
    /// Whether the message was sent.
    pub result: Result<(), IpcError>,
}

/// The length that goes in front of a message.
pub open spec fn length_bytes(len: nat, order: ByteOrder) -> Seq<u8> {
    word_bytes(len, LENGTH_SIZE as nat, order)
}

/// Sending one message. A call counts as failed only where it returns zero.
#[derive(Debug)]
pub enum SendStream<T> {
    /// Sends the length.
    Length { stream: UnixSockStream<T>, length: Vec<u8>, body: Vec<u8>, flags: i32 },
    /// Sends the message.
    Body { stream: UnixSockStream<T>, body: Vec<u8>, flags: i32 },
}

impl<T> SendStream<T> {
    /// The bytes that the call hands to the system.
    pub open spec fn bytes(self) -> Seq<u8> {
        match self {
            SendStream::Length { stream, length, body, flags } => length@,
            SendStream::Body { stream, body, flags } => body@,
        }
    }
}

impl<T> Operation for SendStream<T> {
    type Reply = SocketReply;

    type Outcome = Sent<T>;

    open spec fn answered_by(self, reply: SocketReply) -> bool {
        true
    }

    open spec fn after(self, reply: SocketReply) -> Step<Self, Sent<T>> {
        match self {
            SendStream::Length { stream, length, body, flags } => if reply.ret == 0 {
                Step::Done(Sent { stream, result: Err(IpcError::Os(reply.errno)) })
            } else {
                Step::Call(SendStream::Body { stream, body, flags: 0 })
            },
            SendStream::Body { stream, body, flags } => if reply.ret == 0 {
                Step::Done(Sent { stream, result: Err(IpcError::Os(reply.errno)) })
            } else {
                Step::Done(Sent { stream, result: Ok(()) })
            },
        }
    }

    fn resume(self, reply: SocketReply) -> Step<Self, Sent<T>> {
        match self {
            SendStream::Length { stream, length: _, body, flags: _ } => {
                if reply.ret == 0 {
                    return Step::Done(Sent { stream, result: Err(IpcError::Os(reply.errno)) });
                }
                Step::Call(SendStream::Body { stream, body, flags: 0 })
            },
            SendStream::Body { stream, body: _, flags: _ } => {
                if reply.ret == 0 {
                    return Step::Done(Sent { stream, result: Err(IpcError::Os(reply.errno)) });
                }
                Step::Done(Sent { stream, result: Ok(()) })
            },
        }
    }
}

impl<T> UnixSockStream<T> {
    /// Whether this starts to send `body`, on the socket that the end talks on.
    pub open spec fn sending(
        self,
        step: Step<SendStream<T>, Sent<T>>,
        body: Seq<u8>,
        order: ByteOrder,
    ) -> bool {
        step matches Step::Call(SendStream::Length { stream, length, body: b, flags }) && stream
            == self && flags == 0 && length@ == length_bytes(body.len(), order) && b@ == body
    }

    /// How an end makes sure that it has a socket to talk on: one that has none waits for the other
    /// end to connect.
    pub open spec fn attaching(self) -> Step<AcceptPeer<T>, Peer<T>> {
        if self.socket == INVALID_SOCKET {
            Step::Call(AcceptPeer { stream: self })
        } else {
            Step::Done(Peer::Connected(self))
        }
    }

    /// Opens the end of that name.
    pub fn new(name: &str) -> (step: Step<OpenStream<T>, Result<UnixSockStream<T>, IpcError>>)
        requires
            encode_utf8(name@).len() <= LONGEST_NAME,
        ensures
            step matches Step::Call(OpenStream::Socket { options, address, _phantom }) && options
                == stream_options() && address.is_of(encode_utf8(name@)),
    {
        Step::Call(
            OpenStream::Socket {
                options: unix_stream(),
                address: SocketAddress::of_bytes(name.as_bytes()),
                _phantom: PhantomData,
            },
        )
    }

    /// Receives one message: an end without a socket to talk on first waits for the other end.
    pub fn recv(self, order: ByteOrder) -> (step: Step<RecvStream<T>, Received<T>>)
        ensures
            step == if self.socket == INVALID_SOCKET {
                Step::<RecvStream<T>, Received<T>>::Call(RecvStream::Accept { stream: self, order })
            } else {
                Step::Call(RecvStream::Length { stream: self, order, flags: 0 })
            },
    {
        if self.socket == INVALID_SOCKET {
            return Step::Call(RecvStream::Accept { stream: self, order });
        }
        Step::Call(RecvStream::Length { stream: self, order, flags: 0 })
    }

    /// Starts to send: makes sure that there is a socket to talk on. Only then is there anything to
    /// be sent.
    pub fn send(self) -> (step: Step<AcceptPeer<T>, Peer<T>>)
        ensures
            step == self.attaching(),
    {
        if self.socket == INVALID_SOCKET {
            return Step::Call(AcceptPeer { stream: self });
        }
        Step::Done(Peer::Connected(self))
    }

    /// Sends one message on the socket that the end talks on.
    pub fn send_bytes(self, body: Vec<u8>, order: ByteOrder) -> (step: Step<SendStream<T>, Sent<T>>)
        ensures
            self.sending(step, body@, order),
    {
        let length = encode_word(body.len() as u64, LENGTH_SIZE, order);
        Step::Call(SendStream::Length { stream: self, length, body, flags: 0 })
    }
}

impl<T: Message> UnixSockStream<T> {
    /// Sends one value, once there is a socket to talk on; where the system gave none, nothing is
    /// sent, and the end is as it was.
    pub fn finish_send(peer: Peer<T>, to_send: &T, order: ByteOrder) -> (step: Step<
        SendStream<T>,
        Sent<T>,
    >)
        ensures
            match peer {
                Peer::Connected(stream) => stream.sending(step, T::encoding(to_send@), order),
                Peer::Refused(stream, e) => step == Step::<SendStream<T>, Sent<T>>::Done(
                    Sent { stream, result: Err(e) },
                ),
            },
    {
        match peer {
            Peer::Connected(stream) => stream.send_bytes(to_send.encode(), order),
            Peer::Refused(stream, e) => Step::Done(Sent { stream, result: Err(e) }),
        }
    }

    /// The value in a message that was received.
    pub fn finish_recv(&self, message: Result<Vec<u8>, IpcError>) -> (value: Result<T, IpcError>)
        requires
            message matches Ok(m) ==> T::decoding(m@) is Some,
        ensures
            match message {
                Ok(m) => value matches Ok(v) && T::decoding(m@) == Some(v@),
                Err(e) => value matches Err(f) && f == e,
            },
    {
        match message {
            Ok(m) => Ok(received(m.as_slice())),
            Err(e) => Err(e),
        }
    }
}

/// Opening an end succeeds in two ways. The first to use an address binds it and listens, and has no
/// socket to talk on yet. Where binding or listening fails because the address is in use, the end
/// connects instead, and talks on the socket that it made. Any other failure gives its error code.
pub proof fn open_stream_outcome<T>(
    options: SocketOptions,
    address: SocketAddress,
    made: SocketReply,
    bound: SocketReply,
    third: SocketReply,
    fourth: SocketReply,
)
    ensures
        run(
            Step::Call(OpenStream::<T>::Socket { options, address, _phantom: PhantomData }),
            seq![made, bound, third, fourth],
        ) == Step::<OpenStream<T>, Result<UnixSockStream<T>, IpcError>>::Done(
            if made.socket == INVALID_SOCKET {
                Err(IpcError::Os(made.errno))
            } else if bound.ret == 0 && third.ret == 0 {
                Ok(
                    UnixSockStream {
                        connect_socket: made.socket,
                        socket: INVALID_SOCKET,
                        _phantom: PhantomData,
                    },
                )
            } else {
                let (failed, connected) = if bound.ret == 0 {
                    (third, fourth)
                } else {
                    (bound, third)
                };
                if failed.errno != ADDRESS_IN_USE {
                    Err(IpcError::Os(failed.errno))
                } else if connected.ret != 0 {
                    Err(IpcError::Os(connected.errno))
                } else {
                    Ok(
                        UnixSockStream {
                            connect_socket: made.socket,
                            socket: made.socket,
                            _phantom: PhantomData,
                        },
                    )
                }
            },
        ),
{
    reveal_with_fuel(run, 5);
    let all = seq![made, bound, third, fourth];
    assert(all.drop_first() =~= seq![bound, third, fourth]);
    assert(seq![bound, third, fourth].drop_first() =~= seq![third, fourth]);
    assert(seq![third, fourth].drop_first() =~= seq![fourth]);
}

/// An end that has got a socket to talk on keeps it, whether it was receiving or sending when it got
/// it, and what it does from then on waits for no other.
pub proof fn peer_is_kept<T>(stream: UnixSockStream<T>, order: ByteOrder, accepted: SocketReply)
    requires
        accepted.socket != INVALID_SOCKET,
    ensures
        (RecvStream::Accept { stream, order }).after(accepted) matches Step::Call(
            RecvStream::Length { stream: s, order: o, flags },
        ) && flags == 0 && s.socket == accepted.socket && s.connect_socket == stream.connect_socket && o == order,
        (AcceptPeer { stream }).after(accepted) matches Step::Done(Peer::Connected(s)) && s.socket
            == accepted.socket && s.connect_socket == stream.connect_socket && s.attaching()
            == Step::<AcceptPeer<T>, Peer<T>>::Done(Peer::Connected(s)),
{
}

/// Sending a message makes two calls, which put its length and then the message on the stream. It
/// succeeds exactly where neither returns zero; the first that does gives its error code. The end
/// stays as it is.
pub proof fn send_stream_outcome<T>(
    stream: UnixSockStream<T>,
    call: SendStream<T>,
    body: Seq<u8>,
    order: ByteOrder,
    first: SocketReply,
    second: SocketReply,
)
    requires
        stream.sending(Step::Call(call), body, order),
    ensures
        first.ret != 0 ==> (call.after(first) matches Step::Call(next) && call.bytes()
            + next.bytes() == length_bytes(body.len(), order) + body),
        run(Step::Call(call), seq![first, second]) == Step::<SendStream<T>, Sent<T>>::Done(
            Sent {
                stream,
                result: if first.ret == 0 {
                    Err(IpcError::Os(first.errno))
                } else if second.ret == 0 {
                    Err(IpcError::Os(second.errno))
                } else {
                    Ok(())
                },
            },
        ),
{
    reveal_with_fuel(run, 3);
    assert(seq![first, second].drop_first() =~= seq![second]);
}

/// Whether a call that receives `wants` bytes, made while `stream` waits to be received, can leave
/// `reply` behind and `rest` to be received.
pub open spec fn receives(
    stream: Seq<u8>,
    wants: nat,
    reply: SocketReply,
    rest: Seq<u8>,
) -> bool {
    &&& wants <= stream.len()
    &&& reply.ret == wants
    &&& reply.data@ == stream.take(wants as int)
    &&& rest == stream.skip(wants as int)
}

/// A message that was sent behind its length is received whole, with nothing of what comes behind
/// it.
pub proof fn sent_message_is_received<T>(
    stream: UnixSockStream<T>,
    order: ByteOrder,
    flags: i32,
    body: Seq<u8>,
    behind: Seq<u8>,
    first: SocketReply,
    between: Seq<u8>,
    second: SocketReply,
    rest: Seq<u8>,
)
    requires
        body.len() <= i32::MAX,
        receives(
            length_bytes(body.len(), order) + body + behind,
            LENGTH_SIZE as nat,
            first,
            between,
        ),
        receives(between, body.len(), second, rest),
    ensures
        run(Step::Call(RecvStream::Length { stream, order, flags }), seq![first, second]) == Step::<
            RecvStream<T>,
            Received<T>,
        >::Done(Received { stream, message: Ok(second.data) }),
        second.data@ == body,
        rest == behind,
{
    let head = length_bytes(body.len(), order);
    let all = head + body + behind;
    word_values_of_machine_words();
    word_bytes_len(body.len(), LENGTH_SIZE as nat, order);
    word_value_of_word_bytes(body.len(), LENGTH_SIZE as nat, order);
    assert(all.take(LENGTH_SIZE as int) =~= head);
    assert(all.skip(LENGTH_SIZE as int) =~= body + behind);
    assert((body + behind).take(body.len() as int) =~= body);
    assert((body + behind).skip(body.len() as int) =~= behind);
    reveal_with_fuel(run, 3);
    assert(seq![first, second].drop_first() =~= seq![second]);
}

/// A value that one end sends is what the other receives, whichever of the two it is.
pub proof fn sent_is_received<T: Message>(
    value: T::V,
    stream: UnixSockStream<T>,
    order: ByteOrder,
    flags: i32,
    behind: Seq<u8>,
    first: SocketReply,
    between: Seq<u8>,
    second: SocketReply,
    rest: Seq<u8>,
)
    requires
        T::representable(value),
        T::encoding(value).len() <= i32::MAX,
        receives(
            length_bytes(T::encoding(value).len(), order) + T::encoding(value) + behind,
            LENGTH_SIZE as nat,
            first,
            between,
        ),
        receives(between, T::encoding(value).len(), second, rest),
    ensures
        run(Step::Call(RecvStream::Length { stream, order, flags }), seq![first, second]) == Step::<
            RecvStream<T>,
            Received<T>,
        >::Done(Received { stream, message: Ok(second.data) }),
        T::decoding(second.data@) == Some(value),
        rest == behind,
{
    let body = T::encoding(value);
    sent_message_is_received(stream, order, flags, body, behind, first, between, second, rest);
    decoding_of_whole_encoding::<T>(value);
}

/// Values as they stand on a stream, one behind the other.
pub open spec fn stream_of<T: Message>(values: Seq<T::V>, order: ByteOrder) -> Seq<u8>
    decreases values.len(),
{
    if values.len() == 0 {
        Seq::empty()
    } else {
        length_bytes(T::encoding(values[0]).len(), order) + T::encoding(values[0]) + stream_of::<T>(
            values.drop_first(),
            order,
        )
    }
}

/// A value that is sent goes behind those that are on their way.
proof fn lemma_stream_of_push<T: Message>(values: Seq<T::V>, value: T::V, order: ByteOrder)
    ensures
        stream_of::<T>(values.push(value), order) == stream_of::<T>(values, order) + length_bytes(
            T::encoding(value).len(),
            order,
        ) + T::encoding(value),
    decreases values.len(),
{
    let head = length_bytes(T::encoding(value).len(), order);
    let body = T::encoding(value);
    let all = values.push(value);
    if values.len() == 0 {
        reveal_with_fuel(stream_of, 2);
        assert(all.drop_first() =~= Seq::<T::V>::empty());
        assert(stream_of::<T>(all, order) =~= stream_of::<T>(values, order) + head + body);
    } else {
        lemma_stream_of_push::<T>(values.drop_first(), value, order);
        assert(all.drop_first() =~= values.drop_first().push(value));
        assert(stream_of::<T>(all, order) =~= stream_of::<T>(values, order) + head + body);
    }
}

/// A value that is sent goes behind those that are on their way: the two calls that send it put its
/// length and its bytes at the end of the stream.
pub proof fn value_goes_behind_the_others<T: Message>(
    values: Seq<T::V>,
    value: T::V,
    stream: UnixSockStream<T>,
    call: SendStream<T>,
    order: ByteOrder,
    first: SocketReply,
)
    requires
        stream.sending(Step::Call(call), T::encoding(value), order),
        first.ret != 0,
    ensures
        call.after(first) matches Step::Call(next) && stream_of::<T>(values, order) + call.bytes()
            + next.bytes() == stream_of::<T>(values.push(value), order),
{
    lemma_stream_of_push::<T>(values, value, order);
}

/// One message being received: what the two calls left behind, and what was left to be received
/// between them.
pub struct Reception {
    /// What the call for the length left behind.
    pub first: SocketReply,
    /// What was left to be received between the calls.
    pub between: Seq<u8>,
    /// What the call for the message left behind.
    pub second: SocketReply,
}

impl Reception {
    /// Whether this is how a message of `size` bytes is received while `before` waits to be
    /// received, and leaves `after` to be received.
    pub open spec fn takes(self, size: nat, before: Seq<u8>, after: Seq<u8>) -> bool {
        &&& receives(before, LENGTH_SIZE as nat, self.first, self.between)
        &&& receives(self.between, size, self.second, after)
    }

    /// Whether the receiver gets `value`.
    pub open spec fn gives<T: Message>(
        self,
        stream: UnixSockStream<T>,
        order: ByteOrder,
        flags: i32,
        value: T::V,
    ) -> bool {
        &&& run(
            Step::Call(RecvStream::Length { stream, order, flags }),
            seq![self.first, self.second],
        ) == Step::<RecvStream<T>, Received<T>>::Done(
            Received { stream, message: Ok(self.second.data) },
        )
        &&& T::decoding(self.second.data@) == Some(value)
    }
}

/// What is received is the oldest of the values that are on their way, and the others stay on the
/// stream in their order.
pub proof fn oldest_value_is_received<T: Message>(
    values: Seq<T::V>,
    stream: UnixSockStream<T>,
    order: ByteOrder,
    flags: i32,
    reception: Reception,
    after: Seq<u8>,
)
    requires
        values.len() > 0,
        T::representable(values[0]),
        T::encoding(values[0]).len() <= i32::MAX,
        reception.takes(T::encoding(values[0]).len(), stream_of::<T>(values, order), after),
    ensures
        reception.gives::<T>(stream, order, flags, values[0]),
        after == stream_of::<T>(values.drop_first(), order),
{
    sent_is_received::<T>(
        values[0],
        stream,
        order,
        flags,
        stream_of::<T>(values.drop_first(), order),
        reception.first,
        reception.between,
        reception.second,
        after,
    );
}

/// Values are received in the order in which they were sent: of a stream that holds `values`, the
/// receptions one after the other give one value each, from the first on, and the values that are
/// not received yet stay. `states` is what waits to be received before each and after the last.
pub proof fn values_are_received_in_order<T: Message>(
    values: Seq<T::V>,
    stream: UnixSockStream<T>,
    order: ByteOrder,
    flags: i32,
    receptions: Seq<Reception>,
    states: Seq<Seq<u8>>,
)
    requires
        forall|i: int|
            0 <= i < values.len() ==> T::representable(#[trigger] values[i]) && T::encoding(
                values[i],
            ).len() <= i32::MAX,
        receptions.len() <= values.len(),
        states.len() == receptions.len() + 1,
        states[0] == stream_of::<T>(values, order),
        forall|i: int|
            #![trigger receptions[i]]
            0 <= i < receptions.len() ==> receptions[i].takes(
                T::encoding(values[i]).len(),
                states[i],
                states[i + 1],
            ),
    ensures
        forall|i: int|
            0 <= i < receptions.len() ==> (#[trigger] receptions[i]).gives::<T>(
                stream,
                order,
                flags,
                values[i],
            ),
        states.last() == stream_of::<T>(values.skip(receptions.len() as int), order),
    decreases receptions.len(),
{
    if receptions.len() == 0 {
        assert(values.skip(0) =~= values);
    } else {
        let n = receptions.len() - 1;
        let earlier = receptions.drop_last();
        assert forall|i: int|
            #![trigger earlier[i]]
            0 <= i < earlier.len() implies earlier[i].takes(
            T::encoding(values[i]).len(),
            states.drop_last()[i],
            states.drop_last()[i + 1],
        ) by {
            assert(earlier[i] == receptions[i]);
        }
        values_are_received_in_order::<T>(
            values,
            stream,
            order,
            flags,
            earlier,
            states.drop_last(),
        );
        let rest = values.skip(n);
        assert(rest[0] == values[n]);
        oldest_value_is_received::<T>(rest, stream, order, flags, receptions[n], states[n + 1]);
        assert(rest.drop_first() =~= values.skip(n + 1));
        assert forall|i: int| 0 <= i < receptions.len() implies (
        #[trigger] receptions[i]).gives::<T>(stream, order, flags, values[i]) by {
            if i < n {
                assert(earlier[i] == receptions[i]);
            }
        }
    }
}

/// An end binds and connects only to the address that it was given, with the socket that was made
/// for it: first it binds, then it listens with room for one, and where binding or listening says
/// that the address is in use it connects. Every other failure gives its error code.
pub proof fn end_uses_its_address<T>(
    options: SocketOptions,
    address: SocketAddress,
    socket: usize,
    backlog: i32,
    reply: SocketReply,
)
    ensures
        match (OpenStream::<T>::Socket { options, address, _phantom: PhantomData }).after(reply) {
            Step::Call(OpenStream::Bind { socket: s, address: a, _phantom }) => reply.socket
                != usize::MAX && s == reply.socket && a == address,
            Step::Call(_) => false,
            Step::Done(Ok(stream)) => false,
            Step::Done(Err(e)) => reply.socket == usize::MAX && e == IpcError::Os(reply.errno),
        },
        match (OpenStream::<T>::Bind { socket, address, _phantom: PhantomData }).after(reply) {
            Step::Call(OpenStream::Listen { socket: s, backlog: b, address: a, _phantom }) =>
                reply.ret == 0 && s == socket && b == 1 && a == address,
            Step::Call(OpenStream::Connect { socket: s, address: a, _phantom }) => reply.ret != 0
                && reply.errno == 10048 && s == socket && a == address,
            Step::Call(_) => false,
            Step::Done(Ok(stream)) => false,
            Step::Done(Err(e)) => reply.ret != 0 && reply.errno != 10048 && e == IpcError::Os(
                reply.errno,
            ),
        },
        match (OpenStream::<T>::Listen { socket, backlog, address, _phantom: PhantomData }).after(
            reply,
        ) {
            Step::Call(OpenStream::Connect { socket: s, address: a, _phantom }) => reply.ret != 0
                && reply.errno == 10048 && s == socket && a == address,
            Step::Call(_) => false,
            Step::Done(Ok(stream)) => reply.ret == 0 && stream.connect_socket == socket
                && stream.socket == usize::MAX,
            Step::Done(Err(e)) => reply.ret != 0 && reply.errno != 10048 && e == IpcError::Os(
                reply.errno,
            ),
        },
        match (OpenStream::<T>::Connect { socket, address, _phantom: PhantomData }).after(reply) {
            Step::Call(_) => false,
            Step::Done(Ok(stream)) => reply.ret == 0 && stream.connect_socket == socket
                && stream.socket == socket,
            Step::Done(Err(e)) => reply.ret != 0 && e == IpcError::Os(reply.errno),
        },
        (OpenStream::<T>::Socket { options, address, _phantom: PhantomData }).answered_by(reply),
        (OpenStream::<T>::Bind { socket, address, _phantom: PhantomData }).answered_by(reply),
        (OpenStream::<T>::Listen { socket, backlog, address, _phantom: PhantomData }).answered_by(
            reply,
        ),
        (OpenStream::<T>::Connect { socket, address, _phantom: PhantomData }).answered_by(reply),
{
}

/// The length in front of a message has four bytes, and stands for the size of the message modulo
/// 2 to the power of 32; read as a signed number it differs from that by a multiple of it.
pub proof fn length_is_the_size(len: nat, order: ByteOrder, bytes: Seq<u8>)
    requires
        bytes.len() == 4,
    ensures
        LENGTH_SIZE == 4,
        length_bytes(len, order).len() == 4,
        length_bytes(len, order) == word_bytes(len, 4, order),
        len <= i32::MAX ==> length_value(length_bytes(len, order), order) == len,
        (word_value(bytes, order) - length_value(bytes, order)) % 0x1_0000_0000 == 0,
{
    word_bytes_len(len, 4, order);
    word_values_of_machine_words();
    word_value_bound(bytes, order);
    if len <= i32::MAX {
        word_value_of_word_bytes(len, 4, order);
    }
}

/// An end waits for the other exactly where it has no socket to talk on. It talks on the socket that
/// the system gave, and its own stays the same; where the system gave none the end is as it was.
pub proof fn end_waits_only_without_a_peer<T>(stream: UnixSockStream<T>, reply: SocketReply)
    ensures
        match stream.attaching() {
            Step::Call(call) => stream.socket == usize::MAX && call.stream == stream,
            Step::Done(Peer::Connected(s)) => stream.socket != usize::MAX && s == stream,
            Step::Done(Peer::Refused(s, e)) => false,
        },
        match (AcceptPeer { stream }).after(reply) {
            Step::Call(call) => false,
            Step::Done(Peer::Connected(s)) => reply.socket != usize::MAX && s.socket == reply.socket
                && s.connect_socket == stream.connect_socket,
            Step::Done(Peer::Refused(s, e)) => reply.socket == usize::MAX && s == stream && e
                == IpcError::Os(reply.errno),
        },
        (AcceptPeer { stream }).answered_by(reply),
{
}

/// Both calls that send a message go to the socket that the end talks on: the first sends the
/// length, the second all of the message, and the end is the same for both and afterwards.
pub proof fn one_socket_is_sent_on<T>(
    stream: UnixSockStream<T>,
    call: SendStream<T>,
    body: Seq<u8>,
    order: ByteOrder,
    reply: SocketReply,
)
    requires
        stream.sending(Step::Call(call), body, order),
    ensures
        call matches SendStream::Length { stream: s, length, body: b, flags } && s == stream
            && length@ == word_bytes(body.len(), 4, order) && b@ == body && flags == 0,
        match call.after(reply) {
            Step::Call(SendStream::Body { stream: s, body: b, flags }) => reply.ret != 0 && s
                == stream && b@ == body && flags == 0,
            Step::Call(_) => false,
            Step::Done(sent) => reply.ret == 0 && sent.stream == stream && sent.result == Err::<
                (),
                _,
            >(IpcError::Os(reply.errno)),
        },
        call.answered_by(reply),
{
}

/// Once the message is sent the sending is over, for the end that sent it; it failed exactly where
/// the call returned zero.
pub proof fn message_ends_the_sending<T>(
    stream: UnixSockStream<T>,
    body: Vec<u8>,
    flags: i32,
    reply: SocketReply,
)
    ensures
        match (SendStream::Body { stream, body, flags }).after(reply) {
            Step::Call(_) => false,
            Step::Done(sent) => sent.stream == stream && match sent.result {
                Ok(()) => reply.ret != 0,
                Err(e) => reply.ret == 0 && e == IpcError::Os(reply.errno),
            },
        },
        (SendStream::Body { stream, body, flags }).answered_by(reply),
{
}

/// A message is received on the socket that the end talks on, and only whole. The end waits for the
/// other first, then asks for four bytes of length, then for as many bytes as the length says; it is
/// the same end throughout, but for the socket that it got. Any other number of bytes than was asked
/// for fails with the error code.
pub proof fn message_is_received_whole<T>(
    stream: UnixSockStream<T>,
    order: ByteOrder,
    size: i32,
    flags: i32,
    accepted: SocketReply,
    first: SocketReply,
    second: SocketReply,
)
    requires
        first.data@.len() == 4,
        second.data@.len() == size,
    ensures
        match (RecvStream::Accept { stream, order }).after(accepted) {
            Step::Call(RecvStream::Length { stream: s, order: o, flags }) => {
                &&& accepted.socket != usize::MAX
                &&& s.socket == accepted.socket
                &&& s.connect_socket == stream.connect_socket
                &&& o == order
                &&& flags == 0
            },
            Step::Call(_) => false,
            Step::Done(received) => accepted.socket == usize::MAX && received.stream == stream
                && received.message == Err::<Vec<u8>, _>(IpcError::Os(accepted.errno)),
        },
        match (RecvStream::Length { stream, order, flags }).after(first) {
            Step::Call(RecvStream::Body { stream: s, size: n, flags }) => first.ret == 4 && s
                == stream && n == length_value(first.data@, order) && flags == 0,
            Step::Call(_) => false,
            Step::Done(received) => first.ret != 4 && received.stream == stream && received.message
                == Err::<Vec<u8>, _>(IpcError::Os(first.errno)),
        },
        match (RecvStream::Body { stream, size, flags }).after(second) {
            Step::Call(_) => false,
            Step::Done(received) => received.stream == stream && match received.message {
                Ok(message) => second.ret == size && message == second.data,
                Err(e) => second.ret != size && e == IpcError::Os(second.errno),
            },
        },
        (RecvStream::Accept { stream, order }).answered_by(accepted),
        (RecvStream::Length { stream, order, flags }).answered_by(first),
        (RecvStream::Body { stream, size, flags }).answered_by(second),
{
}

} // verus!

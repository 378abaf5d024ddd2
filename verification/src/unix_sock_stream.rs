//! Stream sockets of the Unix domain, in the abstract namespace.

use std::marker::PhantomData;

use vstd::prelude::*;
use vstd::utf8::encode_utf8;

use crate::address::{stream_options, unix_stream, SocketAddress, SocketOptions, LONGEST_NAME};
use crate::buffer::{last_bytes, message_at_end, zeros, MESSAGE_ROOM};
use crate::frame::{
    frame, frame_is_read, frames, frames_are_appended, reads, word_size, Frame, FrameRead,
    FrameWrite, ReadReply, WriteReply,
};
use crate::message::{received_once_ready, Message};
use crate::operation::{run, Async, IpcError, Operation, Poll, Reply, Step};
use crate::wire::ByteOrder;

verus! {

/// The event of having data to read, in the masks that the system takes and gives.
pub const POLLIN: i16 = 1;

/// The end of a channel that clients connect to. It talks to one client.
#[derive(Debug)]
pub struct UnixSockStreamServer<T> {
    /// The socket that clients connect to.
    pub connect_socket: i32,
    /// The socket that is connected to the client, once there is one.
    pub socket: Option<i32>,
    /// What the channel carries.
    pub _phantom: PhantomData<T>,
}

/// The end of a channel that connects to a server.
#[derive(Debug)]
pub struct UnixSockStreamClient<T> {
    /// The socket that is connected to the server.
    pub socket: i32,
    /// What the channel carries.
    pub _phantom: PhantomData<T>,
}

/// Opening a server.
#[derive(Debug)]
pub enum OpenServer<T> {
    /// Makes a socket.
    Socket { options: SocketOptions, address: SocketAddress, _phantom: PhantomData<T> },
    /// Binds it to the address.
    Bind { socket: i32, address: SocketAddress, _phantom: PhantomData<T> },
    /// Lets clients connect to it; so many may wait.
    Listen { socket: i32, backlog: i32, _phantom: PhantomData<T> },
}

impl<T> Operation for OpenServer<T> {
    type Reply = Reply;

    type Outcome = Result<UnixSockStreamServer<T>, IpcError>;

    open spec fn answered_by(self, reply: Reply) -> bool {
        true
    }

    open spec fn after(self, reply: Reply) -> Step<
        Self,
        Result<UnixSockStreamServer<T>, IpcError>,
    > {
        match self {
            OpenServer::Socket { options, address, _phantom } => if reply.ret == -1 {
                Step::Done(Err(IpcError::Os(reply.errno)))
            } else {
                Step::Call(OpenServer::Bind { socket: reply.ret, address, _phantom })
            },
            OpenServer::Bind { socket, address, _phantom } => if reply.ret != 0 {
                Step::Done(Err(IpcError::Os(reply.errno)))
            } else {
                Step::Call(OpenServer::Listen { socket, backlog: 1, _phantom })
            },
            OpenServer::Listen { socket, backlog, _phantom } => if reply.ret != 0 {
                Step::Done(Err(IpcError::Os(reply.errno)))
            } else {
                Step::Done(
                    Ok(UnixSockStreamServer { connect_socket: socket, socket: None, _phantom }),
                )
            },
        }
    }

    fn resume(self, reply: Reply) -> Step<Self, Result<UnixSockStreamServer<T>, IpcError>> {
        match self {
            OpenServer::Socket { options: _, address, _phantom } => {
                if reply.ret == -1 {
                    return Step::Done(Err(IpcError::Os(reply.errno)));
                }
                Step::Call(OpenServer::Bind { socket: reply.ret, address, _phantom })
            },
            OpenServer::Bind { socket, address: _, _phantom } => {
                if reply.ret != 0 {
                    return Step::Done(Err(IpcError::Os(reply.errno)));
                }
                Step::Call(OpenServer::Listen { socket, backlog: 1, _phantom })
            },
            OpenServer::Listen { socket, backlog: _, _phantom } => {
                if reply.ret != 0 {
                    return Step::Done(Err(IpcError::Os(reply.errno)));
                }
                Step::Done(
                    Ok(UnixSockStreamServer { connect_socket: socket, socket: None, _phantom }),
                )
            },
        }
    }
}

/// Opening a client.
#[derive(Debug)]
pub enum OpenClient<T> {
    /// Makes a socket.
    Socket { options: SocketOptions, address: SocketAddress, _phantom: PhantomData<T> },
    /// Connects it to the address.
    Connect { socket: i32, address: SocketAddress, _phantom: PhantomData<T> },
}

impl<T> Operation for OpenClient<T> {
    type Reply = Reply;

    type Outcome = Result<UnixSockStreamClient<T>, IpcError>;

    open spec fn answered_by(self, reply: Reply) -> bool {
        true
    }

    open spec fn after(self, reply: Reply) -> Step<
        Self,
        Result<UnixSockStreamClient<T>, IpcError>,
    > {
        match self {
            OpenClient::Socket { options, address, _phantom } => if reply.ret == -1 {
                Step::Done(Err(IpcError::Os(reply.errno)))
            } else {
                Step::Call(OpenClient::Connect { socket: reply.ret, address, _phantom })
            },
            OpenClient::Connect { socket, address, _phantom } => if reply.ret != 0 {
                Step::Done(Err(IpcError::Os(reply.errno)))
            } else {
                Step::Done(Ok(UnixSockStreamClient { socket, _phantom }))
            },
        }
    }

    fn resume(self, reply: Reply) -> Step<Self, Result<UnixSockStreamClient<T>, IpcError>> {
        match self {
            OpenClient::Socket { options: _, address, _phantom } => {
                if reply.ret == -1 {
                    return Step::Done(Err(IpcError::Os(reply.errno)));
                }
                Step::Call(OpenClient::Connect { socket: reply.ret, address, _phantom })
            },
            OpenClient::Connect { socket, address: _, _phantom } => {
                if reply.ret != 0 {
                    return Step::Done(Err(IpcError::Os(reply.errno)));
                }
                Step::Done(Ok(UnixSockStreamClient { socket, _phantom }))
            },
        }
    }
}

/// Waiting for a client to connect.
#[derive(Debug)]
pub struct Accept<T> {
    /// The server that waits.
    pub server: UnixSockStreamServer<T>,
    /// Whether calls on the socket that is given return an error where they would have to wait.
    pub nonblocking: bool,
}

/// Whether a server has a client.
#[derive(Debug)]
pub enum Attached<T> {
    /// It has one.
    Connected(UnixSockStreamServer<T>),
    /// The system gave none; asking for the outcome gives [`refused`].
    Refused(UnixSockStreamServer<T>),
}

impl<T> Operation for Accept<T> {
    type Reply = Reply;

    type Outcome = Attached<T>;

    open spec fn answered_by(self, reply: Reply) -> bool {
        true
    }

    open spec fn after(self, reply: Reply) -> Step<Self, Attached<T>> {
        if reply.ret < 0 {
            Step::Done(Attached::Refused(self.server))
        } else {
            Step::Done(
                Attached::Connected(
                    UnixSockStreamServer { socket: Some(reply.ret), ..self.server },
                ),
            )
        }
    }

    fn resume(self, reply: Reply) -> Step<Self, Attached<T>> {
        if reply.ret < 0 {
            return Step::Done(Attached::Refused(self.server));
        }
        Step::Done(
            Attached::Connected(
                UnixSockStreamServer {
                    connect_socket: self.server.connect_socket,
                    socket: Some(reply.ret),
                    _phantom: self.server._phantom,
                },
            ),
        )
    }
}

/// The outcome of an operation of a server that got no client: the error code of the calling thread
/// at the time of asking.
pub fn refused<R>(errno: i32) -> (outcome: Poll<R>)
    ensures
        outcome == Err::<Async<R>, IpcError>(IpcError::Os(errno)),
{
    Err(IpcError::Os(errno))
}

/// What a step of a receiver left behind.
#[derive(Clone, Copy, Debug)]
pub enum RecvReply {
    /// A call that polls one socket.
    Polled { ret: i32, revents: i16, errno: i32 },
    /// A read that appends to the receive buffer.
    Read(Poll<usize>),
}

/// Receiving, if something is there to receive.
#[derive(Clone, Copy, Debug)]
pub enum Receive {
    /// Polls the socket for the events, for so many milliseconds.
    Poll { socket: i32, events: i16, timeout: i32 },
    /// Reads a message and appends it to a buffer of so many zero bytes.
    Read { socket: i32, buffer: usize },
}

/// Whether a mask holds the event of having data to read.
pub open spec fn readable(revents: i16) -> bool {
    revents & POLLIN > 0
}

impl Operation for Receive {
    type Reply = RecvReply;

    type Outcome = Poll<usize>;

    open spec fn answered_by(self, reply: RecvReply) -> bool {
        match self {
            Receive::Poll { socket, events, timeout } => reply is Polled,
            Receive::Read { socket, buffer } => reply is Read,
        }
    }

    open spec fn after(self, reply: RecvReply) -> Step<Self, Poll<usize>> {
        match (self, reply) {
            (
                Receive::Poll { socket, events, timeout },
                RecvReply::Polled { ret, revents, errno },
            ) => if ret < 0 {
                Step::Done(Err(IpcError::Os(errno)))
            } else if ret > 0 && readable(revents) {
                Step::Call(Receive::Read { socket, buffer: MESSAGE_ROOM })
            } else {
                Step::Done(Ok(Async::NotReady))
            },
            (Receive::Read { socket, buffer }, RecvReply::Read(read)) => Step::Done(read),
            _ => arbitrary(),
        }
    }

    fn resume(self, reply: RecvReply) -> Step<Self, Poll<usize>> {
        match (self, reply) {
            (
                Receive::Poll { socket, events: _, timeout: _ },
                RecvReply::Polled { ret, revents, errno },
            ) => {
                if ret < 0 {
                    return Step::Done(Err(IpcError::Os(errno)));
                }
                if ret == 0 {
                    return Step::Done(Ok(Async::NotReady));
                }
                if revents & POLLIN > 0 {
                    return Step::Call(Receive::Read { socket, buffer: MESSAGE_ROOM });
                }
                Step::Done(Ok(Async::NotReady))
            },
            (Receive::Read { socket: _, buffer: _ }, RecvReply::Read(read)) => Step::Done(read),
            _ => vstd::pervasive::unreached(),
        }
    }
}

/// The direction in which a connection is ended.
#[derive(Clone, Copy, Debug, PartialEq, Eq, Structural)]
pub enum Direction {
    /// Nothing more is received.
    Receiving,
    /// Nothing more is sent.
    Sending,
    /// Neither.
    Both,
}

/// Ending a connection; where that fails, the socket is closed.
#[derive(Clone, Copy, Debug)]
pub enum Disconnect {
    /// Ends the connection.
    Shutdown { socket: i32, how: Direction },
    /// Closes the socket.
    Close { socket: i32 },
}

impl Operation for Disconnect {
    type Reply = Reply;

    type Outcome = Poll<()>;

    open spec fn answered_by(self, reply: Reply) -> bool {
        true
    }

    open spec fn after(self, reply: Reply) -> Step<Self, Poll<()>> {
        if reply.ret >= 0 {
            Step::Done(Ok(Async::Ready(())))
        } else {
            match self {
                Disconnect::Shutdown { socket, how } => Step::Call(Disconnect::Close { socket }),
                Disconnect::Close { socket } => Step::Done(Err(IpcError::Os(reply.errno))),
            }
        }
    }

    fn resume(self, reply: Reply) -> Step<Self, Poll<()>> {
        match self {
            Disconnect::Shutdown { socket, how: _ } => {
                if reply.ret < 0 {
                    return Step::Call(Disconnect::Close { socket });
                }
                Step::Done(Ok(Async::Ready(())))
            },
            Disconnect::Close { socket: _ } => {
                if reply.ret < 0 {
                    return Step::Done(Err(IpcError::Os(reply.errno)));
                }
                Step::Done(Ok(Async::Ready(())))
            },
        }
    }
}

impl<T> UnixSockStreamServer<T> {
    /// How a server makes sure that there is a client: a server that has one is done, and any other
    /// waits for one.
    pub open spec fn attaching(self) -> Step<Accept<T>, Attached<T>> {
        if self.socket is Some {
            Step::Done(Attached::Connected(self))
        } else {
            Step::Call(Accept { server: self, nonblocking: true })
        }
    }

    /// Opens the server that clients find by that name. A name that is too long is refused before
    /// any call is made.
    pub fn new(name: &str) -> (step: Step<OpenServer<T>, Result<UnixSockStreamServer<T>, IpcError>>)
        ensures
            if encode_utf8(name@).len() > LONGEST_NAME {
                step matches Step::Done(Err(e)) && e == IpcError::InvalidInput
            } else {
                step matches Step::Call(OpenServer::Socket { options, address, _phantom })
                    && options == stream_options() && address.is_of(encode_utf8(name@))
            },
    {
        match SocketAddress::of_name(name) {
            Ok(address) => Step::Call(
                OpenServer::Socket { options: unix_stream(), address, _phantom: PhantomData },
            ),
            Err(e) => Step::Done(Err(e)),
        }
    }

    /// Makes sure that there is a client: where there is none yet, waits for one.
    pub fn attach(self) -> (step: Step<Accept<T>, Attached<T>>)
        ensures
            step == self.attaching(),
    {
        if self.socket.is_none() {
            return Step::Call(Accept { server: self, nonblocking: true });
        }
        Step::Done(Attached::Connected(self))
    }

    /// Starts to receive: makes sure that there is a client.
    pub fn async_recv(self) -> (step: Step<Accept<T>, Attached<T>>)
        ensures
            step == self.attaching(),
    {
        self.attach()
    }

    /// Starts to send: makes sure that there is a client.
    pub fn async_send(self) -> (step: Step<Accept<T>, Attached<T>>)
        ensures
            step == self.attaching(),
    {
        self.attach()
    }

    /// The socket to talk on.
    pub fn peer(&self) -> (socket: Result<i32, IpcError>)
        ensures
            socket == match self.socket {
                Some(s) => Ok::<i32, IpcError>(s),
                None => Err(IpcError::InvalidData),
            },
    {
        match self.socket {
            Some(socket) => Ok(socket),
            None => Err(IpcError::InvalidData),
        }
    }

    /// Looks whether there is something to receive, and if so receives it.
    pub fn poll(&self) -> (step: Step<Receive, Poll<usize>>)
        ensures
            step == match self.socket {
                Some(socket) => Step::<Receive, Poll<usize>>::Call(
                    Receive::Poll { socket, events: POLLIN, timeout: 0 },
                ),
                None => Step::Done(Err(IpcError::InvalidData)),
            },
    {
        match self.peer() {
            Ok(socket) => Step::Call(Receive::Poll { socket, events: POLLIN, timeout: 0 }),
            Err(e) => Step::Done(Err(e)),
        }
    }

    /// Reads one message, for a buffer of `room` bytes.
    pub fn read(&self, order: ByteOrder, room: usize) -> (step: Step<
        FrameRead,
        Result<Frame, IpcError>,
    >)
        ensures
            step == match self.socket {
                Some(socket) => Step::<FrameRead, Result<Frame, IpcError>>::Call(
                    FrameRead::Length { socket, order, room },
                ),
                None => Step::Done(Err(IpcError::InvalidData)),
            },
    {
        match self.peer() {
            Ok(socket) => Step::Call(FrameRead::Length { socket, order, room }),
            Err(e) => Step::Done(Err(e)),
        }
    }

    /// Writes one message.
    pub fn write<'a>(&self, order: ByteOrder, buf: &'a [u8]) -> (step: Step<
        FrameWrite<'a>,
        Result<usize, IpcError>,
    >)
        ensures
            match self.socket {
                Some(socket) => step matches Step::Call(write) && write.starts(socket, order, buf),
                None => step matches Step::Done(Err(e)) && e == IpcError::InvalidData,
            },
    {
        match self.peer() {
            Ok(socket) => Step::Call(FrameWrite::start(socket, order, buf)),
            Err(e) => Step::Done(Err(e)),
        }
    }

    /// Does nothing: what is written is on its way.
    pub fn flush(&self) -> (result: Result<(), IpcError>)
        ensures
            result == Ok::<(), IpcError>(()),
    {
        Ok(())
    }

    /// Ends the connection in both directions.
    pub fn shutdown(&self) -> (step: Step<Disconnect, Poll<()>>)
        ensures
            step == match self.socket {
                Some(socket) => Step::<Disconnect, Poll<()>>::Call(
                    Disconnect::Shutdown { socket, how: Direction::Both },
                ),
                None => Step::Done(Err(IpcError::InvalidData)),
            },
    {
        match self.peer() {
            Ok(socket) => Step::Call(Disconnect::Shutdown { socket, how: Direction::Both }),
            Err(e) => Step::Done(Err(e)),
        }
    }
}

impl<T: Message> UnixSockStreamServer<T> {
    /// The server, and the bytes to write to its client in order to send a value. A server that got
    /// no client has nothing to write.
    pub fn finish_send(attached: Attached<T>, to_send: &T) -> (sending: (
        UnixSockStreamServer<T>,
        Option<Vec<u8>>,
    ))
        ensures
            match attached {
                Attached::Connected(server) => sending.0 == server && (sending.1 matches Some(buf)
                    && buf@ == T::encoding(to_send@)),
                Attached::Refused(server) => sending.0 == server && sending.1 is None,
            },
    {
        match attached {
            Attached::Connected(server) => (server, Some(to_send.encode())),
            Attached::Refused(server) => (server, None),
        }
    }

    /// The value received, given what a read has appended to the receive buffer.
    pub fn finish_recv(&self, buf: &[u8], read: Poll<usize>) -> (value: Poll<T>)
        requires
            read matches Ok(Async::Ready(n)) ==> n <= buf@.len() && T::decoding(
                last_bytes(buf@, n as nat),
            ) is Some,
        ensures
            match read {
                Ok(Async::Ready(n)) => value matches Ok(Async::Ready(v)) && T::decoding(
                    last_bytes(buf@, n as nat),
                ) == Some(v@),
                Ok(Async::NotReady) => value matches Ok(Async::NotReady),
                Err(e) => value matches Err(f) && f == e,
            },
    {
        received_once_ready(message_at_end(buf, read))
    }
}

impl<T> UnixSockStreamClient<T> {
    /// Connects to the server of that name. A name that is too long is refused before any call is
    /// made.
    pub fn new(name: &str) -> (step: Step<OpenClient<T>, Result<UnixSockStreamClient<T>, IpcError>>)
        ensures
            if encode_utf8(name@).len() > LONGEST_NAME {
                step matches Step::Done(Err(e)) && e == IpcError::InvalidInput
            } else {
                step matches Step::Call(OpenClient::Socket { options, address, _phantom })
                    && options == stream_options() && address.is_of(encode_utf8(name@))
            },
    {
        match SocketAddress::of_name(name) {
            Ok(address) => Step::Call(
                OpenClient::Socket { options: unix_stream(), address, _phantom: PhantomData },
            ),
            Err(e) => Step::Done(Err(e)),
        }
    }

    /// Looks whether there is something to receive, and if so receives it.
    pub fn poll(&self) -> (step: Step<Receive, Poll<usize>>)
        ensures
            step == Step::<Receive, Poll<usize>>::Call(
                Receive::Poll { socket: self.socket, events: POLLIN, timeout: 0 },
            ),
    {
        Step::Call(Receive::Poll { socket: self.socket, events: POLLIN, timeout: 0 })
    }

    /// Reads one message, for a buffer of `room` bytes.
    pub fn read(&self, order: ByteOrder, room: usize) -> (step: Step<
        FrameRead,
        Result<Frame, IpcError>,
    >)
        ensures
            step == Step::<FrameRead, Result<Frame, IpcError>>::Call(
                FrameRead::Length { socket: self.socket, order, room },
            ),
    {
        Step::Call(FrameRead::Length { socket: self.socket, order, room })
    }

    /// Writes one message.
    pub fn write<'a>(&self, order: ByteOrder, buf: &'a [u8]) -> (step: Step<
        FrameWrite<'a>,
        Result<usize, IpcError>,
    >)
        ensures
            step matches Step::Call(write) && write.starts(self.socket, order, buf),
    {
        Step::Call(FrameWrite::start(self.socket, order, buf))
    }

    /// Does nothing: what is written is on its way.
    pub fn flush(&self) -> (result: Result<(), IpcError>)
        ensures
            result == Ok::<(), IpcError>(()),
    {
        Ok(())
    }

    /// Ends the connection in both directions.
    pub fn shutdown(&self) -> (step: Step<Disconnect, Poll<()>>)
        ensures
            step == Step::<Disconnect, Poll<()>>::Call(
                Disconnect::Shutdown { socket: self.socket, how: Direction::Both },
            ),
    {
        Step::Call(Disconnect::Shutdown { socket: self.socket, how: Direction::Both })
    }
}

impl<T: Message> UnixSockStreamClient<T> {
    /// The bytes to write to the server in order to send a value.
    pub fn async_send(&self, to_send: &T) -> (buf: Vec<u8>)
        ensures
            buf@ == T::encoding(to_send@),
    {
        to_send.encode()
    }

    /// The value received, given what a read has appended to the receive buffer.
    pub fn finish_recv(&self, buf: &[u8], read: Poll<usize>) -> (value: Poll<T>)
        requires
            read matches Ok(Async::Ready(n)) ==> n <= buf@.len() && T::decoding(
                last_bytes(buf@, n as nat),
            ) is Some,
        ensures
            match read {
                Ok(Async::Ready(n)) => value matches Ok(Async::Ready(v)) && T::decoding(
                    last_bytes(buf@, n as nat),
                ) == Some(v@),
                Ok(Async::NotReady) => value matches Ok(Async::NotReady),
                Err(e) => value matches Err(f) && f == e,
            },
    {
        received_once_ready(message_at_end(buf, read))
    }
}

/// Opening a server succeeds exactly where making, binding and listening all succeed. It then
/// listens on the socket that was made, and has no client. The first call that fails gives its
/// error code.
pub proof fn open_server_outcome<T>(
    options: SocketOptions,
    address: SocketAddress,
    made: Reply,
    bound: Reply,
    listening: Reply,
)
    ensures
        run(
            Step::Call(OpenServer::<T>::Socket { options, address, _phantom: PhantomData }),
            seq![made, bound, listening],
        ) == Step::<OpenServer<T>, Result<UnixSockStreamServer<T>, IpcError>>::Done(
            if made.ret == -1 {
                Err(IpcError::Os(made.errno))
            } else if bound.ret != 0 {
                Err(IpcError::Os(bound.errno))
            } else if listening.ret != 0 {
                Err(IpcError::Os(listening.errno))
            } else {
                Ok(
                    UnixSockStreamServer {
                        connect_socket: made.ret,
                        socket: None,
                        _phantom: PhantomData,
                    },
                )
            },
        ),
{
    reveal_with_fuel(run, 4);
    assert(seq![made, bound, listening].drop_first() =~= seq![bound, listening]);
    assert(seq![bound, listening].drop_first() =~= seq![listening]);
}

/// Opening a client succeeds exactly where making and connecting both succeed. It then talks on the
/// socket that was made. The first call that fails gives its error code.
pub proof fn open_client_outcome<T>(
    options: SocketOptions,
    address: SocketAddress,
    made: Reply,
    connected: Reply,
)
    ensures
        run(
            Step::Call(OpenClient::<T>::Socket { options, address, _phantom: PhantomData }),
            seq![made, connected],
        ) == Step::<OpenClient<T>, Result<UnixSockStreamClient<T>, IpcError>>::Done(
            if made.ret == -1 {
                Err(IpcError::Os(made.errno))
            } else if connected.ret != 0 {
                Err(IpcError::Os(connected.errno))
            } else {
                Ok(UnixSockStreamClient { socket: made.ret, _phantom: PhantomData })
            },
        ),
{
    reveal_with_fuel(run, 3);
    assert(seq![made, connected].drop_first() =~= seq![connected]);
}

/// The server binds and the client connects to the address that they were given, so that ends which
/// were given the same name meet.
pub proof fn ends_use_their_address<T>(
    options: SocketOptions,
    address: SocketAddress,
    made: Reply,
)
    requires
        made.ret != -1,
    ensures
        (OpenServer::<T>::Socket { options, address, _phantom: PhantomData }).after(made) == Step::<
            OpenServer<T>,
            Result<UnixSockStreamServer<T>, IpcError>,
        >::Call(OpenServer::Bind { socket: made.ret, address, _phantom: PhantomData }),
        (OpenClient::<T>::Socket { options, address, _phantom: PhantomData }).after(made) == Step::<
            OpenClient<T>,
            Result<UnixSockStreamClient<T>, IpcError>,
        >::Call(OpenClient::Connect { socket: made.ret, address, _phantom: PhantomData }),
{
}

/// A server that has got its client keeps it: it still listens on the same socket, and what it does
/// from then on waits for no other client.
pub proof fn client_is_kept<T>(
    server: UnixSockStreamServer<T>,
    nonblocking: bool,
    reply: Reply,
)
    requires
        reply.ret >= 0,
    ensures
        (Accept { server, nonblocking }).after(reply) matches Step::Done(Attached::Connected(connected))
            && connected.socket == Some(reply.ret) && connected.connect_socket
            == server.connect_socket && connected.attaching() == Step::<
            Accept<T>,
            Attached<T>,
        >::Done(Attached::Connected(connected)),
{
}

/// A server that got no client is as it was, and the next thing it does waits for one again.
pub proof fn refused_server_waits_again<T>(
    server: UnixSockStreamServer<T>,
    nonblocking: bool,
    reply: Reply,
)
    requires
        server.socket is None,
        reply.ret < 0,
    ensures
        (Accept { server, nonblocking }).after(reply) == Step::<Accept<T>, Attached<T>>::Done(
            Attached::Refused(server),
        ),
        server.attaching() == Step::<Accept<T>, Attached<T>>::Call(
            Accept { server, nonblocking: true },
        ),
{
}

/// Nothing is read from a socket unless the system says that there is something to read; until then
/// the receiver asks again later.
pub proof fn nothing_is_read_unasked(socket: i32, ret: i32, revents: i16, errno: i32)
    ensures
        match (Receive::Poll { socket, events: POLLIN, timeout: 0 }).after(
            RecvReply::Polled { ret, revents, errno },
        ) {
            Step::Call(Receive::Read { socket: s, buffer }) => s == socket && buffer == MESSAGE_ROOM
                && ret > 0 && revents as int % 2 == 1,
            Step::Call(Receive::Poll { socket, events, timeout }) => false,
            Step::Done(Ok(Async::Ready(n))) => false,
            Step::Done(Ok(Async::NotReady)) => ret == 0 || (ret > 0 && revents as int % 2 == 0),
            Step::Done(Err(e)) => ret < 0 && e == IpcError::Os(errno),
        },
{
    assert(revents & 1 == revents as int % 2) by (bit_vector);
}

/// Ending a connection closes the socket only where the system refuses to end it, and fails only
/// where it refuses to close it as well.
pub proof fn disconnect_outcome(socket: i32, how: Direction, ended: Reply, closed: Reply)
    ensures
        run(Step::Call(Disconnect::Shutdown { socket, how }), seq![ended, closed]) == Step::<
            Disconnect,
            Poll<()>,
        >::Done(
            if ended.ret < 0 && closed.ret < 0 {
                Err(IpcError::Os(closed.errno))
            } else {
                Ok(Async::Ready(()))
            },
        ),
        (Disconnect::Shutdown { socket, how }).after(ended) is Call <==> ended.ret < 0,
{
    reveal_with_fuel(run, 3);
    assert(seq![ended, closed].drop_first() =~= seq![closed]);
}

/// A value that one end sends is what the other end receives. Its frame is read from the stream
/// whole, with nothing of what comes behind it; the read puts the message at the front of what it
/// appends to the receive buffer, and reports the size of the frame; and from so many bytes at the
/// end of the buffer the value is decoded.
pub proof fn sent_is_received<T: Message>(
    value: T::V,
    socket: i32,
    order: ByteOrder,
    room: usize,
    behind: Seq<u8>,
    first: ReadReply,
    between: Seq<u8>,
    second: ReadReply,
    rest: Seq<u8>,
    appended: Seq<u8>,
)
    requires
        T::representable(value),
        T::encoding(value).len() <= room <= isize::MAX,
        reads(
            frame(T::encoding(value), order) + behind,
            FrameRead::Length { socket, order, room },
            first,
            between,
        ),
        reads(
            between,
            FrameRead::Body { socket, size: T::encoding(value).len() as usize, room },
            second,
            rest,
        ),
        appended.len() == T::encoding(value).len() + word_size(),
        second.data@ == appended.take(second.data@.len() as int),
    ensures
        run(Step::Call(FrameRead::Length { socket, order, room }), seq![first, second]) == Step::<
            FrameRead,
            Result<Frame, IpcError>,
        >::Done(Ok(Frame { body: second.data, count: appended.len() as usize })),
        T::decoding(last_bytes(zeros(MESSAGE_ROOM as nat) + appended, appended.len())) == Some(
            value,
        ),
        rest == behind,
{
    let body = T::encoding(value);
    frame_is_read(socket, order, room, body, behind, first, between, second, rest);
    crate::buffer::appended_is_at_end(zeros(MESSAGE_ROOM as nat), appended);
    T::decoding_of_encoding(value, appended.skip(body.len() as int));
    assert(body + appended.skip(body.len() as int) =~= appended);
}

/// Values as they stand on a stream, one behind the other.
pub open spec fn stream_of<T: Message>(values: Seq<T::V>, order: ByteOrder) -> Seq<u8> {
    frames(values.map_values(|value: T::V| T::encoding(value)), order)
}

/// A value that is sent goes behind those that are on their way: the two calls that write it put its
/// frame at the end of the stream.
pub proof fn value_goes_behind_the_others<'a, T: Message>(
    values: Seq<T::V>,
    value: T::V,
    socket: i32,
    order: ByteOrder,
    body: &'a [u8],
    write: FrameWrite<'a>,
    first: WriteReply,
)
    requires
        body@ == T::encoding(value),
        write.starts(socket, order, body),
        first.ret != 0,
    ensures
        write.after(first) matches Step::Call(next) && stream_of::<T>(values, order)
            + write.bytes() + next.bytes() == stream_of::<T>(values.push(value), order),
{
    let encode = |v: T::V| T::encoding(v);
    frames_are_appended(values.map_values(encode), body@, order);
    assert(values.push(value).map_values(encode) =~= values.map_values(encode).push(body@));
    let stream = stream_of::<T>(values, order);
    assert(stream + write.bytes() + body@ =~= stream + frame(body@, order));
}

/// One message being received from a stream: what the two calls that read it left behind, what was
/// left to be read between them, and what the read appends to the receive buffer.
pub struct Reading {
    /// What the call for the length left behind.
    pub first: ReadReply,
    /// What was left to be read between the calls.
    pub between: Seq<u8>,
    /// What the call for the message left behind.
    pub second: ReadReply,
    /// What is appended to the receive buffer: the message, and as many bytes more as the length has.
    pub appended: Seq<u8>,
}

impl Reading {
    /// Whether this is how a message of `size` bytes is received while `before` waits to be read,
    /// and leaves `after` to be read.
    pub open spec fn takes(
        self,
        socket: i32,
        order: ByteOrder,
        room: usize,
        size: nat,
        before: Seq<u8>,
        after: Seq<u8>,
    ) -> bool {
        &&& reads(before, FrameRead::Length { socket, order, room }, self.first, self.between)
        &&& reads(
            self.between,
            FrameRead::Body { socket, size: size as usize, room },
            self.second,
            after,
        )
        &&& self.appended.len() == size + word_size()
        &&& self.second.data@ == self.appended.take(self.second.data@.len() as int)
    }

    /// Whether the receiver gets `value`.
    pub open spec fn gives<T: Message>(
        self,
        socket: i32,
        order: ByteOrder,
        room: usize,
        value: T::V,
    ) -> bool {
        &&& run(
            Step::Call(FrameRead::Length { socket, order, room }),
            seq![self.first, self.second],
        ) == Step::<FrameRead, Result<Frame, IpcError>>::Done(
            Ok(Frame { body: self.second.data, count: self.appended.len() as usize }),
        )
        &&& T::decoding(
            last_bytes(zeros(MESSAGE_ROOM as nat) + self.appended, self.appended.len()),
        ) == Some(value)
    }
}

/// What is received is the oldest of the values that are on their way, and the others stay on the
/// stream in their order.
pub proof fn oldest_value_is_received<T: Message>(
    values: Seq<T::V>,
    socket: i32,
    order: ByteOrder,
    room: usize,
    reading: Reading,
    after: Seq<u8>,
)
    requires
        values.len() > 0,
        T::representable(values[0]),
        T::encoding(values[0]).len() <= room <= isize::MAX,
        reading.takes(
            socket,
            order,
            room,
            T::encoding(values[0]).len(),
            stream_of::<T>(values, order),
            after,
        ),
    ensures
        reading.gives::<T>(socket, order, room, values[0]),
        after == stream_of::<T>(values.drop_first(), order),
{
    let encode = |v: T::V| T::encoding(v);
    let bodies = values.map_values(encode);
    assert(bodies.drop_first() =~= values.drop_first().map_values(encode));
    sent_is_received::<T>(
        values[0],
        socket,
        order,
        room,
        stream_of::<T>(values.drop_first(), order),
        reading.first,
        reading.between,
        reading.second,
        after,
        reading.appended,
    );
}

/// Values are received in the order in which they were sent: of a stream that holds `values`, the
/// receptions one after the other give one value each, from the first on, and the values that are
/// not received yet stay. `states` is what waits to be read before each and after the last.
pub proof fn values_are_received_in_order<T: Message>(
    values: Seq<T::V>,
    socket: i32,
    order: ByteOrder,
    room: usize,
    readings: Seq<Reading>,
    states: Seq<Seq<u8>>,
)
    requires
        room <= isize::MAX,
        forall|i: int|
            0 <= i < values.len() ==> T::representable(#[trigger] values[i]) && T::encoding(
                values[i],
            ).len() <= room,
        readings.len() <= values.len(),
        states.len() == readings.len() + 1,
        states[0] == stream_of::<T>(values, order),
        forall|i: int|
            #![trigger readings[i]]
            0 <= i < readings.len() ==> readings[i].takes(
                socket,
                order,
                room,
                T::encoding(values[i]).len(),
                states[i],
                states[i + 1],
            ),
    ensures
        forall|i: int|
            0 <= i < readings.len() ==> (#[trigger] readings[i]).gives::<T>(
                socket,
                order,
                room,
                values[i],
            ),
        states.last() == stream_of::<T>(values.skip(readings.len() as int), order),
    decreases readings.len(),
{
    if readings.len() == 0 {
        assert(values.skip(0) =~= values);
    } else {
        let n = readings.len() - 1;
        let earlier = readings.drop_last();
        assert forall|i: int|
            #![trigger earlier[i]]
            0 <= i < earlier.len() implies earlier[i].takes(
            socket,
            order,
            room,
            T::encoding(values[i]).len(),
            states.drop_last()[i],
            states.drop_last()[i + 1],
        ) by {
            assert(earlier[i] == readings[i]);
        }
        values_are_received_in_order::<T>(
            values,
            socket,
            order,
            room,
            earlier,
            states.drop_last(),
        );
        let rest = values.skip(n);
        assert(rest[0] == values[n]);
        oldest_value_is_received::<T>(rest, socket, order, room, readings[n], states[n + 1]);
        assert(rest.drop_first() =~= values.skip(n + 1));
        assert forall|i: int| 0 <= i < readings.len() implies (#[trigger] readings[i]).gives::<T>(
            socket,
            order,
            room,
            values[i],
        ) by {
            if i < n {
                assert(earlier[i] == readings[i]);
            }
        }
    }
}

/// What the read gave is what the receiver gets, whatever it is: nothing that has been taken off the
/// socket is held back.
pub proof fn what_was_read_is_received(socket: i32, buffer: usize, read: Poll<usize>)
    ensures
        (Receive::Read { socket, buffer }).after(RecvReply::Read(read)) == Step::<
            Receive,
            Poll<usize>,
        >::Done(read),
        (Receive::Read { socket, buffer }).answered_by(RecvReply::Read(read)),
{
}

/// Where the system says that there is something to read, the message is read from the socket that
/// was asked about, and what comes of the read is what comes of receiving. Where it says anything
/// else nothing is read, and the receiver asks again later or gets the error code.
pub proof fn readable_socket_is_received_from(
    socket: i32,
    events: i16,
    timeout: i32,
    ret: i32,
    revents: i16,
    errno: i32,
    read: Poll<usize>,
)
    ensures
        (Receive::Poll { socket, events, timeout }).answered_by(
            RecvReply::Polled { ret, revents, errno },
        ),
        match (Receive::Poll { socket, events, timeout }).after(
            RecvReply::Polled { ret, revents, errno },
        ) {
            Step::Call(Receive::Read { socket: s, buffer }) => s == socket && buffer == 65536 && ret
                > 0 && revents as int % 2 == 1,
            Step::Call(Receive::Poll { socket, events, timeout }) => false,
            Step::Done(Ok(Async::Ready(n))) => false,
            Step::Done(Ok(Async::NotReady)) => ret == 0 || (ret > 0 && revents as int % 2 == 0),
            Step::Done(Err(e)) => ret < 0 && e == IpcError::Os(errno),
        },
        ret > 0 && revents as int % 2 == 1 ==> run(
            Step::Call(Receive::Poll { socket, events, timeout }),
            seq![RecvReply::Polled { ret, revents, errno }, RecvReply::Read(read)],
        ) == Step::<Receive, Poll<usize>>::Done(read),
{
    assert(revents & 1 == revents as int % 2) by (bit_vector);
    let polled = RecvReply::Polled { ret, revents, errno };
    reveal_with_fuel(run, 3);
    assert(seq![polled, RecvReply::Read(read)].drop_first() =~= seq![RecvReply::Read(read)]);
}

/// A server binds the socket that was made, to the address that it was given, and lets one client
/// wait on it. Each step comes only where the one before it succeeded.
pub proof fn server_listens_on_the_socket_it_made<T>(
    options: SocketOptions,
    address: SocketAddress,
    socket: i32,
    backlog: i32,
    reply: Reply,
)
    ensures
        match (OpenServer::<T>::Socket { options, address, _phantom: PhantomData }).after(reply) {
            Step::Call(OpenServer::Bind { socket: s, address: a, _phantom }) => reply.ret != -1 && s
                == reply.ret && a == address,
            Step::Call(_) => false,
            Step::Done(Ok(server)) => false,
            Step::Done(Err(e)) => reply.ret == -1 && e == IpcError::Os(reply.errno),
        },
        match (OpenServer::<T>::Bind { socket, address, _phantom: PhantomData }).after(reply) {
            Step::Call(OpenServer::Listen { socket: s, backlog: b, _phantom }) => reply.ret == 0 && s
                == socket && b == 1,
            Step::Call(_) => false,
            Step::Done(Ok(server)) => false,
            Step::Done(Err(e)) => reply.ret != 0 && e == IpcError::Os(reply.errno),
        },
        match (OpenServer::<T>::Listen { socket, backlog, _phantom: PhantomData }).after(reply) {
            Step::Call(_) => false,
            Step::Done(Ok(server)) => reply.ret == 0 && server.connect_socket == socket
                && server.socket is None,
            Step::Done(Err(e)) => reply.ret != 0 && e == IpcError::Os(reply.errno),
        },
        (OpenServer::<T>::Socket { options, address, _phantom: PhantomData }).answered_by(reply),
        (OpenServer::<T>::Bind { socket, address, _phantom: PhantomData }).answered_by(reply),
        (OpenServer::<T>::Listen { socket, backlog, _phantom: PhantomData }).answered_by(reply),
{
}

/// A client connects the socket that was made, to the address that it was given, and talks on that
/// socket.
pub proof fn client_talks_on_the_socket_it_made<T>(
    options: SocketOptions,
    address: SocketAddress,
    socket: i32,
    reply: Reply,
)
    ensures
        match (OpenClient::<T>::Socket { options, address, _phantom: PhantomData }).after(reply) {
            Step::Call(OpenClient::Connect { socket: s, address: a, _phantom }) => reply.ret != -1
                && s == reply.ret && a == address,
            Step::Call(_) => false,
            Step::Done(Ok(client)) => false,
            Step::Done(Err(e)) => reply.ret == -1 && e == IpcError::Os(reply.errno),
        },
        match (OpenClient::<T>::Connect { socket, address, _phantom: PhantomData }).after(reply) {
            Step::Call(_) => false,
            Step::Done(Ok(client)) => reply.ret == 0 && client.socket == socket,
            Step::Done(Err(e)) => reply.ret != 0 && e == IpcError::Os(reply.errno),
        },
        (OpenClient::<T>::Socket { options, address, _phantom: PhantomData }).answered_by(reply),
        (OpenClient::<T>::Connect { socket, address, _phantom: PhantomData }).answered_by(reply),
{
}

/// A server waits for a client exactly where it has none, and the socket that it asks for does not
/// block. Its listening socket stays the same, whether it gets a client or not; it has a client
/// exactly where the system gave a socket, and then talks on that one.
pub proof fn server_waits_only_without_a_client<T>(
    server: UnixSockStreamServer<T>,
    nonblocking: bool,
    reply: Reply,
)
    ensures
        match server.attaching() {
            Step::Call(call) => server.socket is None && call.server == server && call.nonblocking,
            Step::Done(Attached::Connected(s)) => server.socket is Some && s == server,
            Step::Done(Attached::Refused(s)) => false,
        },
        match (Accept { server, nonblocking }).after(reply) {
            Step::Call(call) => false,
            Step::Done(Attached::Connected(s)) => reply.ret >= 0 && s.socket == Some(reply.ret)
                && s.connect_socket == server.connect_socket,
            Step::Done(Attached::Refused(s)) => reply.ret < 0 && s == server,
        },
        (Accept { server, nonblocking }).answered_by(reply),
{
}

/// The socket that is closed, where a connection could not be ended, is the one it was on.
pub proof fn the_same_socket_is_closed(socket: i32, how: Direction, reply: Reply)
    ensures
        match (Disconnect::Shutdown { socket, how }).after(reply) {
            Step::Call(Disconnect::Close { socket: s }) => reply.ret < 0 && s == socket,
            Step::Call(Disconnect::Shutdown { socket, how }) => false,
            Step::Done(Ok(ended)) => reply.ret >= 0 && ended is Ready,
            Step::Done(Err(e)) => false,
        },
        match (Disconnect::Close { socket }).after(reply) {
            Step::Call(_) => false,
            Step::Done(Ok(ended)) => reply.ret >= 0 && ended is Ready,
            Step::Done(Err(e)) => reply.ret < 0 && e == IpcError::Os(reply.errno),
        },
        (Disconnect::Shutdown { socket, how }).answered_by(reply),
        (Disconnect::Close { socket }).answered_by(reply),
{
}

} // verus!

//! Named pipes of Windows.

use std::marker::PhantomData;

use vstd::prelude::*;

use crate::buffer::{last_bytes, message_at_end, zeros, MESSAGE_ROOM};
use crate::message::{decoding_of_whole_encoding, received, received_once_ready, Message};
use crate::operation::{run, run_in_two_parts, Async, IpcError, Operation, Poll, Step};

verus! {

/// The handle that stands for none.
pub const INVALID_HANDLE: usize = usize::MAX;

/// The error code of waiting for a pipe that does not exist.
pub const ERROR_FILE_NOT_FOUND: i32 = 2;

/// The error code of an overlapped operation that is still under way, when it is asked for.
pub const ERROR_IO_INCOMPLETE: i32 = 996;

/// The error code of an overlapped operation that was started and is under way.
pub const ERROR_IO_PENDING: i32 = 997;

/// The end of a channel that makes the pipe.
#[derive(Debug)]
pub struct NamedPipeServer<T> {
    /// The handle of the pipe.
    pub handle: usize,
    /// Whether the connection of a client is still to be waited for.
    pub connecting: bool,
    /// What the channel carries.
    pub _phantom: PhantomData<T>,
}

/// The end of a channel that opens a pipe which a server has made.
#[derive(Debug)]
pub struct NamedPipeClient<T> {
    /// The full name of the pipe, with the zero that ends it.
    pub np_name: Vec<u16>,
    /// The handle of the pipe.
    pub handle: usize,
    /// What the channel carries.
    pub _phantom: PhantomData<T>,
}

/// What a call on a pipe left behind.
#[derive(Clone, Copy, Debug, PartialEq, Eq, Structural)]
pub struct PipeReply {
    /// What a call that returns a truth value returned: zero where it failed.
    pub ret: i32,
    /// What a call that returns a handle returned.
    pub handle: usize,
    /// How many bytes the call says it moved.
    pub n_bytes: u32,
    /// The error code of the calling thread after the call.
    pub errno: i32,
}

/// Where the names of pipes begin: `\\.\pipe\`.
pub open spec fn pipe_root() -> Seq<u16> {
    seq![0x5cu16, 0x5c, 0x2e, 0x5c, 0x70, 0x69, 0x70, 0x65, 0x5c]
}

/// The full name of a pipe, with the zero that ends it.
pub open spec fn full_name(name: Seq<u16>) -> Seq<u16> {
    pipe_root() + name + seq![0u16]
}

/// The full name of a pipe, with the zero that ends it.
pub fn pipe_name(name: &[u16]) -> (full: Vec<u16>)
    ensures
        full@ == full_name(name@),
{
    let mut full: Vec<u16> = vec![0x5c, 0x5c, 0x2e, 0x5c, 0x70, 0x69, 0x70, 0x65, 0x5c];
    full.extend_from_slice(name);
    full.push(0);
    assert(full@ =~= full_name(name@));
    full
}

/// Whether UTF-16 code units stand for a text: each surrogate is one half of a pair.
pub open spec fn is_utf16(units: Seq<u16>) -> bool
    decreases units.len(),
{
    if units.len() == 0 {
        true
    } else if units[0] < 0xd800 || 0xe000 <= units[0] {
        is_utf16(units.skip(1))
    } else {
        units[0] < 0xdc00 && units.len() >= 2 && 0xdc00 <= units[1] < 0xe000 && is_utf16(
            units.skip(2),
        )
    }
}

/// Whether UTF-16 code units stand for a text.
pub fn holds_text(units: &[u16]) -> (holds: bool)
    ensures
        holds == is_utf16(units@),
{
    let mut i: usize = 0;
    assert(units@.skip(0) =~= units@);
    while i < units.len()
        invariant
            i <= units@.len(),
            is_utf16(units@) == is_utf16(units@.skip(i as int)),
        decreases units@.len() - i,
    {
        let ghost rest = units@.skip(i as int);
        assert(rest.skip(1) =~= units@.skip(i + 1));
        assert(rest.len() >= 2 ==> rest.skip(2) =~= units@.skip(i + 2));
        let unit: u16 = units[i];
        if unit < 0xd800 || 0xe000 <= unit {
            i = i + 1;
        } else {
            if 0xdc00 <= unit || units.len() - i < 2 {
                return false;
            }
            let low: u16 = units[i + 1];
            if low < 0xdc00 || 0xe000 <= low {
                return false;
            }
            i = i + 2;
        }
    }
    true
}

/// Opening a server.
#[derive(Debug)]
pub enum OpenPipeServer<T> {
    /// Makes the pipe: duplex and overlapped, made of messages and read by message.
    Create {
        name: Vec<u16>,
        open_mode: u32,
        pipe_mode: u32,
        max_instances: u32,
        out_buffer: u32,
        in_buffer: u32,
        timeout: u32,
        _phantom: PhantomData<T>,
    },
    /// Starts to wait for a client; `overlapped` is whether the call returns before there is one.
    Connect { handle: usize, overlapped: bool, _phantom: PhantomData<T> },
}

impl<T> Operation for OpenPipeServer<T> {
    type Reply = PipeReply;

    type Outcome = Result<NamedPipeServer<T>, IpcError>;

    open spec fn answered_by(self, reply: PipeReply) -> bool {
        true
    }

    open spec fn after(self, reply: PipeReply) -> Step<Self, Result<NamedPipeServer<T>, IpcError>> {
        match self {
            OpenPipeServer::Create { _phantom, .. } => if reply.handle == INVALID_HANDLE {
                Step::Done(Err(IpcError::Os(reply.errno)))
            } else {
                Step::Call(
                    OpenPipeServer::Connect { handle: reply.handle, overlapped: true, _phantom },
                )
            },
            OpenPipeServer::Connect { handle, overlapped, _phantom } => if reply.ret == 0 && reply.errno
                != ERROR_IO_PENDING {
                Step::Done(Err(IpcError::Os(reply.errno)))
            } else {
                Step::Done(Ok(NamedPipeServer { handle, connecting: true, _phantom }))
            },
        }
    }

    fn resume(self, reply: PipeReply) -> Step<Self, Result<NamedPipeServer<T>, IpcError>> {
        match self {
            OpenPipeServer::Create { _phantom, .. } => {
                if reply.handle == INVALID_HANDLE {
                    return Step::Done(Err(IpcError::Os(reply.errno)));
                }
                Step::Call(
                    OpenPipeServer::Connect { handle: reply.handle, overlapped: true, _phantom },
                )
            },
            OpenPipeServer::Connect { handle, overlapped: _, _phantom } => {
                if reply.ret == 0 {
                    if reply.errno != ERROR_IO_PENDING {
                        return Step::Done(Err(IpcError::Os(reply.errno)));
                    }
                }
                Step::Done(Ok(NamedPipeServer { handle, connecting: true, _phantom }))
            },
        }
    }
}

/// Opening a client.
#[derive(Debug)]
pub enum OpenPipeClient<T> {
    /// Waits until the pipe can be opened, for so many milliseconds; while there is no such pipe the
    /// call returns at once, and is made again.
    Wait { name: Vec<u16>, timeout: u32, _phantom: PhantomData<T> },
    /// Opens the pipe.
    Create {
        name: Vec<u16>,
        access: u32,
        share: u32,
        disposition: u32,
        attributes: u32,
        _phantom: PhantomData<T>,
    },
    /// Sets how the pipe is read.
    SetMode { name: Vec<u16>, handle: usize, mode: u32, _phantom: PhantomData<T> },
}

/// Waits without end.
pub const WAIT_FOREVER: u32 = 0xffff_ffff;

/// The right to read (`0x8000_0000`), to write (`0x4000_0000`) and to set the attributes (`0x100`).
pub const CLIENT_ACCESS: u32 = 0xc000_0100;

/// Others may open the pipe for reading.
pub const SHARE_READ: u32 = 1;

/// Opens what exists.
pub const OPEN_EXISTING: u32 = 3;

/// Reads a pipe message by message.
pub const READ_BY_MESSAGE: u32 = 2;

/// Whether a call that waits for a pipe found that there is none of that name.
pub open spec fn no_such_pipe(reply: PipeReply) -> bool {
    reply.ret == 0 && reply.errno == ERROR_FILE_NOT_FOUND
}

impl<T> Operation for OpenPipeClient<T> {
    type Reply = PipeReply;

    type Outcome = Result<NamedPipeClient<T>, IpcError>;

    open spec fn answered_by(self, reply: PipeReply) -> bool {
        true
    }

    open spec fn after(self, reply: PipeReply) -> Step<Self, Result<NamedPipeClient<T>, IpcError>> {
        match self {
            OpenPipeClient::Wait { name, timeout, _phantom } => if no_such_pipe(reply) {
                Step::Call(OpenPipeClient::Wait { name, timeout, _phantom })
            } else if reply.ret == 0 {
                Step::Done(Err(IpcError::Os(reply.errno)))
            } else {
                Step::Call(
                    OpenPipeClient::Create {
                        name,
                        access: CLIENT_ACCESS,
                        share: SHARE_READ,
                        disposition: OPEN_EXISTING,
                        attributes: 0,
                        _phantom,
                    },
                )
            },
            OpenPipeClient::Create { name, _phantom, .. } => if reply.handle == INVALID_HANDLE {
                Step::Done(Err(IpcError::Os(reply.errno)))
            } else {
                Step::Call(
                    OpenPipeClient::SetMode {
                        name,
                        handle: reply.handle,
                        mode: READ_BY_MESSAGE,
                        _phantom,
                    },
                )
            },
            OpenPipeClient::SetMode { name, handle, mode, _phantom } => if reply.ret == 0 {
                Step::Done(Err(IpcError::Os(reply.errno)))
            } else {
                Step::Done(Ok(NamedPipeClient { np_name: name, handle, _phantom }))
            },
        }
    }

    fn resume(self, reply: PipeReply) -> Step<Self, Result<NamedPipeClient<T>, IpcError>> {
        match self {
            OpenPipeClient::Wait { name, timeout, _phantom } => {
                if reply.ret == 0 {
                    if reply.errno == ERROR_FILE_NOT_FOUND {
                        return Step::Call(OpenPipeClient::Wait { name, timeout, _phantom });
                    }
                    return Step::Done(Err(IpcError::Os(reply.errno)));
                }
                Step::Call(
                    OpenPipeClient::Create {
                        name,
                        access: CLIENT_ACCESS,
                        share: SHARE_READ,
                        disposition: OPEN_EXISTING,
                        attributes: 0,
                        _phantom,
                    },
                )
            },
            OpenPipeClient::Create { name, _phantom, .. } => {
                if reply.handle == INVALID_HANDLE {
                    return Step::Done(Err(IpcError::Os(reply.errno)));
                }
                Step::Call(
                    OpenPipeClient::SetMode {
                        name,
                        handle: reply.handle,
                        mode: READ_BY_MESSAGE,
                        _phantom,
                    },
                )
            },
            OpenPipeClient::SetMode { name, handle, mode: _, _phantom } => {
                if reply.ret == 0 {
                    return Step::Done(Err(IpcError::Os(reply.errno)));
                }
                Step::Done(Ok(NamedPipeClient { np_name: name, handle, _phantom }))
            },
        }
    }
}

/// Waiting for the client to connect that a server was opened for.
#[derive(Debug)]
pub struct AwaitClient<T> {
    /// The server that waits.
    pub server: NamedPipeServer<T>,
    /// Whether the call returns only once there is a client.
    pub wait: bool,
}

/// Whether a server has a client.
#[derive(Debug)]
pub enum PipeAttached<T> {
    /// It has one.
    Connected(NamedPipeServer<T>),
    /// The system gave none; asking for the outcome gives
    /// [`refused`](crate::unix_sock_stream::refused).
    Refused(NamedPipeServer<T>),
}

impl<T> Operation for AwaitClient<T> {
    type Reply = PipeReply;

    type Outcome = PipeAttached<T>;

    open spec fn answered_by(self, reply: PipeReply) -> bool {
        true
    }

    open spec fn after(self, reply: PipeReply) -> Step<Self, PipeAttached<T>> {
        if reply.ret == 0 {
            Step::Done(PipeAttached::Refused(self.server))
        } else {
            Step::Done(
                PipeAttached::Connected(NamedPipeServer { connecting: false, ..self.server }),
            )
        }
    }

    fn resume(self, reply: PipeReply) -> Step<Self, PipeAttached<T>> {
        if reply.ret == 0 {
            return Step::Done(PipeAttached::Refused(self.server));
        }
        Step::Done(
            PipeAttached::Connected(
                NamedPipeServer {
                    handle: self.server.handle,
                    connecting: false,
                    _phantom: self.server._phantom,
                },
            ),
        )
    }
}

/// Writing to a pipe.
#[derive(Clone, Copy, Debug)]
pub struct PipeWrite<'a> {
    /// The handle of the pipe.
    pub handle: usize,
    /// What to write.
    pub buf: &'a [u8],
    /// How many bytes of it.
    pub len: u32,
    /// Whether the call may return before the bytes are written.
    pub overlapped: bool,
}

/// What a call that writes comes to: a write that is under way counts as one that has moved the
/// bytes it says it has.
pub open spec fn written(reply: PipeReply) -> Result<usize, IpcError> {
    if reply.ret == 0 && reply.errno != ERROR_IO_PENDING {
        Err(IpcError::Os(reply.errno))
    } else {
        Ok(reply.n_bytes as usize)
    }
}

impl<'a> Operation for PipeWrite<'a> {
    type Reply = PipeReply;

    type Outcome = Result<usize, IpcError>;

    open spec fn answered_by(self, reply: PipeReply) -> bool {
        true
    }

    open spec fn after(self, reply: PipeReply) -> Step<Self, Result<usize, IpcError>> {
        Step::Done(written(reply))
    }

    fn resume(self, reply: PipeReply) -> Step<Self, Result<usize, IpcError>> {
        if reply.ret == 0 {
            if reply.errno != ERROR_IO_PENDING {
                return Step::Done(Err(IpcError::Os(reply.errno)));
            }
        }
        Step::Done(Ok(reply.n_bytes as usize))
    }
}

/// Writing to a pipe without waiting.
#[derive(Clone, Copy, Debug)]
pub enum PipeWriteBuf<'a> {
    /// Starts to write.
    Write(PipeWrite<'a>),
    /// Asks how far the write is that was started; `wait` is whether to wait for its end.
    GetResult { handle: usize, wait: bool },
}

impl<'a> Operation for PipeWriteBuf<'a> {
    type Reply = PipeReply;

    type Outcome = Poll<usize>;

    open spec fn answered_by(self, reply: PipeReply) -> bool {
        true
    }

    open spec fn after(self, reply: PipeReply) -> Step<Self, Poll<usize>> {
        match self {
            PipeWriteBuf::Write(write) => match written(reply) {
                Ok(n) => Step::Done(Ok(Async::Ready(n))),
                Err(e) => Step::Done(Err(e)),
            },
            PipeWriteBuf::GetResult { handle, wait } => if reply.ret != 0 {
                Step::Done(Ok(Async::Ready(reply.n_bytes as usize)))
            } else if reply.errno == ERROR_IO_INCOMPLETE {
                Step::Done(Ok(Async::NotReady))
            } else {
                Step::Done(Err(IpcError::Os(reply.errno)))
            },
        }
    }

    fn resume(self, reply: PipeReply) -> Step<Self, Poll<usize>> {
        match self {
            PipeWriteBuf::Write(write) => {
                let handle: usize = write.handle;
                match write.resume(reply) {
                    Step::Call(again) => Step::Call(PipeWriteBuf::Write(again)),
                    Step::Done(Ok(n)) => Step::Done(Ok(Async::Ready(n))),
                    Step::Done(Err(IpcError::Os(code))) => {
                        if code != ERROR_IO_PENDING {
                            return Step::Done(Err(IpcError::Os(code)));
                        }
                        Step::Call(PipeWriteBuf::GetResult { handle, wait: false })
                    },
                    Step::Done(Err(e)) => Step::Done(Err(e)),
                }
            },
            PipeWriteBuf::GetResult { handle: _, wait: _ } => {
                if reply.ret == 0 {
                    if reply.errno != ERROR_IO_INCOMPLETE {
                        return Step::Done(Err(IpcError::Os(reply.errno)));
                    }
                    return Step::Done(Ok(Async::NotReady));
                }
                Step::Done(Ok(Async::Ready(reply.n_bytes as usize)))
            },
        }
    }
}

/// Reading from a pipe.
#[derive(Clone, Copy, Debug)]
pub struct PipeRead {
    /// The handle of the pipe.
    pub handle: usize,
    /// How many bytes there is room for.
    pub len: u32,
    /// Whether the call may return before there is something to read.
    pub overlapped: bool,
}

impl Operation for PipeRead {
    type Reply = PipeReply;

    type Outcome = Result<usize, IpcError>;

    open spec fn answered_by(self, reply: PipeReply) -> bool {
        true
    }

    open spec fn after(self, reply: PipeReply) -> Step<Self, Result<usize, IpcError>> {
        if reply.ret == 0 {
            Step::Done(Err(IpcError::Os(reply.errno)))
        } else {
            Step::Done(Ok(reply.n_bytes as usize))
        }
    }

    fn resume(self, reply: PipeReply) -> Step<Self, Result<usize, IpcError>> {
        if reply.ret == 0 {
            return Step::Done(Err(IpcError::Os(reply.errno)));
        }
        Step::Done(Ok(reply.n_bytes as usize))
    }
}

/// Letting go of a pipe: the client is disconnected, then the handle is closed.
#[derive(Clone, Copy, Debug)]
pub enum PipeShutdown {
    /// Disconnects the client.
    Disconnect { handle: usize },
    /// Closes the handle.
    Close { handle: usize },
}

impl Operation for PipeShutdown {
    type Reply = PipeReply;

    type Outcome = Poll<()>;

    open spec fn answered_by(self, reply: PipeReply) -> bool {
        true
    }

    open spec fn after(self, reply: PipeReply) -> Step<Self, Poll<()>> {
        if reply.ret == 0 {
            Step::Done(Err(IpcError::Os(reply.errno)))
        } else {
            match self {
                PipeShutdown::Disconnect { handle } => Step::Call(PipeShutdown::Close { handle }),
                PipeShutdown::Close { handle } => Step::Done(Ok(Async::Ready(()))),
            }
        }
    }

    fn resume(self, reply: PipeReply) -> Step<Self, Poll<()>> {
        match self {
            PipeShutdown::Disconnect { handle } => {
                if reply.ret == 0 {
                    return Step::Done(Err(IpcError::Os(reply.errno)));
                }
                Step::Call(PipeShutdown::Close { handle })
            },
            PipeShutdown::Close { handle: _ } => {
                if reply.ret == 0 {
                    return Step::Done(Err(IpcError::Os(reply.errno)));
                }
                Step::Done(Ok(Async::Ready(())))
            },
        }
    }
}

/// Letting go of a pipe that nobody waits for: whatever a call returns, the next one is made.
#[derive(Clone, Copy, Debug)]
pub enum PipeRelease {
    /// Disconnects the client.
    Disconnect { handle: usize },
    /// Closes the handle.
    Close { handle: usize },
}

impl Operation for PipeRelease {
    type Reply = PipeReply;

    type Outcome = ();

    open spec fn answered_by(self, reply: PipeReply) -> bool {
        true
    }

    open spec fn after(self, reply: PipeReply) -> Step<Self, ()> {
        match self {
            PipeRelease::Disconnect { handle } => Step::Call(PipeRelease::Close { handle }),
            PipeRelease::Close { handle } => Step::Done(()),
        }
    }

    fn resume(self, reply: PipeReply) -> Step<Self, ()> {
        match self {
            PipeRelease::Disconnect { handle } => Step::Call(PipeRelease::Close { handle }),
            PipeRelease::Close { handle: _ } => Step::Done(()),
        }
    }
}

/// How writing to a pipe without waiting starts: there may be nothing to write, and the write may
/// have been started before.
pub open spec fn writing<'a>(
    handle: usize,
    has_remaining: bool,
    started: bool,
    buf: &'a [u8],
) -> Step<PipeWriteBuf<'a>, Poll<usize>> {
    if !has_remaining {
        Step::Done(Ok(Async::Ready(0)))
    } else if !started {
        Step::Call(
            PipeWriteBuf::Write(
                PipeWrite { handle, buf, len: buf.len() as u32, overlapped: true },
            ),
        )
    } else {
        Step::Call(PipeWriteBuf::GetResult { handle, wait: false })
    }
}

/// Starts to write to a pipe without waiting.
fn start_write_buf<'a>(handle: usize, has_remaining: bool, started: bool, buf: &'a [u8]) -> (step:
    Step<PipeWriteBuf<'a>, Poll<usize>>)
    ensures
        step == writing(handle, has_remaining, started, buf),
{
    if !has_remaining {
        return Step::Done(Ok(Async::Ready(0)));
    }
    if !started {
        return Step::Call(
            PipeWriteBuf::Write(
                PipeWrite { handle, buf, len: buf.len() as u32, overlapped: true },
            ),
        );
    }
    Step::Call(PipeWriteBuf::GetResult { handle, wait: false })
}

impl<T> NamedPipeServer<T> {
    /// How a server makes sure that there is a client: it waits for the one that it was opened for,
    /// unless it has done so before.
    pub open spec fn attaching(self) -> Step<AwaitClient<T>, PipeAttached<T>> {
        if self.connecting {
            Step::Call(AwaitClient { server: self, wait: true })
        } else {
            Step::Done(PipeAttached::Connected(self))
        }
    }

    /// Makes the pipe of that name, and starts to wait for a client.
    pub fn new(name: &[u16]) -> (step: Step<
        OpenPipeServer<T>,
        Result<NamedPipeServer<T>, IpcError>,
    >)
        ensures
            step matches Step::Call(
                OpenPipeServer::Create {
                    name: n,
                    open_mode,
                    pipe_mode,
                    max_instances,
                    out_buffer,
                    in_buffer,
                    timeout,
                    _phantom,
                },
            ) && n@ == full_name(name@) && open_mode == 0x4000_0003 && pipe_mode == 6
                && max_instances == 255 && out_buffer == MESSAGE_ROOM && in_buffer == MESSAGE_ROOM
                && timeout == 0,
    {
        Step::Call(
            OpenPipeServer::Create {
                name: pipe_name(name),
                open_mode: 0x4000_0003,
                pipe_mode: 6,
                max_instances: 255,
                out_buffer: 65536,
                in_buffer: 65536,
                timeout: 0,
                _phantom: PhantomData,
            },
        )
    }

    /// Makes sure that there is a client.
    pub fn attach(self) -> (step: Step<AwaitClient<T>, PipeAttached<T>>)
        ensures
            step == self.attaching(),
    {
        if self.connecting {
            return Step::Call(AwaitClient { server: self, wait: true });
        }
        Step::Done(PipeAttached::Connected(self))
    }

    /// Starts to send: makes sure that there is a client.
    pub fn async_send(self) -> (step: Step<AwaitClient<T>, PipeAttached<T>>)
        ensures
            step == self.attaching(),
    {
        self.attach()
    }

    /// Starts to receive: makes sure that there is a client.
    pub fn async_recv(self) -> (step: Step<AwaitClient<T>, PipeAttached<T>>)
        ensures
            step == self.attaching(),
    {
        self.attach()
    }

    /// Writes to the pipe.
    pub fn write<'a>(&self, buf: &'a [u8]) -> (step: Step<PipeWrite<'a>, Result<usize, IpcError>>)
        ensures
            step == Step::<PipeWrite<'a>, Result<usize, IpcError>>::Call(
                PipeWrite { handle: self.handle, buf, len: buf.len() as u32, overlapped: true },
            ),
    {
        Step::Call(
            PipeWrite { handle: self.handle, buf, len: buf.len() as u32, overlapped: true },
        )
    }

    /// Writes to the pipe without waiting. `has_remaining` says whether there is anything to write,
    /// `started` whether the write has been started before.
    pub fn write_buf<'a>(&self, has_remaining: bool, started: bool, buf: &'a [u8]) -> (step: Step<
        PipeWriteBuf<'a>,
        Poll<usize>,
    >)
        ensures
            step == writing(self.handle, has_remaining, started, buf),
    {
        start_write_buf(self.handle, has_remaining, started, buf)
    }

    /// Does nothing: what is written is on its way.
    pub fn flush(&self) -> (result: Result<(), IpcError>)
        ensures
            result == Ok::<(), IpcError>(()),
    {
        Ok(())
    }

    /// Reads from the pipe, into a buffer of `room` bytes.
    pub fn read(&self, room: usize) -> (step: Step<PipeRead, Result<usize, IpcError>>)
        ensures
            step == Step::<PipeRead, Result<usize, IpcError>>::Call(
                PipeRead { handle: self.handle, len: room as u32, overlapped: true },
            ),
    {
        Step::Call(PipeRead { handle: self.handle, len: room as u32, overlapped: true })
    }

    /// Lets go of the pipe.
    pub fn shutdown(&self) -> (step: Step<PipeShutdown, Poll<()>>)
        ensures
            step == Step::<PipeShutdown, Poll<()>>::Call(
                PipeShutdown::Disconnect { handle: self.handle },
            ),
    {
        Step::Call(PipeShutdown::Disconnect { handle: self.handle })
    }

    /// Lets go of the pipe, whether or not the system agrees.
    pub fn release(&self) -> (step: Step<PipeRelease, ()>)
        ensures
            step == Step::<PipeRelease, ()>::Call(PipeRelease::Disconnect { handle: self.handle }),
    {
        Step::Call(PipeRelease::Disconnect { handle: self.handle })
    }
}

impl<T: Message> NamedPipeServer<T> {
    /// The server, and the bytes to write to its client in order to send a value. A server that got
    /// no client has nothing to write.
    pub fn finish_send(attached: PipeAttached<T>, to_send: &T) -> (sending: (
        NamedPipeServer<T>,
        Option<Vec<u8>>,
    ))
        ensures
            match attached {
                PipeAttached::Connected(server) => sending.0 == server && (
                sending.1 matches Some(buf) && buf@ == T::encoding(to_send@)),
                PipeAttached::Refused(server) => sending.0 == server && sending.1 is None,
            },
    {
        match attached {
            PipeAttached::Connected(server) => (server, Some(to_send.encode())),
            PipeAttached::Refused(server) => (server, None),
        }
    }

    /// The value received, given what a read has appended to the receive buffer.
    pub fn finish_recv(&self, buf: &[u8], read: Poll<usize>) -> (value: Poll<T>)
        requires
            read matches Ok(Async::Ready(n)) ==> n <= buf@.len() && T::decoding(
                last_bytes(buf@, n as nat),
            ) is Some,
        ensures
            match read {
                Ok(Async::Ready(n)) => value matches Ok(Async::Ready(v)) && T::decoding(
                    last_bytes(buf@, n as nat),
                ) == Some(v@),
                Ok(Async::NotReady) => value matches Ok(Async::NotReady),
                Err(e) => value matches Err(f) && f == e,
            },
    {
        received_once_ready(message_at_end(buf, read))
    }
}

impl<T> NamedPipeClient<T> {
    /// Whether this starts to open the pipe of that full name.
    pub open spec fn opening(
        step: Step<OpenPipeClient<T>, Result<NamedPipeClient<T>, IpcError>>,
        full: Seq<u16>,
    ) -> bool {
        step matches Step::Call(OpenPipeClient::Wait { name, timeout, _phantom }) && name@ == full
            && timeout == WAIT_FOREVER
    }

    /// Waits for the pipe of that name, without end, and opens it.
    pub fn new(name: &[u16]) -> (step: Step<
        OpenPipeClient<T>,
        Result<NamedPipeClient<T>, IpcError>,
    >)
        ensures
            Self::opening(step, full_name(name@)),
    {
        Step::Call(
            OpenPipeClient::Wait {
                name: pipe_name(name),
                timeout: WAIT_FOREVER,
                _phantom: PhantomData,
            },
        )
    }

    /// Opens the same pipe once more, by its full name, which has to be a text.
    pub fn reopen(&self) -> (step: Step<OpenPipeClient<T>, Result<NamedPipeClient<T>, IpcError>>)
        requires
            is_utf16(self.np_name@),
        ensures
            Self::opening(step, self.np_name@),
    {
        let name = self.np_name.clone();
        assert(name@ =~= self.np_name@);
        Step::Call(
            OpenPipeClient::Wait { name, timeout: WAIT_FOREVER, _phantom: PhantomData },
        )
    }

    /// Writes to the pipe.
    pub fn write<'a>(&self, buf: &'a [u8]) -> (step: Step<PipeWrite<'a>, Result<usize, IpcError>>)
        ensures
            step == Step::<PipeWrite<'a>, Result<usize, IpcError>>::Call(
                PipeWrite { handle: self.handle, buf, len: buf.len() as u32, overlapped: true },
            ),
    {
        Step::Call(
            PipeWrite { handle: self.handle, buf, len: buf.len() as u32, overlapped: true },
        )
    }

    /// Writes to the pipe without waiting. `has_remaining` says whether there is anything to write,
    /// `started` whether the write has been started before.
    pub fn write_buf<'a>(&self, has_remaining: bool, started: bool, buf: &'a [u8]) -> (step: Step<
        PipeWriteBuf<'a>,
        Poll<usize>,
    >)
        ensures
            step == writing(self.handle, has_remaining, started, buf),
    {
        start_write_buf(self.handle, has_remaining, started, buf)
    }

    /// Does nothing: what is written is on its way.
    pub fn flush(&self) -> (result: Result<(), IpcError>)
        ensures
            result == Ok::<(), IpcError>(()),
    {
        Ok(())
    }

    /// Reads from the pipe, into a buffer of `room` bytes.
    pub fn read(&self, room: usize) -> (step: Step<PipeRead, Result<usize, IpcError>>)
        ensures
            step == Step::<PipeRead, Result<usize, IpcError>>::Call(
                PipeRead { handle: self.handle, len: room as u32, overlapped: true },
            ),
    {
        Step::Call(PipeRead { handle: self.handle, len: room as u32, overlapped: true })
    }

    /// Reads a message, into a buffer of [`MESSAGE_ROOM`] bytes; waits until there is one.
    pub fn recv(&self) -> (step: Step<PipeRead, Result<usize, IpcError>>)
        ensures
            step == Step::<PipeRead, Result<usize, IpcError>>::Call(
                PipeRead { handle: self.handle, len: MESSAGE_ROOM as u32, overlapped: false },
            ),
    {
        Step::Call(
            PipeRead { handle: self.handle, len: MESSAGE_ROOM as u32, overlapped: false },
        )
    }

    /// Lets go of the pipe.
    pub fn shutdown(&self) -> (step: Step<PipeShutdown, Poll<()>>)
        ensures
            step == Step::<PipeShutdown, Poll<()>>::Call(
                PipeShutdown::Disconnect { handle: self.handle },
            ),
    {
        Step::Call(PipeShutdown::Disconnect { handle: self.handle })
    }

    /// Closes the handle, whether or not the system agrees.
    pub fn release(&self) -> (step: Step<PipeRelease, ()>)
        ensures
            step == Step::<PipeRelease, ()>::Call(PipeRelease::Close { handle: self.handle }),
    {
        Step::Call(PipeRelease::Close { handle: self.handle })
    }
}

impl<T: Message> NamedPipeClient<T> {
    /// The bytes to write to the pipe in order to send a value.
    pub fn async_send(&self, to_send: &T) -> (buf: Vec<u8>)
        ensures
            buf@ == T::encoding(to_send@),
    {
        to_send.encode()
    }

    /// The value that [`NamedPipeClient::recv`] has read to the front of its buffer.
    pub fn finish_recv(&self, buf: &[u8], read: Result<usize, IpcError>) -> (value: Result<
        T,
        IpcError,
    >)
        requires
            read matches Ok(n) ==> n <= buf@.len() && T::decoding(buf@.take(n as int)) is Some,
        ensures
            match read {
                Ok(n) => value matches Ok(v) && T::decoding(buf@.take(n as int)) == Some(v@),
                Err(e) => value matches Err(f) && f == e,
            },
    {
        match read {
            Ok(n) => {
                let message = vstd::slice::slice_subrange(buf, 0, n);
                assert(message@ =~= buf@.take(n as int));
                Ok(received(message))
            },
            Err(e) => Err(e),
        }
    }

    /// The value received, given what a read has appended to the receive buffer.
    pub fn async_recv(&self, buf: &[u8], read: Poll<usize>) -> (value: Poll<T>)
        requires
            read matches Ok(Async::Ready(n)) ==> n <= buf@.len() && T::decoding(
                last_bytes(buf@, n as nat),
            ) is Some,
        ensures
            match read {
                Ok(Async::Ready(n)) => value matches Ok(Async::Ready(v)) && T::decoding(
                    last_bytes(buf@, n as nat),
                ) == Some(v@),
                Ok(Async::NotReady) => value matches Ok(Async::NotReady),
                Err(e) => value matches Err(f) && f == e,
            },
    {
        received_once_ready(message_at_end(buf, read))
    }
}

/// Opening a server succeeds exactly where the pipe is made and a client is there or is being waited
/// for. The server has yet to wait for its client. The first call that fails gives its error code.
pub proof fn open_pipe_server_outcome<T>(
    call: OpenPipeServer<T>,
    made: PipeReply,
    connected: PipeReply,
)
    requires
        call is Create,
    ensures
        match run(Step::Call(call), seq![made, connected]) {
            Step::Call(call) => false,
            Step::Done(Ok(server)) => {
                &&& made.handle != INVALID_HANDLE
                &&& connected.ret != 0 || connected.errno == ERROR_IO_PENDING
                &&& server.handle == made.handle
                &&& server.connecting
            },
            Step::Done(Err(e)) => if made.handle == INVALID_HANDLE {
                e == IpcError::Os(made.errno)
            } else {
                connected.ret == 0 && connected.errno != ERROR_IO_PENDING && e == IpcError::Os(
                    connected.errno,
                )
            },
        },
{
    reveal_with_fuel(run, 3);
    assert(seq![made, connected].drop_first() =~= seq![connected]);
}

/// A client waits for as long as there is no pipe of its name, however often the system says so.
pub proof fn client_waits_for_the_pipe<T>(name: Vec<u16>, timeout: u32, missing: Seq<PipeReply>)
    requires
        forall|i: int| 0 <= i < missing.len() ==> no_such_pipe(#[trigger] missing[i]),
    ensures
        run(
            Step::Call(OpenPipeClient::<T>::Wait { name, timeout, _phantom: PhantomData }),
            missing,
        ) == Step::<OpenPipeClient<T>, Result<NamedPipeClient<T>, IpcError>>::Call(
            OpenPipeClient::Wait { name, timeout, _phantom: PhantomData },
        ),
    decreases missing.len(),
{
    if missing.len() > 0 {
        assert(no_such_pipe(missing[0]));
        assert forall|i: int| 0 <= i < missing.drop_first().len() implies no_such_pipe(
            #[trigger] missing.drop_first()[i],
        ) by {
            assert(no_such_pipe(missing[i + 1]));
        }
        client_waits_for_the_pipe::<T>(name, timeout, missing.drop_first());
    }
}

/// Opening a client succeeds exactly where the wait for the pipe ends, however long there was none,
/// and waiting, opening and setting how to read all succeed. The client then has the name it was
/// opened by and the handle that was opened. The first call that fails for any other reason than
/// that there is no pipe to wait for gives its error code.
pub proof fn open_pipe_client_outcome<T>(
    name: Vec<u16>,
    timeout: u32,
    missing: Seq<PipeReply>,
    waited: PipeReply,
    opened: PipeReply,
    set: PipeReply,
)
    requires
        forall|i: int| 0 <= i < missing.len() ==> no_such_pipe(#[trigger] missing[i]),
        !no_such_pipe(waited),
    ensures
        run(
            Step::Call(OpenPipeClient::<T>::Wait { name, timeout, _phantom: PhantomData }),
            missing + seq![waited, opened, set],
        ) == Step::<OpenPipeClient<T>, Result<NamedPipeClient<T>, IpcError>>::Done(
            if waited.ret == 0 {
                Err(IpcError::Os(waited.errno))
            } else if opened.handle == INVALID_HANDLE {
                Err(IpcError::Os(opened.errno))
            } else if set.ret == 0 {
                Err(IpcError::Os(set.errno))
            } else {
                Ok(
                    NamedPipeClient {
                        np_name: name,
                        handle: opened.handle,
                        _phantom: PhantomData,
                    },
                )
            },
        ),
{
    let wait = Step::Call(OpenPipeClient::<T>::Wait { name, timeout, _phantom: PhantomData });
    client_waits_for_the_pipe::<T>(name, timeout, missing);
    run_in_two_parts(wait, missing, seq![waited, opened, set]);
    reveal_with_fuel(run, 4);
    assert(seq![waited, opened, set].drop_first() =~= seq![opened, set]);
    assert(seq![opened, set].drop_first() =~= seq![set]);
}

/// Two names stand for the same pipe only where they are equal.
pub proof fn pipe_names_differ(a: Seq<u16>, b: Seq<u16>)
    requires
        full_name(a) == full_name(b),
    ensures
        a == b,
{
    let p = full_name(a);
    assert(p.subrange(9, p.len() - 1) =~= a);
    assert(p.subrange(9, p.len() - 1) =~= b);
}

/// The zero that ends a full name is its only one, unless the name itself holds one.
pub proof fn full_name_ends_once(name: Seq<u16>)
    requires
        !name.contains(0),
    ensures
        full_name(name).last() == 0,
        !full_name(name).drop_last().contains(0),
{
    let front = full_name(name).drop_last();
    if front.contains(0) {
        let i = choose|i: int| 0 <= i < front.len() && front[i] == 0;
        if i >= 9 {
            assert(name[i - 9] == 0);
        }
    }
}

/// A server waits for its client once: after it has got one, what it does waits for no other.
pub proof fn pipe_client_is_kept<T>(server: NamedPipeServer<T>, wait: bool, reply: PipeReply)
    requires
        reply.ret != 0,
    ensures
        (AwaitClient { server, wait }).after(reply) matches Step::Done(PipeAttached::Connected(connected))
            && connected.handle == server.handle && connected.attaching() == Step::<
            AwaitClient<T>,
            PipeAttached<T>,
        >::Done(PipeAttached::Connected(connected)),
{
}

/// A server that got no client is as it was, and the next thing it does waits for one again.
pub proof fn refused_pipe_server_waits_again<T>(
    server: NamedPipeServer<T>,
    wait: bool,
    reply: PipeReply,
)
    requires
        server.connecting,
        reply.ret == 0,
    ensures
        (AwaitClient { server, wait }).after(reply) == Step::<AwaitClient<T>, PipeAttached<T>>::Done(
            PipeAttached::Refused(server),
        ),
        server.attaching() == Step::<AwaitClient<T>, PipeAttached<T>>::Call(
            AwaitClient { server, wait: true },
        ),
{
}

/// A write without waiting is over after one call, whichever call it starts with: it is not ready
/// only where the system says that the write is not complete, and a write that the system has only
/// started is no error.
pub proof fn write_buf_outcome<'a>(
    handle: usize,
    has_remaining: bool,
    started: bool,
    buf: &'a [u8],
    reply: PipeReply,
)
    ensures
        run(writing(handle, has_remaining, started, buf), seq![reply]) == Step::<
            PipeWriteBuf<'a>,
            Poll<usize>,
        >::Done(
            if !has_remaining {
                Ok(Async::Ready(0))
            } else if reply.ret != 0 {
                Ok(Async::Ready(reply.n_bytes as usize))
            } else if !started && reply.errno == ERROR_IO_PENDING {
                Ok(Async::Ready(reply.n_bytes as usize))
            } else if started && reply.errno == ERROR_IO_INCOMPLETE {
                Ok(Async::NotReady)
            } else {
                Err(IpcError::Os(reply.errno))
            },
        ),
{
    reveal_with_fuel(run, 2);
}

/// Letting go of a pipe stops at the first call that fails, with its error code; the handle is
/// closed only once the client is disconnected.
pub proof fn pipe_shutdown_outcome(handle: usize, disconnected: PipeReply, closed: PipeReply)
    ensures
        run(Step::Call(PipeShutdown::Disconnect { handle }), seq![disconnected, closed]) == Step::<
            PipeShutdown,
            Poll<()>,
        >::Done(
            if disconnected.ret == 0 {
                Err(IpcError::Os(disconnected.errno))
            } else if closed.ret == 0 {
                Err(IpcError::Os(closed.errno))
            } else {
                Ok(Async::Ready(()))
            },
        ),
{
    reveal_with_fuel(run, 3);
    assert(seq![disconnected, closed].drop_first() =~= seq![closed]);
}

/// A server that is dropped always closes its handle, whatever disconnecting came to.
pub proof fn pipe_release_always_closes(handle: usize, disconnected: PipeReply)
    ensures
        (PipeRelease::Disconnect { handle }).after(disconnected) == Step::<PipeRelease, ()>::Call(
            PipeRelease::Close { handle },
        ),
{
}

/// Whether a pipe that holds `before` in one direction, the oldest message first, takes what `write`
/// hands to it as one message, leaves `taken` behind and then holds `after`.
pub open spec fn pipe_takes<'a>(
    before: Seq<Seq<u8>>,
    write: PipeWrite<'a>,
    taken: PipeReply,
    after: Seq<Seq<u8>>,
) -> bool {
    &&& write.len == write.buf@.len()
    &&& taken.ret != 0 && taken.n_bytes == write.len
    &&& after == before.push(write.buf@)
}

/// Whether a pipe that holds `before` in one direction gives its oldest message to `read`, which has
/// room for it, as `data`, leaves `given` behind and then holds `after`.
pub open spec fn pipe_gives(
    before: Seq<Seq<u8>>,
    read: PipeRead,
    given: PipeReply,
    data: Seq<u8>,
    after: Seq<Seq<u8>>,
) -> bool {
    &&& before.len() > 0
    &&& data == before[0] && data.len() <= read.len
    &&& given.ret != 0 && given.n_bytes == data.len()
    &&& after == before.drop_first()
}

/// The messages that stand for values.
pub open spec fn messages_of<T: Message>(values: Seq<T::V>) -> Seq<Seq<u8>> {
    values.map_values(|value: T::V| T::encoding(value))
}

/// Whether a receiver that was given `data` by `read` gets `value`. [`NamedPipeClient::recv`] reads
/// the message to the front of its buffer, every other receiver appends it to its own; either way
/// the bytes that the read reports decode to the value.
pub open spec fn gets<T: Message>(
    read: PipeRead,
    given: PipeReply,
    data: Seq<u8>,
    value: T::V,
) -> bool {
    &&& read.after(given) == Step::<PipeRead, Result<usize, IpcError>>::Done(
        Ok(data.len() as usize),
    )
    &&& forall|unused: Seq<u8>|
        T::decoding((#[trigger] (data + unused)).take(data.len() as int)) == Some(value)
    &&& T::decoding(last_bytes(zeros(MESSAGE_ROOM as nat) + data, data.len())) == Some(value)
}

/// A value that is sent goes behind those that are on their way.
pub proof fn value_goes_behind_the_others<'a, T: Message>(
    values: Seq<T::V>,
    value: T::V,
    before: Seq<Seq<u8>>,
    write: PipeWrite<'a>,
    taken: PipeReply,
    after: Seq<Seq<u8>>,
)
    requires
        before == messages_of::<T>(values),
        write.buf@ == T::encoding(value),
        pipe_takes(before, write, taken, after),
    ensures
        write.after(taken) == Step::<PipeWrite<'a>, Result<usize, IpcError>>::Done(
            Ok(write.buf.len()),
        ),
        after == messages_of::<T>(values.push(value)),
{
    assert(after =~= messages_of::<T>(values.push(value)));
}

/// What is received is the oldest of the values that are on their way, and the others stay in their
/// order.
pub proof fn oldest_value_is_received<T: Message>(
    values: Seq<T::V>,
    before: Seq<Seq<u8>>,
    read: PipeRead,
    given: PipeReply,
    data: Seq<u8>,
    after: Seq<Seq<u8>>,
)
    requires
        values.len() > 0,
        T::representable(values[0]),
        before == messages_of::<T>(values),
        pipe_gives(before, read, given, data, after),
    ensures
        gets::<T>(read, given, data, values[0]),
        after == messages_of::<T>(values.drop_first()),
{
    assert(data == T::encoding(values[0]));
    assert(after =~= messages_of::<T>(values.drop_first()));
    decoding_of_whole_encoding::<T>(values[0]);
    assert forall|unused: Seq<u8>|
        T::decoding((#[trigger] (data + unused)).take(data.len() as int)) == Some(values[0]) by {
        assert((data + unused).take(data.len() as int) =~= data);
    }
    crate::buffer::appended_is_at_end(zeros(MESSAGE_ROOM as nat), data);
}

/// A value that one end of a pipe sends while nothing else is on its way is what the other end
/// receives.
pub proof fn sent_is_received<'a, T: Message>(
    value: T::V,
    write: PipeWrite<'a>,
    taken: PipeReply,
    between: Seq<Seq<u8>>,
    read: PipeRead,
    given: PipeReply,
    data: Seq<u8>,
    after: Seq<Seq<u8>>,
)
    requires
        T::representable(value),
        write.buf@ == T::encoding(value),
        pipe_takes(Seq::empty(), write, taken, between),
        pipe_gives(between, read, given, data, after),
    ensures
        write.after(taken) == Step::<PipeWrite<'a>, Result<usize, IpcError>>::Done(
            Ok(write.buf.len()),
        ),
        gets::<T>(read, given, data, value),
        after == Seq::<Seq<u8>>::empty(),
{
    let none = Seq::<T::V>::empty();
    assert(messages_of::<T>(none) =~= Seq::<Seq<u8>>::empty());
    value_goes_behind_the_others::<T>(none, value, Seq::empty(), write, taken, between);
    oldest_value_is_received::<T>(none.push(value), between, read, given, data, after);
    assert(after =~= Seq::<Seq<u8>>::empty());
}

/// One message being received from a pipe: the call, what it left behind, and the message.
pub struct PipeReading {
    /// The call.
    pub read: PipeRead,
    /// What it left behind.
    pub given: PipeReply,
    /// The message.
    pub data: Seq<u8>,
}

/// Values are received in the order in which they were sent: of a pipe that holds the messages of
/// `values`, the reads one after the other give one value each, from the first on, and the values
/// that are not read yet stay. `states` is what the pipe holds before each read and after the last.
pub proof fn values_are_received_in_order<T: Message>(
    values: Seq<T::V>,
    readings: Seq<PipeReading>,
    states: Seq<Seq<Seq<u8>>>,
)
    requires
        forall|i: int| 0 <= i < values.len() ==> T::representable(#[trigger] values[i]),
        readings.len() <= values.len(),
        states.len() == readings.len() + 1,
        states[0] == messages_of::<T>(values),
        forall|i: int|
            #![trigger readings[i]]
            0 <= i < readings.len() ==> pipe_gives(
                states[i],
                readings[i].read,
                readings[i].given,
                readings[i].data,
                states[i + 1],
            ),
    ensures
        forall|i: int|
            #![trigger readings[i]]
            0 <= i < readings.len() ==> gets::<T>(
                readings[i].read,
                readings[i].given,
                readings[i].data,
                values[i],
            ),
        states.last() == messages_of::<T>(values.skip(readings.len() as int)),
    decreases readings.len(),
{
    if readings.len() == 0 {
        assert(values.skip(0) =~= values);
    } else {
        let n = readings.len() - 1;
        let earlier = readings.drop_last();
        let r = readings[n];
        assert forall|i: int|
            #![trigger earlier[i]]
            0 <= i < earlier.len() implies pipe_gives(
            states.drop_last()[i],
            earlier[i].read,
            earlier[i].given,
            earlier[i].data,
            states.drop_last()[i + 1],
        ) by {
            assert(earlier[i] == readings[i]);
        }
        values_are_received_in_order::<T>(values, earlier, states.drop_last());
        let rest = values.skip(n);
        oldest_value_is_received::<T>(rest, states[n], r.read, r.given, r.data, states[n + 1]);
        assert(rest.drop_first() =~= values.skip(n + 1));
        assert forall|i: int|
            #![trigger readings[i]]
            0 <= i < readings.len() implies gets::<T>(
            readings[i].read,
            readings[i].given,
            readings[i].data,
            values[i],
        ) by {
            if i < n {
                assert(earlier[i] == readings[i]);
            }
        }
    }
}

/// The full name of a pipe is the root of all names, the name, and one zero, with nothing left out
/// or added.
pub proof fn full_name_layout(name: Seq<u16>)
    ensures
        full_name(name).len() == name.len() + 10,
        full_name(name).take(9) == seq![0x5cu16, 0x5c, 0x2e, 0x5c, 0x70, 0x69, 0x70, 0x65, 0x5c],
        full_name(name).subrange(9, 9 + name.len() as int) == name,
        full_name(name).last() == 0,
{
    assert(full_name(name).take(9) =~= pipe_root());
    assert(full_name(name).subrange(9, 9 + name.len() as int) =~= name);
}

/// Whether a code unit is the first half of a pair.
pub open spec fn is_first_half(unit: u16) -> bool {
    0xd800 <= unit < 0xdc00
}

/// Whether a code unit is the second half of a pair.
pub open spec fn is_second_half(unit: u16) -> bool {
    0xdc00 <= unit < 0xe000
}

/// Whether the unit at place `i` is no half, or stands next to its other half.
pub open spec fn is_paired(units: Seq<u16>, i: int) -> bool {
    &&& is_first_half(units[i]) ==> i + 1 < units.len() && is_second_half(units[i + 1])
    &&& is_second_half(units[i]) ==> i > 0 && is_first_half(units[i - 1])
}

/// Code units are a text exactly where every first half comes right before a second half and every
/// second half right behind a first half.
pub proof fn text_has_no_lone_halves(units: Seq<u16>)
    ensures
        is_utf16(units) <==> (forall|i: int| 0 <= i < units.len() ==> #[trigger] is_paired(units, i)),
    decreases units.len(),
{
    if units.len() > 0 {
        let n: int = if is_first_half(units[0]) {
            2
        } else {
            1
        };
        if units.len() < n {
            assert(!is_paired(units, 0));
        } else {
            let rest = units.skip(n);
            text_has_no_lone_halves(rest);
            if is_utf16(units) {
                assert forall|i: int| 0 <= i < units.len() implies #[trigger] is_paired(
                    units,
                    i,
                ) by {
                    if i >= n {
                        assert(is_paired(rest, i - n));
                    }
                }
            }
            if forall|i: int| 0 <= i < units.len() ==> #[trigger] is_paired(units, i) {
                assert(is_paired(units, 0));
                assert(n < units.len() ==> is_paired(units, n));
                assert forall|i: int| 0 <= i < rest.len() implies #[trigger] is_paired(rest, i) by {
                    assert(is_paired(units, i + n));
                }
            }
        }
    }
}

/// A server waits for a client on the pipe that was made, without blocking; it is given exactly where
/// the pipe was made and a client is there or is being waited for.
pub proof fn server_waits_on_the_pipe_it_made<T>(
    call: OpenPipeServer<T>,
    handle: usize,
    overlapped: bool,
    reply: PipeReply,
)
    requires
        call is Create,
    ensures
        match call.after(reply) {
            Step::Call(OpenPipeServer::Connect { handle: h, overlapped: o, _phantom }) => reply.handle
                != usize::MAX && h == reply.handle && o,
            Step::Call(_) => false,
            Step::Done(Ok(server)) => false,
            Step::Done(Err(e)) => reply.handle == usize::MAX && e == IpcError::Os(reply.errno),
        },
        match (OpenPipeServer::<T>::Connect { handle, overlapped, _phantom: PhantomData }).after(
            reply,
        ) {
            Step::Call(_) => false,
            Step::Done(Ok(server)) => {
                &&& reply.ret != 0 || reply.errno == 997
                &&& server.handle == handle
                &&& server.connecting
            },
            Step::Done(Err(e)) => reply.ret == 0 && reply.errno != 997 && e == IpcError::Os(
                reply.errno,
            ),
        },
        call.answered_by(reply),
        (OpenPipeServer::<T>::Connect { handle, overlapped, _phantom: PhantomData }).answered_by(
            reply,
        ),
{
}

/// A client that starts to open waits, without a limit, for the pipe of that full name.
pub proof fn opening_waits_for_the_name<T>(
    step: Step<OpenPipeClient<T>, Result<NamedPipeClient<T>, IpcError>>,
    full: Seq<u16>,
)
    requires
        NamedPipeClient::<T>::opening(step, full),
    ensures
        step matches Step::Call(OpenPipeClient::Wait { name, timeout, _phantom }) && name@ == full
            && timeout == 0xffff_ffff,
{
}

/// Whatever the name: the pipe that was waited for is opened by that name, for reading, for writing
/// and for setting its attributes, as a pipe that exists and that others may read; and the handle
/// that was opened is then read message by message. The client has that name and that handle.
/// Waiting for a pipe that does not exist is done again, for the same pipe and with the same limit.
pub proof fn client_opens_what_it_waited_for<T>(
    name: Vec<u16>,
    timeout: u32,
    access: u32,
    share: u32,
    disposition: u32,
    attributes: u32,
    handle: usize,
    mode: u32,
    reply: PipeReply,
)
    ensures
        match (OpenPipeClient::<T>::Wait { name, timeout, _phantom: PhantomData }).after(reply) {
            Step::Call(OpenPipeClient::Create {
                name: n,
                access,
                share,
                disposition,
                attributes,
                _phantom,
            }) => {
                &&& reply.ret != 0
                &&& n == name
                &&& access == 0x8000_0000 + 0x4000_0000 + 0x100
                &&& share == 1
                &&& disposition == 3
                &&& attributes == 0
            },
            Step::Call(OpenPipeClient::Wait { name: n, timeout: t, _phantom }) => reply.ret == 0
                && reply.errno == 2 && n == name && t == timeout,
            Step::Call(_) => false,
            Step::Done(Ok(client)) => false,
            Step::Done(Err(e)) => reply.ret == 0 && reply.errno != 2 && e == IpcError::Os(
                reply.errno,
            ),
        },
        match (OpenPipeClient::<T>::Create {
            name,
            access,
            share,
            disposition,
            attributes,
            _phantom: PhantomData,
        }).after(reply) {
            Step::Call(OpenPipeClient::SetMode { name: n, handle: h, mode, _phantom }) => {
                &&& reply.handle != usize::MAX
                &&& n == name
                &&& h == reply.handle
                &&& mode == 2
            },
            Step::Call(_) => false,
            Step::Done(Ok(client)) => false,
            Step::Done(Err(e)) => reply.handle == usize::MAX && e == IpcError::Os(reply.errno),
        },
        match (OpenPipeClient::<T>::SetMode { name, handle, mode, _phantom: PhantomData }).after(
            reply,
        ) {
            Step::Call(_) => false,
            Step::Done(Ok(client)) => reply.ret != 0 && client.np_name == name && client.handle
                == handle,
            Step::Done(Err(e)) => reply.ret == 0 && e == IpcError::Os(reply.errno),
        },
        (OpenPipeClient::<T>::Wait { name, timeout, _phantom: PhantomData }).answered_by(reply),
        (OpenPipeClient::<T>::Create {
            name,
            access,
            share,
            disposition,
            attributes,
            _phantom: PhantomData,
        }).answered_by(reply),
        (OpenPipeClient::<T>::SetMode { name, handle, mode, _phantom: PhantomData }).answered_by(
            reply,
        ),
{
}

/// A server waits for its client exactly where it has not done so yet, and until there is one. Its
/// pipe stays the same; it stops waiting exactly where the wait succeeded.
pub proof fn pipe_server_waits_only_once<T>(server: NamedPipeServer<T>, wait: bool, reply: PipeReply)
    ensures
        match server.attaching() {
            Step::Call(call) => server.connecting && call.server == server && call.wait,
            Step::Done(PipeAttached::Connected(s)) => !server.connecting && s == server,
            Step::Done(PipeAttached::Refused(s)) => false,
        },
        match (AwaitClient { server, wait }).after(reply) {
            Step::Call(call) => false,
            Step::Done(PipeAttached::Connected(s)) => reply.ret != 0 && !s.connecting && s.handle
                == server.handle,
            Step::Done(PipeAttached::Refused(s)) => reply.ret == 0 && s == server,
        },
        (AwaitClient { server, wait }).answered_by(reply),
{
}

/// A write and a read are over after their call, and report the bytes that the call says it moved.
/// A read fails exactly where the call failed; so does a write, but for one that is under way.
pub proof fn moved_bytes_are_reported<'a>(write: PipeWrite<'a>, read: PipeRead, reply: PipeReply)
    ensures
        match write.after(reply) {
            Step::Call(_) => false,
            Step::Done(Ok(n)) => (reply.ret != 0 || reply.errno == 997) && n == reply.n_bytes,
            Step::Done(Err(e)) => reply.ret == 0 && reply.errno != 997 && e == IpcError::Os(
                reply.errno,
            ),
        },
        match read.after(reply) {
            Step::Call(_) => false,
            Step::Done(Ok(n)) => reply.ret != 0 && n == reply.n_bytes,
            Step::Done(Err(e)) => reply.ret == 0 && e == IpcError::Os(reply.errno),
        },
        write.answered_by(reply),
        read.answered_by(reply),
{
}

/// A write without waiting writes all of the buffer to the pipe, once: a write that was started
/// before is asked about instead, on the same pipe and without waiting for its end. Where there is
/// nothing to write no call is made.
pub proof fn write_is_started_once<'a>(
    handle: usize,
    has_remaining: bool,
    started: bool,
    buf: &'a [u8],
)
    ensures
        match writing(handle, has_remaining, started, buf) {
            Step::Call(PipeWriteBuf::Write(write)) => {
                &&& has_remaining && !started
                &&& write.handle == handle
                &&& write.buf == buf
                &&& buf@.len() <= u32::MAX ==> write.len == buf@.len()
                &&& write.overlapped
            },
            Step::Call(PipeWriteBuf::GetResult { handle: h, wait }) => has_remaining && started && h
                == handle && !wait,
            Step::Done(written) => !has_remaining && written == Ok::<_, IpcError>(
                Async::Ready(0usize),
            ),
        },
{
}

/// What a write without waiting comes to, whichever call it makes: no other call follows. A write
/// comes to what it would come to with waiting; a write that was asked about is not ready exactly
/// where the system says that it is not complete.
pub proof fn write_without_waiting_ends<'a>(
    write: PipeWrite<'a>,
    handle: usize,
    wait: bool,
    reply: PipeReply,
)
    ensures
        match PipeWriteBuf::Write(write).after(reply) {
            Step::Call(_) => false,
            Step::Done(Ok(Async::Ready(n))) => write.after(reply) == Step::<
                PipeWrite<'a>,
                Result<usize, IpcError>,
            >::Done(Ok(n)),
            Step::Done(Ok(Async::NotReady)) => false,
            Step::Done(Err(e)) => write.after(reply) == Step::<
                PipeWrite<'a>,
                Result<usize, IpcError>,
            >::Done(Err(e)),
        },
        match (PipeWriteBuf::GetResult { handle, wait }).after(reply) {
            Step::Call(_) => false,
            Step::Done(Ok(Async::Ready(n))) => reply.ret != 0 && n == reply.n_bytes,
            Step::Done(Ok(Async::NotReady)) => reply.ret == 0 && reply.errno == 996,
            Step::Done(Err(e)) => reply.ret == 0 && reply.errno != 996 && e == IpcError::Os(
                reply.errno,
            ),
        },
        PipeWriteBuf::Write(write).answered_by(reply),
        (PipeWriteBuf::GetResult { handle, wait }).answered_by(reply),
{
}

/// The handle that is closed is the one that was disconnected. Letting go closes it exactly where
/// disconnecting succeeded; dropping closes it whatever disconnecting came to, and is then over.
pub proof fn the_disconnected_handle_is_closed(handle: usize, reply: PipeReply)
    ensures
        match (PipeShutdown::Disconnect { handle }).after(reply) {
            Step::Call(PipeShutdown::Close { handle: h }) => reply.ret != 0 && h == handle,
            Step::Call(_) => false,
            Step::Done(Ok(ended)) => false,
            Step::Done(Err(e)) => reply.ret == 0 && e == IpcError::Os(reply.errno),
        },
        match (PipeShutdown::Close { handle }).after(reply) {
            Step::Call(_) => false,
            Step::Done(Ok(ended)) => reply.ret != 0 && ended is Ready,
            Step::Done(Err(e)) => reply.ret == 0 && e == IpcError::Os(reply.errno),
        },
        (PipeRelease::Disconnect { handle }).after(reply) matches Step::Call(
            PipeRelease::Close { handle: h },
        ) && h == handle,
        (PipeRelease::Close { handle }).after(reply) is Done,
        (PipeShutdown::Disconnect { handle }).answered_by(reply),
        (PipeShutdown::Close { handle }).answered_by(reply),
        (PipeRelease::Disconnect { handle }).answered_by(reply),
        (PipeRelease::Close { handle }).answered_by(reply),
{
}

} // verus!

use std::cell::RefCell;
use std::collections::VecDeque;
use std::io::{Error, ErrorKind, Read, Result, Write};
use std::marker::PhantomData;

use futures::Future;
use ipc::address::{unix_stream, SocketAddress, SocketDomain, SocketKind, SocketOptions};
use ipc::buffer::{put_at_front, zeroed};
use ipc::frame::{size_of_word, Frame, FrameRead, FrameWrite, ReadReply, WriteReply};
use ipc::operation::{Async, IpcError, Operation, Poll, Reply, Step};
use ipc::unix_sock_stream::{
    refused, Attached, Direction, Disconnect, OpenClient, OpenServer, Receive, RecvReply, UnixSockStreamClient,
    UnixSockStreamServer, POLLIN,
};
use ipc::wire::{encode_word, ByteOrder};
use tokio_io::{AsyncRead, AsyncWrite};

const ORDER: ByteOrder = ByteOrder::Little;
const LISTENER: i32 = 3;
const CLIENT: i32 = 4;
const ACCEPTED: i32 = 5;
const ECONNREFUSED: i32 = 111;

fn ok(ret: i32) -> Reply {
    Reply { ret, errno: 0 }
}

fn failed(errno: i32) -> Reply {
    Reply { ret: -1, errno }
}

fn to_io(error: IpcError) -> Error {
    match error {
        IpcError::Os(code) => Error::from_raw_os_error(code),
        IpcError::InvalidInput => Error::from(ErrorKind::InvalidInput),
        IpcError::InvalidData => Error::from(ErrorKind::InvalidData),
    }
}

fn from_io(error: Error) -> IpcError {
    match (error.raw_os_error(), error.kind()) {
        (Some(code), _) => IpcError::Os(code),
        (None, ErrorKind::InvalidInput) => IpcError::InvalidInput,
        (None, _) => IpcError::InvalidData,
    }
}

/// One address with one listener, and one connection.
struct System {
    bound: RefCell<Option<SocketAddress>>,
    to_server: RefCell<VecDeque<u8>>,
    to_client: RefCell<VecDeque<u8>>,
}

impl System {
    fn new() -> System {
        System {
            bound: RefCell::new(None),
            to_server: RefCell::new(VecDeque::new()),
            to_client: RefCell::new(VecDeque::new()),
        }
    }

    fn same(&self, address: &SocketAddress) -> bool {
        match &*self.bound.borrow() {
            Some(a) => a.sun_family == address.sun_family && a.sun_path[..] == address.sun_path[..] && a.len == address.len,
            None => false,
        }
    }

    fn incoming(&self, socket: i32) -> &RefCell<VecDeque<u8>> {
        match socket {
            CLIENT => &self.to_client,
            ACCEPTED => &self.to_server,
            _ => panic!(),
        }
    }

    fn outgoing(&self, socket: i32) -> &RefCell<VecDeque<u8>> {
        match socket {
            CLIENT => &self.to_server,
            ACCEPTED => &self.to_client,
            _ => panic!(),
        }
    }

    fn write(&self, socket: i32, bytes: &[u8]) -> WriteReply {
        self.outgoing(socket).borrow_mut().extend(bytes);
        WriteReply { ret: bytes.len() as isize, errno: 0 }
    }

    fn read(&self, socket: i32, size: usize) -> ReadReply {
        let mut data = vec![0; size];
        let mut stream = self.incoming(socket).borrow_mut();
        let n = size.min(stream.len());
        for (to, from) in data.iter_mut().zip(stream.drain(..n)) {
            *to = from;
        }
        ReadReply { ret: n as isize, errno: 0, data }
    }

    fn poll(&self, socket: i32) -> RecvReply {
        let some = !self.incoming(socket).borrow().is_empty();
        RecvReply::Polled { ret: some as i32, revents: if some { POLLIN } else { 0 }, errno: 0 }
    }
}

fn open_server(system: &System, name: &str) -> UnixSockStreamServer<i32> {
    let mut step = UnixSockStreamServer::<i32>::new(name);
    loop {
        match step {
            Step::Done(opened) => return opened.unwrap(),
            Step::Call(call) => {
                let reply = match &call {
                    OpenServer::Socket { options, .. } => {
                        assert_eq!(*options, unix_stream());
                        ok(LISTENER)
                    }
                    OpenServer::Bind { socket, address, .. } => {
                        assert_eq!(*socket, LISTENER);
                        *system.bound.borrow_mut() = Some(*address);
                        ok(0)
                    }
                    OpenServer::Listen { socket, backlog, .. } => {
                        assert_eq!((*socket, *backlog), (LISTENER, 1));
                        ok(0)
                    }
                };
                step = call.resume(reply);
            }
        }
    }
}

fn open_client(system: &System, name: &str) -> std::result::Result<UnixSockStreamClient<i32>, IpcError> {
    let mut step = UnixSockStreamClient::<i32>::new(name);
    loop {
        match step {
            Step::Done(opened) => return opened,
            Step::Call(call) => {
                let reply = match &call {
                    OpenClient::Socket { options, .. } => {
                        assert_eq!(*options, unix_stream());
                        ok(CLIENT)
                    }
                    OpenClient::Connect { socket, address, .. } => {
                        assert_eq!(*socket, CLIENT);
                        if system.same(address) { ok(0) } else { failed(ECONNREFUSED) }
                    }
                };
                step = call.resume(reply);
            }
        }
    }
}

fn attach(mut step: Step<ipc::unix_sock_stream::Accept<i32>, Attached<i32>>) -> UnixSockStreamServer<i32> {
    loop {
        match step {
            Step::Done(Attached::Connected(server)) => return server,
            Step::Done(Attached::Refused(_)) => panic!(),
            Step::Call(call) => {
                assert_eq!((call.server.connect_socket, call.nonblocking), (LISTENER, true));
                step = call.resume(ok(ACCEPTED));
            }
        }
    }
}

enum End<'a> {
    Server(&'a System, &'a UnixSockStreamServer<i32>),
    Client(&'a System, &'a UnixSockStreamClient<i32>),
}

impl<'a> End<'a> {
    fn system(&self) -> &'a System {
        match self {
            End::Server(system, _) => system,
            End::Client(system, _) => system,
        }
    }

    fn receive(&mut self) -> Poll<i32> {
        let mut buf = Vec::new();
        let mut step = match self {
            End::Server(_, server) => server.poll(),
            End::Client(_, client) => client.poll(),
        };
        let read = loop {
            match step {
                Step::Done(read) => break read,
                Step::Call(call) => {
                    let reply = match call {
                        Receive::Poll { socket, events, timeout } => {
                            assert_eq!((events, timeout), (POLLIN, 0));
                            self.system().poll(socket)
                        }
                        Receive::Read { buffer, .. } => {
                            buf = zeroed(buffer);
                            RecvReply::Read(match self.read_buf(&mut buf) {
                                Ok(futures::Async::Ready(n)) => Ok(Async::Ready(n)),
                                Ok(futures::Async::NotReady) => Ok(Async::NotReady),
                                Err(e) => Err(from_io(e)),
                            })
                        }
                    };
                    step = call.resume(reply);
                }
            }
        };
        match self {
            End::Server(_, server) => server.finish_recv(&buf, read),
            End::Client(_, client) => client.finish_recv(&buf, read),
        }
    }
}

impl<'a> Write for End<'a> {
    fn write(&mut self, buf: &[u8]) -> Result<usize> {
        let mut step = match self {
            End::Server(_, server) => server.write(ORDER, buf),
            End::Client(_, client) => client.write(ORDER, buf),
        };
        loop {
            match step {
                Step::Done(written) => return written.map_err(to_io),
                Step::Call(call) => {
                    let reply = match &call {
                        FrameWrite::Length { socket, length, .. } => self.system().write(*socket, length),
                        FrameWrite::Body { socket, body } => self.system().write(*socket, body),
                    };
                    step = call.resume(reply);
                }
            }
        }
    }
    fn flush(&mut self) -> Result<()> {
        match self {
            End::Server(_, server) => server.flush().map_err(to_io),
            End::Client(_, client) => client.flush().map_err(to_io),
        }
    }
}

impl<'a> AsyncWrite for End<'a> {
    fn shutdown(&mut self) -> futures::Poll<(), Error> {
        Ok(futures::Async::Ready(()))
    }
}

impl<'a> Read for End<'a> {
    fn read(&mut self, buf: &mut [u8]) -> Result<usize> {
        let mut step = match self {
            End::Server(_, server) => server.read(ORDER, buf.len()),
            End::Client(_, client) => client.read(ORDER, buf.len()),
        };
        loop {
            match step {
                Step::Done(Ok(frame)) => {
                    put_at_front(buf, &frame.body);
                    return Ok(frame.count);
                }
                Step::Done(Err(e)) => return Err(to_io(e)),
                Step::Call(call) => {
                    let reply = match call {
                        FrameRead::Length { socket, .. } => self.system().read(socket, size_of_word()),
                        FrameRead::Body { socket, size, .. } => self.system().read(socket, size),
                    };
                    step = call.resume(reply);
                }
            }
        }
    }
}

impl<'a> AsyncRead for End<'a> {}

fn write_all(end: End, bytes: Vec<u8>) {
    tokio_io::io::write_all(end, bytes).wait().map(|_| ()).unwrap();
}

fn server(socket: Option<i32>) -> UnixSockStreamServer<i32> {
    UnixSockStreamServer { connect_socket: LISTENER, socket, _phantom: PhantomData }
}

#[test]
fn af_unix_stream() {
    let system = System::new();
    let tx = open_server(&system, "test");
    let rx = open_client(&system, "test").unwrap();
    println!("here");
    let tx = attach(tx.async_send());
    let (tx, bytes) = UnixSockStreamServer::finish_send(Attached::Connected(tx), &4);
    write_all(End::Server(&system, &tx), bytes.unwrap());
    println!("sent");
    assert_eq!(Ok(Async::Ready(4)), End::Client(&system, &rx).receive());
    println!("recved");
    write_all(End::Client(&system, &rx), rx.async_send(&5));
    let tx = attach(tx.async_recv());
    assert_eq!(Ok(Async::Ready(5)), End::Server(&system, &tx).receive());
}

#[test]
fn many_values_keep_their_order() {
    let system = System::new();
    open_server(&system, "order");
    let rx = open_client(&system, "order").unwrap();
    let tx = server(Some(ACCEPTED));
    let values = [i32::MIN, -33, 0, 127, 128, 70000, i32::MAX];
    for value in values {
        write_all(End::Client(&system, &rx), rx.async_send(&value));
    }
    for value in values {
        assert_eq!(End::Server(&system, &tx).receive(), Ok(Async::Ready(value)));
    }
    assert_eq!(End::Server(&system, &tx).receive(), Ok(Async::NotReady));
}

#[test]
fn clients_of_another_name_find_no_server() {
    let system = System::new();
    open_server(&system, "one");
    assert!(open_client(&system, "one").is_ok());
    assert_eq!(open_client(&system, "two").unwrap_err(), IpcError::Os(ECONNREFUSED));
    assert_eq!(open_client(&system, "one ").unwrap_err(), IpcError::Os(ECONNREFUSED));
}

#[test]
fn a_name_of_at_most_106_bytes_has_an_address() {
    let name = "n".repeat(106);
    let address = SocketAddress::of_name(&name).unwrap();
    assert_eq!(address.len, 110);
    assert_eq!(address.sun_path[0], 0);
    assert_eq!(&address.sun_path[1..107], name.as_bytes());
    assert_eq!(address.sun_path[107], 0);

    let address = SocketAddress::of_name("test").unwrap();
    assert_eq!(address.sun_family, SocketDomain::Unix);
    assert_eq!(address.len, 8);
    assert_eq!(&address.sun_path[..6], b"\0test\0");
    assert!(address.sun_path[6..].iter().all(|b| *b == 0));

    let long = "n".repeat(107);
    assert_eq!(SocketAddress::of_name(&long).unwrap_err(), IpcError::InvalidInput);
    let wide = "\u{e9}".repeat(54);
    assert_eq!(SocketAddress::of_name(&wide).unwrap_err(), IpcError::InvalidInput);
    assert!(matches!(
        UnixSockStreamServer::<i32>::new(&long),
        Step::Done(Err(IpcError::InvalidInput))
    ));
    assert!(matches!(
        UnixSockStreamClient::<i32>::new(&long),
        Step::Done(Err(IpcError::InvalidInput))
    ));
    assert!(matches!(UnixSockStreamServer::<i32>::new(&name), Step::Call(_)));
}

#[test]
fn sockets_are_streams_of_the_unix_domain() {
    let expected = SocketOptions { domain: SocketDomain::Unix, kind: SocketKind::Stream, protocol: 0 };
    assert_eq!(unix_stream(), expected);
    let Step::Call(OpenServer::Socket { options, .. }) = UnixSockStreamServer::<i32>::new("a") else { panic!() };
    assert_eq!(options, expected);
    let Step::Call(OpenClient::Socket { options, .. }) = UnixSockStreamClient::<i32>::new("a") else { panic!() };
    assert_eq!(options, expected);
}

#[test]
fn opening_gives_the_error_of_the_call_that_fails() {
    let Step::Call(call) = UnixSockStreamServer::<i32>::new("a") else { panic!() };
    assert!(matches!(call.resume(failed(24)), Step::Done(Err(IpcError::Os(24)))));

    let Step::Call(call) = UnixSockStreamServer::<i32>::new("a") else { panic!() };
    let Step::Call(call) = call.resume(ok(3)) else { panic!() };
    assert!(matches!(call.resume(failed(98)), Step::Done(Err(IpcError::Os(98)))));

    let Step::Call(call) = UnixSockStreamServer::<i32>::new("a") else { panic!() };
    let Step::Call(call) = call.resume(ok(3)) else { panic!() };
    let Step::Call(call) = call.resume(ok(0)) else { panic!() };
    assert!(matches!(call.resume(failed(95)), Step::Done(Err(IpcError::Os(95)))));

    let Step::Call(call) = UnixSockStreamClient::<i32>::new("a") else { panic!() };
    assert!(matches!(call.resume(failed(24)), Step::Done(Err(IpcError::Os(24)))));
}

#[test]
fn a_server_without_a_client_has_nobody_to_talk_to() {
    let lonely = server(None);
    assert_eq!(lonely.peer(), Err(IpcError::InvalidData));
    assert!(matches!(lonely.poll(), Step::Done(Err(IpcError::InvalidData))));
    assert!(matches!(lonely.read(ORDER, 10), Step::Done(Err(IpcError::InvalidData))));
    assert!(matches!(lonely.write(ORDER, &[1]), Step::Done(Err(IpcError::InvalidData))));
    assert!(matches!(lonely.shutdown(), Step::Done(Err(IpcError::InvalidData))));
    let Step::Call(call) = lonely.async_recv() else { panic!() };
    let Step::Done(Attached::Refused(still)) = call.resume(failed(4)) else { panic!() };
    assert_eq!(still.socket, None);
    let Step::Call(call) = still.async_send() else { panic!() };
    let Step::Done(attached) = call.resume(failed(4)) else { panic!() };
    let (still, bytes) = UnixSockStreamServer::finish_send(attached, &2019);
    assert_eq!((still.connect_socket, still.socket, bytes), (LISTENER, None, None));
    assert!(matches!(still.attach(), Step::Call(_)));
    assert_eq!(refused::<i32>(4), Err(IpcError::Os(4)));
}

#[test]
fn a_server_keeps_its_client() {
    let Step::Call(call) = server(None).attach() else { panic!() };
    let Step::Done(Attached::Connected(tx)) = call.resume(ok(7)) else { panic!() };
    assert_eq!((tx.connect_socket, tx.socket), (LISTENER, Some(7)));
    assert_eq!(tx.peer(), Ok(7));
    let Step::Done(Attached::Connected(tx)) = tx.attach() else { panic!() };
    assert_eq!(tx.socket, Some(7));
}

#[test]
fn nothing_is_read_before_there_is_something() {
    let client = UnixSockStreamClient::<i32> { socket: CLIENT, _phantom: PhantomData };
    let ask = |ret, revents, errno| {
        let Step::Call(call) = client.poll() else { panic!() };
        call.resume(RecvReply::Polled { ret, revents, errno })
    };
    assert!(matches!(ask(0, 0, 0), Step::Done(Ok(Async::NotReady))));
    assert!(matches!(ask(0, POLLIN, 0), Step::Done(Ok(Async::NotReady))));
    assert!(matches!(ask(1, 16, 0), Step::Done(Ok(Async::NotReady))));
    assert!(matches!(ask(-1, POLLIN, 4), Step::Done(Err(IpcError::Os(4)))));
    assert!(matches!(
        ask(1, 16 | POLLIN, 0),
        Step::Call(Receive::Read { socket: CLIENT, buffer: 65536 })
    ));
    let read = Receive::Read { socket: CLIENT, buffer: 65536 };
    assert!(matches!(read.resume(RecvReply::Read(Ok(Async::NotReady))), Step::Done(Ok(Async::NotReady))));
    assert!(matches!(
        read.resume(RecvReply::Read(Err(IpcError::InvalidInput))),
        Step::Done(Err(IpcError::InvalidInput))
    ));
}

#[test]
fn a_frame_is_a_word_and_the_message() {
    let word = size_of_word();
    for order in [ByteOrder::Little, ByteOrder::Big] {
        let FrameWrite::Length { socket, length, body } = FrameWrite::start(9, order, &[1, 2, 3]) else { panic!() };
        assert_eq!((socket, body), (9, &[1u8, 2, 3][..]));
        assert_eq!(length, encode_word(3, word, order));
    }
    let start = || FrameWrite::start(9, ORDER, &[1, 2, 3]);
    assert!(matches!(
        start().resume(WriteReply { ret: 0, errno: 32 }),
        Step::Done(Err(IpcError::Os(32)))
    ));
    let Step::Call(call) = start().resume(WriteReply { ret: word as isize, errno: 0 }) else { panic!() };
    assert!(matches!(call, FrameWrite::Body { socket: 9, body: &[1, 2, 3] }));
    assert!(matches!(call.resume(WriteReply { ret: 3, errno: 0 }), Step::Done(Ok(n)) if n == 3 + word));
    let Step::Call(call) = start().resume(WriteReply { ret: -1, errno: 11 }) else { panic!() };
    assert!(matches!(call.resume(WriteReply { ret: 0, errno: 32 }), Step::Done(Err(IpcError::Os(32)))));
}

#[test]
fn a_frame_is_read_only_whole() {
    let word = size_of_word();
    let length = |room| FrameRead::Length { socket: 9, order: ByteOrder::Big, room };
    let header = |n| ReadReply { ret: word as isize, errno: 0, data: encode_word(n, word, ByteOrder::Big) };

    let short = ReadReply { ret: 2, errno: 11, data: vec![0; word] };
    assert!(matches!(length(10).resume(short), Step::Done(Err(IpcError::Os(11)))));

    let Step::Call(call) = length(10).resume(header(3)) else { panic!() };
    assert!(matches!(call, FrameRead::Body { socket: 9, size: 3, room: 10 }));
    let short = ReadReply { ret: 2, errno: 5, data: vec![0; 3] };
    assert!(matches!(call.resume(short), Step::Done(Err(IpcError::Os(5)))));
    let whole = ReadReply { ret: 3, errno: 0, data: vec![7, 8, 9] };
    let Step::Done(Ok(Frame { body, count })) = call.resume(whole) else { panic!() };
    assert_eq!((body, count), (vec![7, 8, 9], 3 + word));

    let Step::Call(call) = length(2).resume(header(3)) else { panic!() };
    let whole = ReadReply { ret: 3, errno: 0, data: vec![7, 8, 9] };
    assert!(matches!(call.resume(whole), Step::Done(Err(IpcError::InvalidInput))));
}

#[test]
fn a_message_larger_than_the_room_is_refused_and_gone() {
    let system = System::new();
    open_server(&system, "large");
    let rx = open_client(&system, "large").unwrap();
    let tx = server(Some(ACCEPTED));
    write_all(End::Client(&system, &rx), vec![0; 70000]);
    write_all(End::Client(&system, &rx), rx.async_send(&5));
    assert_eq!(End::Server(&system, &tx).receive(), Err(IpcError::InvalidInput));
    assert_eq!(End::Server(&system, &tx).receive(), Ok(Async::Ready(5)));
}

#[test]
fn a_connection_that_cannot_be_ended_is_closed() {
    let Step::Call(call) = server(Some(7)).shutdown() else { panic!() };
    assert!(matches!(call, Disconnect::Shutdown { socket: 7, how: Direction::Both }));
    assert!(matches!(call.resume(ok(0)), Step::Done(Ok(Async::Ready(())))));
    let Step::Call(call) = call.resume(failed(107)) else { panic!() };
    assert!(matches!(call, Disconnect::Close { socket: 7 }));
    assert!(matches!(call.resume(ok(0)), Step::Done(Ok(Async::Ready(())))));
    assert!(matches!(call.resume(failed(9)), Step::Done(Err(IpcError::Os(9)))));

    let client = UnixSockStreamClient::<i32> { socket: CLIENT, _phantom: PhantomData };
    assert!(matches!(
        client.shutdown(),
        Step::Call(Disconnect::Shutdown { socket: CLIENT, how: Direction::Both })
    ));
}

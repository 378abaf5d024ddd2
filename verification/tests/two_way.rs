use std::marker::PhantomData;

use ipc::address::{unix_stream, SocketDomain};
use ipc::operation::{IpcError, Operation, Step};
use ipc::two_way::{
    OpenStream, Peer, RecvStream, SendStream, SocketReply, UnixSockStream, ADDRESS_IN_USE,
    INVALID_SOCKET, LENGTH_SIZE,
};
use ipc::wire::ByteOrder;

fn number(ret: i32, errno: i32) -> SocketReply {
    SocketReply { ret, socket: 0, errno, data: Vec::new() }
}

fn socket(socket: usize, errno: i32) -> SocketReply {
    SocketReply { ret: 0, socket, errno, data: Vec::new() }
}

fn data(data: &[u8]) -> SocketReply {
    SocketReply { ret: data.len() as i32, socket: 0, errno: 0, data: data.to_vec() }
}

fn short(ret: i32, size: usize, errno: i32) -> SocketReply {
    SocketReply { ret, socket: 0, errno, data: vec![0; size] }
}

fn stream(socket: usize) -> UnixSockStream<i32> {
    UnixSockStream { connect_socket: 3, socket, _phantom: PhantomData }
}

/// Opens an end; the calls leave these replies behind, in turn.
fn open(replies: Vec<SocketReply>) -> Result<UnixSockStream<i32>, IpcError> {
    let mut step = UnixSockStream::<i32>::new("test");
    for reply in replies {
        match step {
            Step::Call(call) => step = call.resume(reply),
            Step::Done(_) => panic!(),
        }
    }
    match step {
        Step::Done(opened) => opened,
        Step::Call(_) => panic!(),
    }
}

#[test]
fn the_first_end_listens() {
    let end = open(vec![socket(3, 0), number(0, 0), number(0, 0)]).unwrap();
    assert_eq!((end.connect_socket, end.socket), (3, INVALID_SOCKET));
}

#[test]
fn the_second_end_connects() {
    let end = open(vec![socket(3, 0), number(-1, ADDRESS_IN_USE), number(0, 0)]).unwrap();
    assert_eq!((end.connect_socket, end.socket), (3, 3));
    let end = open(vec![socket(3, 0), number(0, 0), number(-1, ADDRESS_IN_USE), number(0, 0)]).unwrap();
    assert_eq!((end.connect_socket, end.socket), (3, 3));
}

#[test]
fn opening_an_end_gives_the_error_of_the_call_that_fails() {
    assert_eq!(open(vec![socket(INVALID_SOCKET, 10024)]).unwrap_err(), IpcError::Os(10024));
    assert_eq!(open(vec![socket(3, 0), number(-1, 10013)]).unwrap_err(), IpcError::Os(10013));
    assert_eq!(
        open(vec![socket(3, 0), number(0, 0), number(-1, 10022)]).unwrap_err(),
        IpcError::Os(10022)
    );
    assert_eq!(
        open(vec![socket(3, 0), number(-1, 10048), number(-1, 10061)]).unwrap_err(),
        IpcError::Os(10061)
    );
}

#[test]
fn both_ends_use_the_address_of_the_name() {
    let Step::Call(call) = UnixSockStream::<i32>::new("test") else { panic!() };
    assert!(matches!(&call, OpenStream::Socket { options, .. } if *options == unix_stream()));
    let Step::Call(call) = call.resume(socket(3, 0)) else { panic!() };
    match &call {
        OpenStream::Bind { socket, address, .. } => {
            assert_eq!((*socket, address.sun_family, address.len), (3, SocketDomain::Unix, 8));
            assert_eq!(&address.sun_path[..6], b"\0test\0");
        }
        _ => panic!(),
    }
    let Step::Call(call) = call.resume(number(-1, ADDRESS_IN_USE)) else { panic!() };
    match call {
        OpenStream::Connect { socket, address, .. } => {
            assert_eq!((socket, address.len), (3, 8));
            assert_eq!(&address.sun_path[..6], b"\0test\0");
        }
        _ => panic!(),
    }
}

#[test]
fn a_message_is_received_behind_its_length() {
    let Step::Call(call) = stream(5).recv(ByteOrder::Little) else { panic!() };
    let Step::Call(call) = call.resume(data(&[3, 0, 0, 0])) else { panic!() };
    assert!(matches!(call, RecvStream::Body { size: 3, flags: 0, .. }));
    let Step::Done(received) = call.resume(data(&[0xcd, 0x07, 0xe3])) else { panic!() };
    assert_eq!(received.stream.socket, 5);
    assert_eq!(received.stream.finish_recv(received.message), Ok(2019));
}

#[test]
fn an_end_without_a_peer_waits_for_one_and_keeps_it() {
    let Step::Call(call) = stream(INVALID_SOCKET).recv(ByteOrder::Big) else { panic!() };
    let Step::Call(call) = call.resume(socket(9, 0)) else { panic!() };
    match &call {
        RecvStream::Length { stream, order, flags } => {
            assert_eq!(*flags, 0);
            assert_eq!((stream.connect_socket, stream.socket), (3, 9));
            assert_eq!(*order, ByteOrder::Big);
        }
        _ => panic!(),
    }
    let Step::Done(received) = call.resume(short(0, 4, 10054)) else { panic!() };
    assert_eq!(received.stream.socket, 9);
    assert_eq!(received.message, Err(IpcError::Os(10054)));
    assert_eq!(received.stream.finish_recv(received.message), Err(IpcError::Os(10054)));

    let Step::Call(call) = stream(INVALID_SOCKET).recv(ByteOrder::Big) else { panic!() };
    let Step::Done(received) = call.resume(socket(INVALID_SOCKET, 10004)) else { panic!() };
    assert_eq!(received.stream.socket, INVALID_SOCKET);
    assert_eq!(received.message, Err(IpcError::Os(10004)));
}

#[test]
fn a_message_is_received_only_whole() {
    let Step::Call(call) = stream(5).recv(ByteOrder::Big) else { panic!() };
    let Step::Call(call) = call.resume(data(&[0, 0, 0, 3])) else { panic!() };
    let Step::Done(received) = call.resume(short(2, 3, 10054)) else { panic!() };
    assert_eq!(received.message, Err(IpcError::Os(10054)));
}

#[test]
fn a_length_can_be_negative() {
    let Step::Call(call) = stream(5).recv(ByteOrder::Little) else { panic!() };
    let Step::Call(call) = call.resume(data(&[0xff, 0xff, 0xff, 0xff])) else { panic!() };
    assert!(matches!(call, RecvStream::Body { size: -1, .. }));
    let Step::Call(call) = stream(5).recv(ByteOrder::Little) else { panic!() };
    let Step::Call(call) = call.resume(data(&[0, 0, 0, 0x80])) else { panic!() };
    assert!(matches!(call, RecvStream::Body { size: i32::MIN, .. }));
}

fn send(stream: UnixSockStream<i32>, value: i32, order: ByteOrder) -> SendStream<i32> {
    let Step::Done(peer) = stream.send() else { panic!() };
    let Step::Call(call) = UnixSockStream::finish_send(peer, &value, order) else { panic!() };
    call
}

#[test]
fn a_message_is_sent_behind_its_length() {
    let call = send(stream(5), 2019, ByteOrder::Little);
    match &call {
        SendStream::Length { stream, length, body, flags } => {
            assert_eq!((stream.socket, *flags), (5, 0));
            assert_eq!(length, &vec![3, 0, 0, 0]);
            assert_eq!(body, &vec![0xcd, 0x07, 0xe3]);
        }
        _ => panic!(),
    }
    let Step::Call(call) = call.resume(number(4, 0)) else { panic!() };
    assert!(matches!(&call, SendStream::Body { body, flags: 0, .. } if body == &vec![0xcd, 0x07, 0xe3]));
    let Step::Done(sent) = call.resume(number(3, 0)) else { panic!() };
    assert_eq!(sent.result, Ok(()));
    assert_eq!(sent.stream.socket, 5);

    let Step::Call(SendStream::Length { length, .. }) = stream(5).send_bytes(vec![7; 258], ByteOrder::Big) else { panic!() };
    assert_eq!(length, vec![0, 0, 1, 2]);
}

#[test]
fn an_end_that_got_no_peer_sends_nothing() {
    let Step::Call(call) = stream(INVALID_SOCKET).send() else { panic!() };
    assert_eq!(call.stream.connect_socket, 3);
    let Step::Done(peer) = call.resume(socket(INVALID_SOCKET, 10004)) else { panic!() };
    assert!(matches!(peer, Peer::Refused(_, IpcError::Os(10004))));
    let Step::Done(sent) = UnixSockStream::finish_send(peer, &4, ByteOrder::Little) else { panic!() };
    assert_eq!((sent.stream.socket, sent.result), (INVALID_SOCKET, Err(IpcError::Os(10004))));
}

#[test]
fn sending_gives_the_error_of_the_call_that_fails() {
    let Step::Call(call) = stream(INVALID_SOCKET).send() else { panic!() };
    let Step::Done(Peer::Connected(end)) = call.resume(socket(9, 0)) else { panic!() };
    assert_eq!((end.connect_socket, end.socket), (3, 9));
    let call = send(end, 4, ByteOrder::Little);
    let Step::Done(sent) = call.resume(number(0, 10054)) else { panic!() };
    assert_eq!((sent.stream.socket, sent.result), (9, Err(IpcError::Os(10054))));

    let call = send(stream(5), 4, ByteOrder::Little);
    let Step::Call(call) = call.resume(number(-1, 10035)) else { panic!() };
    let Step::Done(sent) = call.resume(number(0, 10054)) else { panic!() };
    assert_eq!(sent.result, Err(IpcError::Os(10054)));
}

#[test]
fn values_keep_their_order_on_the_stream() {
    let values = [5, 2019, -1, 0];
    let mut wire: Vec<u8> = Vec::new();
    for value in values {
        let SendStream::Length { length, body, .. } = send(stream(5), value, ByteOrder::Big) else { panic!() };
        wire.extend_from_slice(&length);
        wire.extend_from_slice(&body);
    }
    let mut rest = &wire[..];
    for value in values {
        let Step::Call(call) = stream(6).recv(ByteOrder::Big) else { panic!() };
        let Step::Call(call) = call.resume(data(&rest[..LENGTH_SIZE])) else { panic!() };
        rest = &rest[LENGTH_SIZE..];
        let RecvStream::Body { size, .. } = &call else { panic!() };
        let (body, behind) = rest.split_at(*size as usize);
        rest = behind;
        let Step::Done(received) = call.resume(data(body)) else { panic!() };
        assert_eq!(received.stream.finish_recv(received.message), Ok(value));
    }
    assert!(rest.is_empty());
}

#[test]
fn what_one_end_sends_the_other_receives() {
    for order in [ByteOrder::Little, ByteOrder::Big] {
        for value in [5, 2019, -1, i32::MIN, i32::MAX] {
            let mut wire: Vec<u8> = Vec::new();
            let SendStream::Length { length, body, .. } = send(stream(5), value, order) else { panic!() };
            wire.extend_from_slice(&length);
            wire.extend_from_slice(&body);
            wire.extend_from_slice(&[1, 2, 3, 4, 5, 6, 7, 8]);

            let Step::Call(call) = stream(6).recv(order) else { panic!() };
            let (front, rest) = wire.split_at(LENGTH_SIZE);
            let Step::Call(call) = call.resume(data(front)) else { panic!() };
            let RecvStream::Body { size, .. } = &call else { panic!() };
            let (front, rest) = rest.split_at(*size as usize);
            let Step::Done(received) = call.resume(data(front)) else { panic!() };
            assert_eq!(received.stream.finish_recv(received.message), Ok(value));
            assert_eq!(rest, &[1, 2, 3, 4, 5, 6, 7, 8]);
        }
    }
}

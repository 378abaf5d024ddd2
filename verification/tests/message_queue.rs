use std::cell::RefCell;
use std::collections::VecDeque;
use std::io::{Error, Read, Result, Write};

use futures::Future;
use ipc::message_queue::{
    holds_zero, MessageQueue, OpenQueue, QueueAttributes, QueueRead, QueueRelease, QueueReply,
    QueueRoom, QueueWrite, ReceiveReply,
};
use ipc::operation::{Async, IpcError, Operation, Poll, Reply, Step};
use tokio_io::{AsyncRead, AsyncWrite};

const EAGAIN: i32 = 11;
const EMSGSIZE: i32 = 90;
const NONE: QueueAttributes = QueueAttributes { mq_maxmsg: 0, mq_msgsize: 0, mq_curmsgs: 0 };

/// A queue as the system keeps it.
struct System {
    messages: RefCell<VecDeque<Vec<u8>>>,
    maxmsg: usize,
    msgsize: usize,
}

impl System {
    fn new(maxmsg: usize, msgsize: usize) -> System {
        System { messages: RefCell::new(VecDeque::new()), maxmsg, msgsize }
    }

    fn attributes(&self) -> QueueReply {
        let attributes = QueueAttributes {
            mq_maxmsg: self.maxmsg as i64,
            mq_msgsize: self.msgsize as i64,
            mq_curmsgs: self.messages.borrow().len() as i64,
        };
        QueueReply { ret: 0, errno: 0, attributes }
    }

    fn send(&self, message: &[u8]) -> Reply {
        if message.len() > self.msgsize {
            return Reply { ret: -1, errno: EMSGSIZE };
        }
        if self.messages.borrow().len() == self.maxmsg {
            return Reply { ret: -1, errno: EAGAIN };
        }
        self.messages.borrow_mut().push_back(message.to_vec());
        Reply { ret: 0, errno: 0 }
    }

    fn receive(&self, size: usize, buf: &mut [u8]) -> ReceiveReply {
        if size < self.msgsize {
            return ReceiveReply { ret: -1, errno: EMSGSIZE };
        }
        match self.messages.borrow_mut().pop_front() {
            Some(message) => {
                buf[..message.len()].copy_from_slice(&message);
                ReceiveReply { ret: message.len() as isize, errno: 0 }
            }
            None => ReceiveReply { ret: -1, errno: EAGAIN },
        }
    }
}

fn to_io(error: IpcError) -> Error {
    match error {
        IpcError::Os(code) => Error::from_raw_os_error(code),
        other => panic!("{:?}", other),
    }
}

fn open(system: &System, name: &str) -> MessageQueue<i32> {
    assert!(!holds_zero(name));
    let mut step = MessageQueue::<i32>::new(name);
    loop {
        match step {
            Step::Done(opened) => return opened.unwrap(),
            Step::Call(call) => {
                let reply = match &call {
                    OpenQueue::Open { .. } => QueueReply { ret: 3, errno: 0, attributes: NONE },
                    OpenQueue::GetAttributes { fd, .. } => {
                        assert_eq!(*fd, 3);
                        system.attributes()
                    }
                };
                step = call.resume(reply);
            }
        }
    }
}

/// One end of a queue, as a stream.
struct End<'a> {
    system: &'a System,
    queue: &'a MessageQueue<i32>,
}

impl<'a> Write for End<'a> {
    fn write(&mut self, buf: &[u8]) -> Result<usize> {
        match self.queue.write(buf) {
            Step::Call(call) => {
                assert_eq!((call.fd, call.priority), (self.queue.fd, 0));
                match call.resume(self.system.send(call.buf)) {
                    Step::Done(written) => written.map_err(to_io),
                    Step::Call(_) => unreachable!(),
                }
            }
            Step::Done(_) => unreachable!(),
        }
    }
    fn flush(&mut self) -> Result<()> {
        self.queue.flush().map_err(to_io)
    }
}

impl<'a> AsyncWrite for End<'a> {
    fn shutdown(&mut self) -> futures::Poll<(), Error> {
        Ok(futures::Async::Ready(()))
    }
}

impl<'a> Read for End<'a> {
    fn read(&mut self, buf: &mut [u8]) -> Result<usize> {
        assert!(self.queue.size <= buf.len());
        match self.queue.read(buf.len()) {
            Step::Call(call) => {
                let reply = self.system.receive(call.size, buf);
                match call.resume(reply) {
                    Step::Done(read) => read.map_err(to_io),
                    Step::Call(_) => unreachable!(),
                }
            }
            Step::Done(_) => unreachable!(),
        }
    }
}

impl<'a> AsyncRead for End<'a> {}

fn send(system: &System, queue: &MessageQueue<i32>, value: i32) -> Result<()> {
    tokio_io::io::write_all(End { system, queue }, queue.async_send(&value)).wait().map(|_| ())
}

fn recv(system: &System, queue: &MessageQueue<i32>) -> Poll<i32> {
    let mut buf = queue.receive_buffer();
    let read = match (End { system, queue }).read_buf(&mut buf) {
        Ok(futures::Async::Ready(n)) => Ok(Async::Ready(n)),
        Ok(futures::Async::NotReady) => Ok(Async::NotReady),
        Err(e) => Err(IpcError::Os(e.raw_os_error().unwrap())),
    };
    queue.async_recv(&buf, read)
}

#[test]
fn one_way_basic() {
    let system = System::new(10, 8192);
    let (tx, rx) = open(&system, "channel").channel();
    assert_eq!(recv(&system, &rx), Ok(Async::NotReady));
    send(&system, &tx, 2019).unwrap();
    assert_eq!(Ok(Async::Ready(2019)), recv(&system, &rx));
}

#[test]
fn values_come_in_the_order_they_were_sent() {
    let system = System::new(10, 16);
    let (tx, rx) = open(&system, "order").channel();
    let values = [i32::MIN, -1, 0, 5, 300, i32::MAX];
    for value in values {
        send(&system, &tx, value).unwrap();
    }
    for value in values {
        assert_eq!(recv(&system, &rx), Ok(Async::Ready(value)));
    }
    assert_eq!(recv(&system, &rx), Ok(Async::NotReady));
}

#[test]
fn the_sender_can_read_what_it_queued() {
    let system = System::new(10, 16);
    let queue = open(&system, "self");
    send(&system, &queue, -7).unwrap();
    assert_eq!(recv(&system, &queue), Ok(Async::Ready(-7)));
}

#[test]
fn a_message_that_is_too_large_is_refused() {
    let system = System::new(10, 2);
    let queue = open(&system, "small");
    assert_eq!(queue.size, 2);
    let e = send(&system, &queue, 2019).unwrap_err();
    assert_eq!(e.raw_os_error(), Some(EMSGSIZE));
    send(&system, &queue, 4).unwrap();
    assert_eq!(recv(&system, &queue), Ok(Async::Ready(4)));
}

#[test]
fn there_is_room_unless_the_queue_is_full() {
    let system = System::new(1, 16);
    let queue = open(&system, "room");
    let ask = |reply: QueueReply| match queue.poll_room() {
        Step::Call(QueueRoom { fd }) => match (QueueRoom { fd }).resume(reply) {
            Step::Done(room) => room,
            Step::Call(_) => unreachable!(),
        },
        Step::Done(_) => unreachable!(),
    };
    assert_eq!(ask(system.attributes()), Ok(Async::Ready(())));
    send(&system, &queue, 1).unwrap();
    assert_eq!(ask(system.attributes()), Ok(Async::NotReady));
    assert_eq!(recv(&system, &queue), Ok(Async::Ready(1)));
    assert_eq!(ask(system.attributes()), Ok(Async::Ready(())));
    assert_eq!(ask(QueueReply { ret: -1, errno: 9, attributes: NONE }), Err(IpcError::Os(9)));
}

#[test]
fn a_queue_is_opened_by_its_name_behind_a_slash() {
    match MessageQueue::<i32>::new("jobs") {
        Step::Call(OpenQueue::Open { name, options, .. }) => {
            assert_eq!(name, b"/jobs".to_vec());
            assert!(options.nonblocking && options.read_write && options.create);
            assert!(options.owner_reads && options.owner_writes);
            assert!(options.others_read && options.others_write);
        }
        _ => panic!(),
    }
    let system = System::new(10, 8192);
    let queue = open(&system, "jobs");
    assert_eq!((queue.mq_name, queue.fd, queue.size), (b"/jobs".to_vec(), 3, 8192));
}

#[test]
fn a_name_with_a_zero_byte_is_noticed() {
    assert!(holds_zero("a\0b"));
    assert!(holds_zero("\0"));
    assert!(!holds_zero(""));
    assert!(!holds_zero("name"));
}

#[test]
fn opening_a_queue_gives_the_error_of_the_call_that_fails() {
    let Step::Call(call) = MessageQueue::<i32>::new("jobs") else { panic!() };
    let next = call.resume(QueueReply { ret: -1, errno: 13, attributes: NONE });
    assert!(matches!(next, Step::Done(Err(IpcError::Os(13)))));

    let Step::Call(call) = MessageQueue::<i32>::new("jobs") else { panic!() };
    let Step::Call(call) = call.resume(QueueReply { ret: 3, errno: 0, attributes: NONE }) else { panic!() };
    let next = call.resume(QueueReply { ret: -1, errno: 9, attributes: NONE });
    assert!(matches!(next, Step::Done(Err(IpcError::Os(9)))));
}

#[test]
fn reading_and_writing_give_the_error_of_the_call() {
    let write = QueueWrite { fd: 3, buf: &[1, 2], priority: 0 };
    assert!(matches!(write.resume(Reply { ret: -1, errno: 90 }), Step::Done(Err(IpcError::Os(90)))));
    assert!(matches!(write.resume(Reply { ret: 0, errno: 0 }), Step::Done(Ok(2))));
    let read = QueueRead { fd: 3, size: 16 };
    assert!(matches!(read.resume(ReceiveReply { ret: -1, errno: 11 }), Step::Done(Err(IpcError::Os(11)))));
    assert!(matches!(read.resume(ReceiveReply { ret: 5, errno: 0 }), Step::Done(Ok(5))));
}

#[test]
fn the_second_of_two_handles_closes_the_queue() {
    let system = System::new(10, 16);
    let (a, b) = open(&system, "twice").channel();

    let Step::Call(call) = a.shutdown() else { panic!() };
    assert!(matches!(call, QueueRelease::Unlink { name: b"/twice", fd: 3 }));
    assert!(matches!(call.resume(Reply { ret: 0, errno: 0 }), Step::Done(Ok(Async::Ready(())))));

    let Step::Call(call) = b.shutdown() else { panic!() };
    let Step::Call(call) = call.resume(Reply { ret: -1, errno: 2 }) else { panic!() };
    assert!(matches!(call, QueueRelease::Close { fd: 3 }));
    assert!(matches!(call.resume(Reply { ret: 0, errno: 2 }), Step::Done(Ok(Async::Ready(())))));
    assert!(matches!(call.resume(Reply { ret: -1, errno: 9 }), Step::Done(Err(IpcError::Os(9)))));
}

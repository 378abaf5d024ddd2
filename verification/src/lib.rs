//! Inter-process channels: POSIX message queues, Unix stream sockets and Windows named pipes.
//!
//! Everything here computes; nothing here talks to the operating system. Each operation that needs
//! system calls is a value of a type that implements [`operation::Operation`]: it says which call
//! to make, and is resumed with what the call returned.

pub mod address;
pub mod buffer;
pub mod frame;
pub mod message;
pub mod message_queue;
pub mod one_way;
pub mod operation;
pub mod two_way;
pub mod unix_sock_stream;
pub mod wire;

//! The part of a receive buffer that holds a message.

use vstd::prelude::*;
use vstd::slice::slice_subrange;

use crate::operation::{Async, Poll};

verus! {

/// The room for one message that a receiver on a socket or on a pipe makes.
pub const MESSAGE_ROOM: usize = 65536;

/// `size` bytes, all zero.
pub open spec fn zeros(size: nat) -> Seq<u8> {
    Seq::new(size, |i: int| 0u8)
}

/// A buffer of `size` bytes, all zero.
pub fn zeroed(size: usize) -> (buf: Vec<u8>)
    requires
        size <= isize::MAX,
    ensures
        buf@ == zeros(size as nat),
{
    let buf = vec![0u8; size];
    assert(buf@ =~= zeros(size as nat));
    buf
}

/// The last `n` bytes.
pub open spec fn last_bytes(buf: Seq<u8>, n: nat) -> Seq<u8> {
    buf.skip(buf.len() - n)
}

/// The message in a buffer at whose end a read has appended what it reports to have read.
pub fn message_at_end<'a>(buf: &'a [u8], read: Poll<usize>) -> (message: Poll<&'a [u8]>)
    requires
        read matches Ok(Async::Ready(n)) ==> n <= buf@.len(),
    ensures
        match read {
            Ok(Async::Ready(n)) => message matches Ok(Async::Ready(m)) && m@ == last_bytes(
                buf@,
                n as nat,
            ),
            Ok(Async::NotReady) => message matches Ok(Async::NotReady),
            Err(e) => message matches Err(f) && f == e,
        },
{
    match read {
        Ok(Async::Ready(n)) => {
            let message = slice_subrange(buf, buf.len() - n, buf.len());
            assert(message@ =~= last_bytes(buf@, n as nat));
            Ok(Async::Ready(message))
        },
        Ok(Async::NotReady) => Ok(Async::NotReady),
        Err(e) => Err(e),
    }
}

/// Puts a message at the front of a buffer that has room for it, and leaves the rest as it is.
pub fn put_at_front(buf: &mut [u8], message: &[u8])
    requires
        message@.len() <= old(buf)@.len(),
    ensures
        final(buf)@ == message@ + old(buf)@.skip(message@.len() as int),
{
    let ghost before = buf@;
    let mut i: usize = 0;
    while i < message.len()
        invariant
            i <= message@.len() <= before.len(),
            buf@ == message@.take(i as int) + before.skip(i as int),
        decreases message@.len() - i,
    {
        buf[i] = message[i];
        i = i + 1;
        assert(buf@ =~= message@.take(i as int) + before.skip(i as int));
    }
    assert(message@.take(i as int) =~= message@);
}

/// What was appended to a buffer is the message at its end.
pub proof fn appended_is_at_end(before: Seq<u8>, appended: Seq<u8>)
    ensures
        last_bytes(before + appended, appended.len()) == appended,
{
    assert(last_bytes(before + appended, appended.len()) =~= appended);
}

/// A receive buffer has the size that was asked for, and is blank.
pub proof fn zeros_are_blank(size: nat, i: int)
    requires
        0 <= i < size,
    ensures
        zeros(size).len() == size,
        zeros(size)[i] == 0,
        zeros(0).len() == 0,
        MESSAGE_ROOM == 65536,
{
}

/// The last bytes of a buffer are a part of it: each stands as far from the end as it did.
pub proof fn last_bytes_are_at_the_end(buf: Seq<u8>, n: nat, i: int)
    requires
        0 <= i < n <= buf.len(),
    ensures
        last_bytes(buf, n).len() == n,
        last_bytes(buf, n)[n - 1 - i] == buf[buf.len() - 1 - i],
{
}

} // verus!

//! Sockets of the Unix domain: how they are made, and their addresses in the abstract namespace.

use vstd::prelude::*;
use vstd::utf8::encode_utf8;

use crate::operation::IpcError;

verus! {

/// The domain of a socket, and the family of an address.
#[derive(Clone, Copy, Debug, PartialEq, Eq, Structural)]
pub enum SocketDomain {
    /// Sockets on one machine.
    Unix,
    /// Sockets of the Internet.
    Inet,
}

/// How data travels between two sockets.
#[derive(Clone, Copy, Debug, PartialEq, Eq, Structural)]
pub enum SocketKind {
    /// As a stream of bytes.
    Stream,
    /// As single messages.
    Datagram,
}

/// How a socket is made.
#[derive(Clone, Copy, Debug, PartialEq, Eq, Structural)]
pub struct SocketOptions {
    /// The domain.
    pub domain: SocketDomain,
    /// How data travels.
    pub kind: SocketKind,
    /// The number of the protocol; zero leaves it to the system.
    pub protocol: i32,
}

/// The options that every socket of a channel is made with.
pub open spec fn stream_options() -> SocketOptions {
    SocketOptions { domain: SocketDomain::Unix, kind: SocketKind::Stream, protocol: 0 }
}

/// The options that every socket of a channel is made with.
pub fn unix_stream() -> (options: SocketOptions)
    ensures
        options == stream_options(),
{
    SocketOptions { domain: SocketDomain::Unix, kind: SocketKind::Stream, protocol: 0 }
}

/// The longest name, in bytes, that an address has room for.
pub const LONGEST_NAME: usize = 106;

/// The address of a Unix socket.
#[derive(Clone, Copy, Debug)]
pub struct SocketAddress {
    /// The address family.
    pub sun_family: SocketDomain,
    /// The path: a zero byte, the name, and zero bytes up to the end.
    pub sun_path: [u8; 108],
    /// How many bytes of the address count: two for the address family, which comes before the
    /// path, one for the first byte of the path, the name, and one zero byte behind it.
    pub len: u32,
}

/// The path of the address that a name stands for.
pub open spec fn socket_path(name: Seq<u8>) -> Seq<u8> {
    Seq::new(
        108,
        |i: int|
            if 1 <= i <= name.len() {
                name[i - 1]
            } else {
                0
            },
    )
}

impl SocketAddress {
    /// Whether this is the address that a name stands for.
    pub open spec fn is_of(self, name: Seq<u8>) -> bool {
        &&& self.sun_family == SocketDomain::Unix
        &&& self.sun_path@ == socket_path(name)
        &&& self.len == 4 + name.len()
    }

    /// The bytes of the path that count.
    pub open spec fn path_in_use(self) -> Seq<u8> {
        self.sun_path@.take(self.len - 2)
    }

    /// The address that a name stands for.
    pub fn of_bytes(name: &[u8]) -> (address: SocketAddress)
        requires
            name@.len() <= LONGEST_NAME,
        ensures
            address.is_of(name@),
    {
        let mut sun_path: [u8; 108] = [0; 108];
        let mut i: usize = 0;
        while i < name.len()
            invariant
                i <= name@.len() <= LONGEST_NAME,
                sun_path@ == socket_path(name@.take(i as int)),
            decreases name@.len() - i,
        {
            sun_path[i + 1] = name[i];
            i = i + 1;
            assert(sun_path@ =~= socket_path(name@.take(i as int)));
        }
        assert(name@.take(i as int) =~= name@);
        SocketAddress { sun_family: SocketDomain::Unix, sun_path, len: 4 + name.len() as u32 }
    }

    /// The address that a name stands for; a name that is too long for one is refused.
    pub fn of_name(name: &str) -> (address: Result<SocketAddress, IpcError>)
        ensures
            match address {
                Ok(a) => encode_utf8(name@).len() <= LONGEST_NAME && a.is_of(encode_utf8(name@)),
                Err(e) => encode_utf8(name@).len() > LONGEST_NAME && e == IpcError::InvalidInput,
            },
    {
        let bytes = name.as_bytes();
        if bytes.len() > LONGEST_NAME {
            return Err(IpcError::InvalidInput);
        }
        Ok(SocketAddress::of_bytes(bytes))
    }
}

/// An address fits the path, its path starts with a zero byte, which is what makes it abstract, and
/// goes on with the name and one more zero byte.
pub proof fn address_layout(address: SocketAddress, name: Seq<u8>)
    requires
        name.len() <= LONGEST_NAME,
        address.is_of(name),
    ensures
        address.len - 2 <= address.sun_path@.len(),
        address.path_in_use() == seq![0u8] + name + seq![0u8],
{
    assert(address.path_in_use() =~= seq![0u8] + name + seq![0u8]);
}

/// A name stands for one address only.
pub proof fn address_is_unique(a: SocketAddress, b: SocketAddress, name: Seq<u8>)
    requires
        a.is_of(name),
        b.is_of(name),
    ensures
        a.sun_family == b.sun_family,
        a.sun_path@ == b.sun_path@,
        a.len == b.len,
{
}

/// Two names stand for the same bytes of an address only where they are equal.
pub proof fn addresses_differ(a: SocketAddress, b: SocketAddress, m: Seq<char>, n: Seq<char>)
    requires
        encode_utf8(m).len() <= LONGEST_NAME,
        encode_utf8(n).len() <= LONGEST_NAME,
        a.is_of(encode_utf8(m)),
        b.is_of(encode_utf8(n)),
        a.path_in_use() == b.path_in_use(),
    ensures
        m == n,
{
    address_layout(a, encode_utf8(m));
    address_layout(b, encode_utf8(n));
    let p = a.path_in_use();
    assert(p.subrange(1, p.len() - 1) =~= encode_utf8(m));
    assert(p.subrange(1, p.len() - 1) =~= encode_utf8(n));
    vstd::utf8::encode_utf8_decode_utf8(m);
    vstd::utf8::encode_utf8_decode_utf8(n);
}

/// An address holds its name and nothing else: the path is a zero byte, the bytes of the name, each
/// one place on, and zero bytes; what counts of the address are four bytes more than the name has.
pub proof fn address_holds_the_name(address: SocketAddress, name: Seq<u8>, i: int)
    requires
        address.is_of(name),
        0 <= i < 108,
    ensures
        address.sun_family is Unix,
        address.sun_path@.len() == 108,
        address.sun_path@[0] == 0,
        1 <= i <= name.len() ==> address.sun_path@[i] == name[i - 1],
        i > name.len() ==> address.sun_path@[i] == 0,
        address.len - name.len() == 4,
{
}

/// Every name of at most 106 bytes has an address.
pub proof fn every_short_name_has_an_address(name: Seq<u8>)
    ensures
        name.len() <= 106 <==> name.len() <= LONGEST_NAME,
        name.len() <= LONGEST_NAME ==> 1 + name.len() < socket_path(name).len(),
{
}

/// Every socket of a channel is a stream of the Unix domain, with the protocol left to the system.
pub proof fn channels_are_unix_streams()
    ensures
        stream_options().domain is Unix,
        stream_options().kind is Stream,
        stream_options().protocol == 0,
{
}

} // verus!

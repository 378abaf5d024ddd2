//! What a channel carries: values that turn into MessagePack bytes and back.

use rmp_serde::{Deserializer, Serializer};
use serde::{Deserialize, Serialize};
use vstd::prelude::*;
use vstd::utf8::{decode_utf8, encode_utf8, valid_utf8};

use crate::operation::{Async, Poll};
use crate::wire::{
    word_bytes, word_bytes_len, word_value, word_value_bound, word_value_of_word_bytes,
    word_values, word_values_of_machine_words, ByteOrder,
};

verus! {

/// A value that can be sent over a channel.
///
/// `encoding` and `decoding` are MessagePack; reading stops at the end of the first value, so that
/// bytes behind it change nothing.
pub trait Message: View + Sized {
    /// The bytes that stand for a value.
    spec fn encoding(value: Self::V) -> Seq<u8>;

    /// The value at the front of `bytes`, if a value of this type stands there.
    spec fn decoding(bytes: Seq<u8>) -> Option<Self::V>;

    /// Whether a value is small enough for its encoding to hold all of it.
    spec fn representable(value: Self::V) -> bool;

    /// What was encoded is decoded again, whatever comes behind it.
    proof fn decoding_of_encoding(value: Self::V, behind: Seq<u8>)
        requires
            Self::representable(value),
        ensures
            Self::decoding(Self::encoding(value) + behind) == Some(value),
    ;

    /// Where a value stands at the front, what comes behind the bytes changes nothing.
    proof fn decoding_ignores_behind(bytes: Seq<u8>, behind: Seq<u8>)
        requires
            Self::decoding(bytes) is Some,
        ensures
            Self::decoding(bytes + behind) == Self::decoding(bytes),
    ;

    /// The bytes that stand for this value.
    fn encode(&self) -> (bytes: Vec<u8>)
        ensures
            bytes@ == Self::encoding(self@),
    ;

    /// The value at the front of `bytes`; `None` exactly where no value of this type stands there.
    fn decode(bytes: &[u8]) -> (value: Option<Self>)
        ensures
            match value {
                Some(v) => Self::decoding(bytes@) == Some(v@),
                None => Self::decoding(bytes@) is None,
            },
    ;
}

/// What was encoded is decoded again where nothing comes behind it.
pub proof fn decoding_of_whole_encoding<T: Message>(value: T::V)
    requires
        T::representable(value),
    ensures
        T::decoding(T::encoding(value)) == Some(value),
{
    T::decoding_of_encoding(value, Seq::empty());
    assert(T::encoding(value) + Seq::<u8>::empty() =~= T::encoding(value));
}

/// The value that a received message holds.
pub fn received<T: Message>(bytes: &[u8]) -> (value: T)
    requires
        T::decoding(bytes@) is Some,
    ensures
        T::decoding(bytes@) == Some(value@),
{
    match T::decode(bytes) {
        Some(value) => value,
        None => vstd::pervasive::unreached(),
    }
}

/// The value in a message, once the message is there.
pub fn received_once_ready<T: Message>(message: Poll<&[u8]>) -> (value: Poll<T>)
    requires
        message matches Ok(Async::Ready(m)) ==> T::decoding(m@) is Some,
    ensures
        match message {
            Ok(Async::Ready(m)) => value matches Ok(Async::Ready(v)) && T::decoding(m@) == Some(v@),
            Ok(Async::NotReady) => value matches Ok(Async::NotReady),
            Err(e) => value matches Err(f) && f == e,
        },
{
    match message {
        Ok(Async::Ready(m)) => Ok(Async::Ready(received(m))),
        Ok(Async::NotReady) => Ok(Async::NotReady),
        Err(e) => Err(e),
    }
}

/// The width in bytes of the number behind the marker that is `step` places after the first marker
/// of its kind: MessagePack doubles the width from one marker to the next.
pub open spec fn field_width(step: int) -> nat {
    if step == 0 {
        1
    } else if step == 1 {
        2
    } else if step == 2 {
        4
    } else {
        8
    }
}

/// The big-endian number of `width` bytes behind the marker, if all of it is there.
pub open spec fn field(bytes: Seq<u8>, width: nat) -> Option<nat> {
    if bytes.len() >= 1 + width {
        Some(word_value(bytes.subrange(1, 1 + width as int), ByteOrder::Big))
    } else {
        None
    }
}

/// The number that a two's complement field of `width` bytes stands for.
pub open spec fn signed(n: nat, width: nat) -> int {
    if 2 * n < word_values(width) {
        n as int
    } else {
        n - word_values(width)
    }
}

/// The integer at the front of `bytes`, in whichever of MessagePack's integer formats it is.
pub open spec fn integer_decoding(bytes: Seq<u8>) -> Option<int> {
    if bytes.len() == 0 {
        None
    } else if bytes[0] < 0x80 {
        Some(bytes[0] as int)
    } else if bytes[0] >= 0xe0 {
        Some(bytes[0] - 0x100)
    } else if 0xcc <= bytes[0] <= 0xcf {
        match field(bytes, field_width(bytes[0] - 0xcc)) {
            Some(n) => Some(n as int),
            None => None,
        }
    } else if 0xd0 <= bytes[0] <= 0xd3 {
        match field(bytes, field_width(bytes[0] - 0xd0)) {
            Some(n) => Some(signed(n, field_width(bytes[0] - 0xd0))),
            None => None,
        }
    } else {
        None
    }
}

/// The `i32` at the front of `bytes`: an integer of any format that is in range.
pub open spec fn i32_decoding(bytes: Seq<u8>) -> Option<i32> {
    match integer_decoding(bytes) {
        Some(n) => if i32::MIN <= n <= i32::MAX {
            Some(n as i32)
        } else {
            None
        },
        None => None,
    }
}

/// A marker and a big-endian field.
pub open spec fn marked(marker: u8, n: int, width: nat) -> Seq<u8> {
    seq![marker] + word_bytes(n as nat, width, ByteOrder::Big)
}

/// The shortest MessagePack integer that stands for `v`.
pub open spec fn i32_encoding(v: i32) -> Seq<u8> {
    if 0 <= v < 0x80 {
        seq![v as u8]
    } else if -0x20 <= v < 0 {
        seq![(v + 0x100) as u8]
    } else if 0 <= v < 0x100 {
        marked(0xcc, v as int, 1)
    } else if 0 <= v < 0x1_0000 {
        marked(0xcd, v as int, 2)
    } else if 0 <= v {
        marked(0xce, v as int, 4)
    } else if -0x80 <= v {
        marked(0xd0, v + 0x100, 1)
    } else if -0x8000 <= v {
        marked(0xd1, v + 0x1_0000, 2)
    } else {
        marked(0xd2, v + 0x1_0000_0000, 4)
    }
}

/// The `len` bytes of text that start at `start`, if they are all there and are UTF-8.
pub open spec fn text(bytes: Seq<u8>, start: int, len: nat) -> Option<Seq<char>> {
    if start + len <= bytes.len() && valid_utf8(bytes.subrange(start, start + len)) {
        Some(decode_utf8(bytes.subrange(start, start + len)))
    } else {
        None
    }
}

/// The text behind a length of `width` bytes.
pub open spec fn measured_text(bytes: Seq<u8>, width: nat) -> Option<Seq<char>> {
    match field(bytes, width) {
        Some(len) => text(bytes, 1 + width as int, len),
        None => None,
    }
}

/// The text at the front of `bytes`: a MessagePack string, or binary data that is UTF-8.
pub open spec fn string_decoding(bytes: Seq<u8>) -> Option<Seq<char>> {
    if bytes.len() == 0 {
        None
    } else if 0xa0 <= bytes[0] <= 0xbf {
        text(bytes, 1, (bytes[0] - 0xa0) as nat)
    } else if 0xd9 <= bytes[0] <= 0xdb {
        measured_text(bytes, field_width(bytes[0] - 0xd9))
    } else if 0xc4 <= bytes[0] <= 0xc6 {
        measured_text(bytes, field_width(bytes[0] - 0xc4))
    } else {
        None
    }
}

/// The shortest MessagePack string head for a text of `len` bytes; it holds the low 32 bits of the
/// length.
pub open spec fn string_head(len: nat) -> Seq<u8> {
    let n = len as int % 0x1_0000_0000;
    if n < 0x20 {
        seq![(0xa0 + n) as u8]
    } else if n < 0x100 {
        marked(0xd9, n, 1)
    } else if n < 0x1_0000 {
        marked(0xda, n, 2)
    } else {
        marked(0xdb, n, 4)
    }
}

/// The MessagePack string that stands for a text.
pub open spec fn string_encoding(s: Seq<char>) -> Seq<u8> {
    string_head(encode_utf8(s).len()) + encode_utf8(s)
}

/// The error of `rmp_serde`'s decoder. Nothing is known of a value of it.
#[verifier::external_type_specification]
#[verifier::external_body]
pub struct ExDecodeError(rmp_serde::decode::Error);

/// Calls `serde::Serialize::serialize` for `i32` on an `rmp_serde::Serializer` that writes to a
/// fresh `Vec<u8>`. Claimed: the vector then holds the shortest MessagePack integer for the value
/// (`rmp::encode::write_sint`). Writing to a vector does not fail.
#[verifier::external_body]
fn serialize_i32(v: i32) -> (bytes: Vec<u8>)
    ensures
        bytes@ == i32_encoding(v),
{
    let mut buf = Vec::new();
    v.serialize(&mut Serializer::new(&mut buf)).unwrap();
    buf
}

/// Calls `serde::Deserialize::deserialize` for `i32` on an `rmp_serde::Deserializer` that reads
/// `bytes`. Claimed: it succeeds exactly where a MessagePack integer of any width stands at the
/// front, complete and in the range of `i32`, and gives that integer.
#[verifier::external_body]
fn deserialize_i32(bytes: &[u8]) -> (value: Result<i32, rmp_serde::decode::Error>)
    ensures
        match value {
            Ok(v) => i32_decoding(bytes@) == Some(v),
            Err(_) => i32_decoding(bytes@) is None,
        },
{
    Deserialize::deserialize(&mut Deserializer::new(bytes))
}

/// Calls `serde::Serialize::serialize` for `str` on an `rmp_serde::Serializer` that writes to a
/// fresh `Vec<u8>`. Claimed: the vector then holds the shortest head for the length
/// (`rmp::encode::write_str`), of which 32 bits are kept, and the UTF-8 bytes of the text. Writing
/// to a vector does not fail.
#[verifier::external_body]
fn serialize_str(s: &str) -> (bytes: Vec<u8>)
    ensures
        bytes@ == string_encoding(s@),
{
    let mut buf = Vec::new();
    s.serialize(&mut Serializer::new(&mut buf)).unwrap();
    buf
}

/// Calls `serde::Deserialize::deserialize` for `String` on an `rmp_serde::Deserializer` that reads
/// `bytes`. Claimed: it succeeds exactly where a MessagePack string, or MessagePack binary data,
/// stands complete at the front and its bytes are UTF-8, and gives that text.
#[verifier::external_body]
fn deserialize_string(bytes: &[u8]) -> (value: Result<String, rmp_serde::decode::Error>)
    ensures
        match value {
            Ok(v) => string_decoding(bytes@) == Some(v@),
            Err(_) => string_decoding(bytes@) is None,
        },
{
    Deserialize::deserialize(&mut Deserializer::new(bytes))
}

/// A field is read back from behind its marker, whatever comes behind it.
proof fn lemma_field_of_marked(marker: u8, n: int, width: nat, behind: Seq<u8>)
    requires
        0 <= n < word_values(width),
    ensures
        marked(marker, n, width).len() == 1 + width,
        (marked(marker, n, width) + behind)[0] == marker,
        field(marked(marker, n, width) + behind, width) == Some(n as nat),
{
    let word = word_bytes(n as nat, width, ByteOrder::Big);
    word_bytes_len(n as nat, width, ByteOrder::Big);
    word_value_of_word_bytes(n as nat, width, ByteOrder::Big);
    assert((marked(marker, n, width) + behind).subrange(1, 1 + width as int) =~= word);
}

/// A field that is there is read the same, whatever comes behind it.
proof fn lemma_field_ignores_behind(bytes: Seq<u8>, width: nat, behind: Seq<u8>)
    requires
        field(bytes, width) is Some,
    ensures
        field(bytes + behind, width) == field(bytes, width),
{
    assert((bytes + behind).subrange(1, 1 + width as int) =~= bytes.subrange(1, 1 + width as int));
}

/// A text that is there is read the same, whatever comes behind it.
proof fn lemma_text_ignores_behind(bytes: Seq<u8>, start: int, len: nat, behind: Seq<u8>)
    requires
        0 <= start,
        text(bytes, start, len) is Some,
    ensures
        text(bytes + behind, start, len) == text(bytes, start, len),
{
    assert((bytes + behind).subrange(start, start + len) =~= bytes.subrange(start, start + len));
}

/// The same of a text behind its length.
proof fn lemma_measured_text_ignores_behind(bytes: Seq<u8>, width: nat, behind: Seq<u8>)
    requires
        measured_text(bytes, width) is Some,
    ensures
        measured_text(bytes + behind, width) == measured_text(bytes, width),
{
    lemma_field_ignores_behind(bytes, width, behind);
    lemma_text_ignores_behind(bytes, 1 + width as int, field(bytes, width)->0, behind);
}

impl Message for i32 {
    open spec fn encoding(value: i32) -> Seq<u8> {
        i32_encoding(value)
    }

    open spec fn decoding(bytes: Seq<u8>) -> Option<i32> {
        i32_decoding(bytes)
    }

    open spec fn representable(value: i32) -> bool {
        true
    }

    proof fn decoding_of_encoding(value: i32, behind: Seq<u8>) {
        let v = value as int;
        word_values_of_machine_words();
        if -0x20 <= v < 0x80 {
        } else if 0 <= v < 0x100 {
            lemma_field_of_marked(0xcc, v, 1, behind);
        } else if 0 <= v < 0x1_0000 {
            lemma_field_of_marked(0xcd, v, 2, behind);
        } else if 0 <= v {
            lemma_field_of_marked(0xce, v, 4, behind);
        } else if -0x80 <= v {
            lemma_field_of_marked(0xd0, v + 0x100, 1, behind);
        } else if -0x8000 <= v {
            lemma_field_of_marked(0xd1, v + 0x1_0000, 2, behind);
        } else {
            lemma_field_of_marked(0xd2, v + 0x1_0000_0000, 4, behind);
        }
    }

    proof fn decoding_ignores_behind(bytes: Seq<u8>, behind: Seq<u8>) {
        if 0xcc <= bytes[0] <= 0xcf {
            lemma_field_ignores_behind(bytes, field_width(bytes[0] - 0xcc), behind);
        } else if 0xd0 <= bytes[0] <= 0xd3 {
            lemma_field_ignores_behind(bytes, field_width(bytes[0] - 0xd0), behind);
        }
    }

    fn encode(&self) -> Vec<u8> {
        serialize_i32(*self)
    }

    fn decode(bytes: &[u8]) -> Option<i32> {
        match deserialize_i32(bytes) {
            Ok(value) => Some(value),
            Err(_) => None,
        }
    }
}

impl Message for String {
    open spec fn encoding(value: Seq<char>) -> Seq<u8> {
        string_encoding(value)
    }

    open spec fn decoding(bytes: Seq<u8>) -> Option<Seq<char>> {
        string_decoding(bytes)
    }

    open spec fn representable(value: Seq<char>) -> bool {
        encode_utf8(value).len() < 0x1_0000_0000
    }

    proof fn decoding_of_encoding(value: Seq<char>, behind: Seq<u8>) {
        let body = encode_utf8(value);
        let n = body.len() as int;
        let head = string_head(body.len());
        let bytes = string_encoding(value) + behind;
        vstd::utf8::encode_utf8_valid_utf8(value);
        vstd::utf8::encode_utf8_decode_utf8(value);
        word_values_of_machine_words();
        assert(bytes =~= head + (body + behind));
        if n < 0x20 {
        } else if n < 0x100 {
            lemma_field_of_marked(0xd9, n, 1, body + behind);
        } else if n < 0x1_0000 {
            lemma_field_of_marked(0xda, n, 2, body + behind);
        } else {
            lemma_field_of_marked(0xdb, n, 4, body + behind);
        }
        assert(bytes.subrange(head.len() as int, head.len() + n) =~= body);
    }

    proof fn decoding_ignores_behind(bytes: Seq<u8>, behind: Seq<u8>) {
        if 0xa0 <= bytes[0] <= 0xbf {
            lemma_text_ignores_behind(bytes, 1, (bytes[0] - 0xa0) as nat, behind);
        } else if 0xd9 <= bytes[0] <= 0xdb {
            lemma_measured_text_ignores_behind(bytes, field_width(bytes[0] - 0xd9), behind);
        } else {
            lemma_measured_text_ignores_behind(bytes, field_width(bytes[0] - 0xc4), behind);
        }
    }

    fn encode(&self) -> Vec<u8> {
        serialize_str(self.as_str())
    }

    fn decode(bytes: &[u8]) -> Option<String> {
        match deserialize_string(bytes) {
            Ok(value) => Some(value),
            Err(_) => None,
        }
    }
}

/// Whether a number behind the marker `step` places after the first of its kind has `width` bytes.
pub open spec fn has_width(step: int, width: nat) -> bool {
    ||| step == 0 && width == 1
    ||| step == 1 && width == 2
    ||| step == 2 && width == 4
    ||| step == 3 && width == 8
}

/// An integer is read in every format that it fits, not only in the shortest: as one byte, behind
/// each marker of unsigned numbers, and behind each marker of signed numbers, in two's complement.
pub proof fn integers_of_any_width_are_read(v: i32, step: int, width: nat, behind: Seq<u8>)
    requires
        has_width(step, width),
    ensures
        0 <= v < 128 ==> <i32 as Message>::decoding(seq![v as u8] + behind) == Some(v),
        -32 <= v < 0 ==> <i32 as Message>::decoding(seq![(v + 256) as u8] + behind) == Some(v),
        0 <= v < word_values(width) ==> <i32 as Message>::decoding(
            seq![(0xcc + step) as u8] + word_bytes(v as nat, width, ByteOrder::Big) + behind,
        ) == Some(v),
        0 <= 2 * v < word_values(width) ==> <i32 as Message>::decoding(
            seq![(0xd0 + step) as u8] + word_bytes(v as nat, width, ByteOrder::Big) + behind,
        ) == Some(v),
        -word_values(width) <= 2 * v < 0 ==> <i32 as Message>::decoding(
            seq![(0xd0 + step) as u8] + word_bytes(
                (v + word_values(width)) as nat,
                width,
                ByteOrder::Big,
            ) + behind,
        ) == Some(v),
{
    word_values_of_machine_words();
    if 0 <= v < word_values(width) {
        lemma_field_of_marked((0xcc + step) as u8, v as int, width, behind);
        lemma_field_of_marked((0xd0 + step) as u8, v as int, width, behind);
    }
    if -word_values(width) <= 2 * v < 0 {
        lemma_field_of_marked((0xd0 + step) as u8, v + word_values(width), width, behind);
    }
}

/// What is read as an integer is that integer: the first byte is a marker of integers, the number
/// behind it is there whole, and it stands for the value, as it is or in two's complement. So bytes
/// that hold no integer, a part of one, or one that is out of range are refused.
pub proof fn only_integers_are_read(bytes: Seq<u8>, step: int, width: nat)
    requires
        <i32 as Message>::decoding(bytes) is Some,
        has_width(step, width),
    ensures
        bytes.len() > 0,
        bytes[0] < 0x80 || 0xcc <= bytes[0] <= 0xd3 || 0xe0 <= bytes[0],
        ({
            let v = <i32 as Message>::decoding(bytes)->0;
            let number = word_value(bytes.subrange(1, 1 + width as int), ByteOrder::Big);
            &&& bytes[0] < 0x80 ==> v == bytes[0]
            &&& bytes[0] >= 0xe0 ==> v == bytes[0] - 256
            &&& bytes[0] == 0xcc + step ==> bytes.len() >= 1 + width && v == number
            &&& bytes[0] == 0xd0 + step ==> bytes.len() >= 1 + width && -word_values(width) <= 2 * v
                < word_values(width) && (v == number || v == number - word_values(width))
        }),
{
    word_values_of_machine_words();
    if bytes[0] == 0xcc + step || bytes[0] == 0xd0 + step {
        if bytes.len() >= 1 + width {
            word_value_bound(bytes.subrange(1, 1 + width as int), ByteOrder::Big);
        }
    }
}

/// No bytes that stand for an integer are fewer than those it is sent as. A number that is not
/// negative is sent as an unsigned one, any other as a signed one.
pub proof fn integers_are_sent_short(v: i32, bytes: Seq<u8>)
    requires
        <i32 as Message>::decoding(bytes) == Some(v),
    ensures
        <i32 as Message>::encoding(v).len() <= bytes.len(),
        v >= 0 ==> <i32 as Message>::encoding(v)[0] < 0xd0,
        v < 0 ==> <i32 as Message>::encoding(v)[0] >= 0xd0,
        <i32 as Message>::decoding(<i32 as Message>::encoding(v)) == Some(v),
{
    word_values_of_machine_words();
    decoding_of_whole_encoding::<i32>(v);
    word_bytes_len(v as nat, 1, ByteOrder::Big);
    word_bytes_len(v as nat, 2, ByteOrder::Big);
    word_bytes_len(v as nat, 4, ByteOrder::Big);
    word_bytes_len((v + 0x100) as nat, 1, ByteOrder::Big);
    word_bytes_len((v + 0x1_0000) as nat, 2, ByteOrder::Big);
    word_bytes_len((v + 0x1_0000_0000) as nat, 4, ByteOrder::Big);
    only_integers_are_read(bytes, 0, 1);
    only_integers_are_read(bytes, 1, 2);
    only_integers_are_read(bytes, 2, 4);
    only_integers_are_read(bytes, 3, 8);
    if bytes.len() >= 2 {
        word_value_bound(bytes.subrange(1, 2), ByteOrder::Big);
    }
    if bytes.len() >= 3 {
        word_value_bound(bytes.subrange(1, 3), ByteOrder::Big);
    }
}

/// A text is read behind a length of every width that it fits, as a string or as binary data.
pub proof fn texts_of_any_width_are_read(s: Seq<char>, step: int, width: nat, behind: Seq<u8>)
    requires
        has_width(step, width),
        step < 3,
    ensures
        encode_utf8(s).len() < 32 ==> <String as Message>::decoding(
            seq![(0xa0 + encode_utf8(s).len()) as u8] + encode_utf8(s) + behind,
        ) == Some(s),
        encode_utf8(s).len() < word_values(width) ==> <String as Message>::decoding(
            seq![(0xd9 + step) as u8] + word_bytes(encode_utf8(s).len(), width, ByteOrder::Big)
                + encode_utf8(s) + behind,
        ) == Some(s),
        encode_utf8(s).len() < word_values(width) ==> <String as Message>::decoding(
            seq![(0xc4 + step) as u8] + word_bytes(encode_utf8(s).len(), width, ByteOrder::Big)
                + encode_utf8(s) + behind,
        ) == Some(s),
{
    let body = encode_utf8(s);
    let n = body.len() as int;
    vstd::utf8::encode_utf8_valid_utf8(s);
    vstd::utf8::encode_utf8_decode_utf8(s);
    if n < 32 {
        let bytes = seq![(0xa0 + body.len()) as u8] + body + behind;
        assert(bytes.subrange(1, 1 + n) =~= body);
    }
    if n < word_values(width) {
        lemma_measured_text_is_read(s, (0xd9 + step) as u8, width, behind);
        lemma_measured_text_is_read(s, (0xc4 + step) as u8, width, behind);
    }
}

/// A text behind its length is read back.
proof fn lemma_measured_text_is_read(s: Seq<char>, marker: u8, width: nat, behind: Seq<u8>)
    requires
        encode_utf8(s).len() < word_values(width),
    ensures
        ({
            let bytes = seq![marker] + word_bytes(encode_utf8(s).len(), width, ByteOrder::Big)
                + encode_utf8(s) + behind;
            bytes[0] == marker && measured_text(bytes, width) == Some(s)
        }),
{
    let body = encode_utf8(s);
    let n = body.len() as int;
    let head = marked(marker, n, width);
    let bytes = seq![marker] + word_bytes(body.len(), width, ByteOrder::Big) + body + behind;
    vstd::utf8::encode_utf8_valid_utf8(s);
    vstd::utf8::encode_utf8_decode_utf8(s);
    lemma_field_of_marked(marker, n, width, body + behind);
    assert(bytes =~= head + (body + behind));
    assert(bytes.subrange(1 + width as int, 1 + width + n) =~= body);
}

/// What is read as a text is that text: the first byte is a marker of strings or of binary data, the
/// length behind it is there whole, and behind that stand so many bytes, which are the text in
/// UTF-8. So bytes that hold no text, or only a part of one, are refused.
pub proof fn only_texts_are_read(bytes: Seq<u8>, step: int, width: nat)
    requires
        <String as Message>::decoding(bytes) is Some,
        has_width(step, width),
        step < 3,
    ensures
        bytes.len() > 0,
        0xa0 <= bytes[0] <= 0xbf || 0xd9 <= bytes[0] <= 0xdb || 0xc4 <= bytes[0] <= 0xc6,
        ({
            let body = encode_utf8(<String as Message>::decoding(bytes)->0);
            let n = body.len() as int;
            let w = width as int;
            &&& 0xa0 <= bytes[0] <= 0xbf ==> n == bytes[0] - 0xa0 && 1 + n <= bytes.len()
                && bytes.subrange(1, 1 + n) == body
            &&& bytes[0] == 0xd9 + step || bytes[0] == 0xc4 + step ==> 1 + w + n <= bytes.len() && n
                == word_value(bytes.subrange(1, 1 + w), ByteOrder::Big) && bytes.subrange(
                1 + w,
                1 + w + n,
            ) == body
        }),
{
    let w = width as int;
    if 0xa0 <= bytes[0] <= 0xbf {
        vstd::utf8::decode_utf8_encode_utf8(bytes.subrange(1, 1 + (bytes[0] - 0xa0)));
    } else if bytes[0] == 0xd9 + step || bytes[0] == 0xc4 + step {
        let n = word_value(bytes.subrange(1, 1 + w), ByteOrder::Big) as int;
        assert(measured_text(bytes, width) is Some);
        vstd::utf8::decode_utf8_encode_utf8(bytes.subrange(1 + w, 1 + w + n));
    }
}

/// No bytes that stand for a text are fewer than those it is sent as: a string, which ends with the
/// text in UTF-8. Every text of less than 4 GiB can be sent, and every integer.
pub proof fn texts_are_sent_short(s: Seq<char>, bytes: Seq<u8>, v: i32)
    requires
        <String as Message>::decoding(bytes) == Some(s),
    ensures
        <String as Message>::encoding(s).len() <= bytes.len(),
        0xa0 <= <String as Message>::encoding(s)[0] <= 0xdb,
        <String as Message>::encoding(s)[0] <= 0xbf || <String as Message>::encoding(s)[0] >= 0xd9,
        <String as Message>::encoding(s).skip(
            <String as Message>::encoding(s).len() - encode_utf8(s).len(),
        ) == encode_utf8(s),
        encode_utf8(s).len() < 0x1_0000_0000,
        <String as Message>::representable(s),
        <i32 as Message>::representable(v),
{
    let body = encode_utf8(s);
    let n = body.len();
    word_values_of_machine_words();
    word_bytes_len(n, 1, ByteOrder::Big);
    word_bytes_len(n, 2, ByteOrder::Big);
    word_bytes_len(n, 4, ByteOrder::Big);
    only_texts_are_read(bytes, 0, 1);
    only_texts_are_read(bytes, 1, 2);
    only_texts_are_read(bytes, 2, 4);
    if bytes.len() >= 2 {
        word_value_bound(bytes.subrange(1, 2), ByteOrder::Big);
    }
    if bytes.len() >= 3 {
        word_value_bound(bytes.subrange(1, 3), ByteOrder::Big);
    }
    if bytes.len() >= 5 {
        word_value_bound(bytes.subrange(1, 5), ByteOrder::Big);
    }
    let e = string_encoding(s);
    assert(e.skip(e.len() - n) =~= body);
}

} // verus!

use ipc::buffer::{message_at_end, put_at_front, zeroed, MESSAGE_ROOM};
use ipc::message::{received, received_once_ready, Message};
use ipc::operation::{Async, IpcError, Poll};

fn i32_of(bytes: &[u8]) -> Option<i32> {
    Message::decode(bytes)
}

fn string_of(bytes: &[u8]) -> Option<String> {
    Message::decode(bytes)
}

#[test]
fn integers_take_the_shortest_format() {
    let cases: Vec<(i32, Vec<u8>)> = vec![
        (0, vec![0]),
        (4, vec![4]),
        (127, vec![0x7f]),
        (128, vec![0xcc, 0x80]),
        (255, vec![0xcc, 0xff]),
        (256, vec![0xcd, 1, 0]),
        (2019, vec![0xcd, 0x07, 0xe3]),
        (65535, vec![0xcd, 0xff, 0xff]),
        (65536, vec![0xce, 0, 1, 0, 0]),
        (i32::MAX, vec![0xce, 0x7f, 0xff, 0xff, 0xff]),
        (-1, vec![0xff]),
        (-32, vec![0xe0]),
        (-33, vec![0xd0, 0xdf]),
        (-128, vec![0xd0, 0x80]),
        (-129, vec![0xd1, 0xff, 0x7f]),
        (-32768, vec![0xd1, 0x80, 0]),
        (-32769, vec![0xd2, 0xff, 0xff, 0x7f, 0xff]),
        (i32::MIN, vec![0xd2, 0x80, 0, 0, 0]),
    ];
    for (value, bytes) in cases {
        assert_eq!(value.encode(), bytes);
        assert_eq!(i32_of(&bytes), Some(value));
        let mut longer = bytes.clone();
        longer.extend_from_slice(&[0, 0xc1, 7]);
        assert_eq!(i32_of(&longer), Some(value));
    }
}

#[test]
fn integers_are_read_in_any_format_that_fits() {
    assert_eq!(i32_of(&[0xcf, 0, 0, 0, 0, 0, 0, 7, 0xe3]), Some(2019));
    assert_eq!(i32_of(&[0xd3, 0xff, 0xff, 0xff, 0xff, 0xff, 0xff, 0xff, 0xfe]), Some(-2));
    assert_eq!(i32_of(&[0xcc, 5]), Some(5));
    assert_eq!(i32_of(&[0xd2, 0, 0, 0, 5]), Some(5));
}

#[test]
fn what_is_no_integer_in_range_is_refused() {
    assert_eq!(i32_of(&[]), None);
    assert_eq!(i32_of(&[0xcd, 7]), None);
    assert_eq!(i32_of(&[0xce, 0x80, 0, 0, 0]), None);
    assert_eq!(i32_of(&[0xcf, 0, 0, 0, 1, 0, 0, 0, 0]), None);
    assert_eq!(i32_of(&[0xd3, 0xff, 0xff, 0xff, 0xff, 0x7f, 0xff, 0xff, 0xff]), None);
    assert_eq!(i32_of(&[0xc0]), None);
    assert_eq!(i32_of(&[0xc2]), None);
    assert_eq!(i32_of(&[0xa1, 0x31]), None);
    assert_eq!(i32_of(&[0xca, 0, 0, 0, 0]), None);
    assert_eq!(i32_of(&[0x91, 1]), None);
}

#[test]
fn strings_take_the_shortest_head() {
    let heads: Vec<(usize, Vec<u8>)> = vec![
        (0, vec![0xa0]),
        (31, vec![0xbf]),
        (32, vec![0xd9, 32]),
        (255, vec![0xd9, 255]),
        (256, vec![0xda, 1, 0]),
        (65535, vec![0xda, 0xff, 0xff]),
        (65536, vec![0xdb, 0, 1, 0, 0]),
    ];
    for (len, head) in heads {
        let text = "x".repeat(len);
        let bytes = text.encode();
        assert_eq!(&bytes[..head.len()], &head[..]);
        assert_eq!(&bytes[head.len()..], text.as_bytes());
        assert_eq!(string_of(&bytes), Some(text));
    }
    assert_eq!("h\u{e9}".to_string().encode(), vec![0xa3, 0x68, 0xc3, 0xa9]);
}

#[test]
fn binary_data_that_is_text_is_read_as_text() {
    assert_eq!(string_of(&[0xc4, 2, 0x68, 0x69]), Some("hi".to_string()));
    assert_eq!(string_of(&[0xc5, 0, 2, 0x68, 0x69]), Some("hi".to_string()));
    assert_eq!(string_of(&[0xc6, 0, 0, 0, 2, 0x68, 0x69, 0xff]), Some("hi".to_string()));
    assert_eq!(string_of(&[0xc4, 1, 0xff]), None);
}

#[test]
fn what_is_no_text_is_refused() {
    assert_eq!(string_of(&[]), None);
    assert_eq!(string_of(&[0xa2, 0x68]), None);
    assert_eq!(string_of(&[0xd9]), None);
    assert_eq!(string_of(&[0xda, 0]), None);
    assert_eq!(string_of(&[0xa1, 0xff]), None);
    assert_eq!(string_of(&[0xa3, 0xed, 0xa0, 0x80]), None);
    assert_eq!(string_of(&[0x05]), None);
    assert_eq!(string_of(&[0xc0]), None);
    assert_eq!(string_of(&[0x91, 0xa1, 0x68]), None);
}

#[test]
fn a_received_message_holds_its_value() {
    assert_eq!(received::<i32>(&[0xcd, 0x07, 0xe3, 0, 0]), 2019);
    assert_eq!(received::<String>(&[0xa2, 0x68, 0x69, 1]), "hi");
    let ready: Poll<&[u8]> = Ok(Async::Ready(&[4]));
    assert_eq!(received_once_ready::<i32>(ready), Ok(Async::Ready(4)));
    assert_eq!(received_once_ready::<i32>(Ok(Async::NotReady)), Ok(Async::NotReady));
    assert_eq!(received_once_ready::<i32>(Err(IpcError::Os(5))), Err(IpcError::Os(5)));
}

#[test]
fn a_message_is_found_at_the_end() {
    let buf = [0u8, 0, 7, 8, 9];
    assert_eq!(message_at_end(&buf, Ok(Async::Ready(3))), Ok(Async::Ready(&[7u8, 8, 9][..])));
    assert_eq!(message_at_end(&buf, Ok(Async::Ready(0))), Ok(Async::Ready(&[][..])));
    assert_eq!(message_at_end(&buf, Ok(Async::NotReady)), Ok(Async::NotReady));
    assert_eq!(message_at_end(&buf, Err(IpcError::InvalidData)), Err(IpcError::InvalidData));
}

#[test]
fn a_message_is_put_at_the_front() {
    let mut buf = [1u8, 2, 3, 4];
    put_at_front(&mut buf, &[8, 9]);
    assert_eq!(buf, [8, 9, 3, 4]);
    put_at_front(&mut buf, &[]);
    assert_eq!(buf, [8, 9, 3, 4]);
    put_at_front(&mut buf, &[5, 6, 7, 8]);
    assert_eq!(buf, [5, 6, 7, 8]);
}

#[test]
fn a_receive_buffer_is_blank() {
    assert_eq!(MESSAGE_ROOM, 65536);
    let buf = zeroed(MESSAGE_ROOM);
    assert_eq!(buf.len(), 65536);
    assert!(buf.iter().all(|b| *b == 0));
}

/// The big-endian number behind the marker.
fn number(bytes: &[u8], width: usize) -> Option<u64> {
    let field = bytes.get(1..1 + width)?;
    Some(field.iter().fold(0, |n, b| n << 8 | *b as u64))
}

fn expected_i32(bytes: &[u8]) -> Option<i32> {
    let n: i128 = match *bytes.first()? {
        b @ 0..=0x7f => b as i128,
        b @ 0xe0..=0xff => b as i8 as i128,
        b @ 0xcc..=0xcf => number(bytes, 1 << (b - 0xcc))? as i128,
        0xd0 => number(bytes, 1)? as i8 as i128,
        0xd1 => number(bytes, 2)? as i16 as i128,
        0xd2 => number(bytes, 4)? as i32 as i128,
        0xd3 => number(bytes, 8)? as i64 as i128,
        _ => return None,
    };
    i32::try_from(n).ok()
}

fn expected_string(bytes: &[u8]) -> Option<String> {
    let (start, len): (usize, usize) = match *bytes.first()? {
        b @ 0xa0..=0xbf => (1, (b - 0xa0) as usize),
        b @ 0xd9..=0xdb => (1 + (1 << (b - 0xd9)), number(bytes, 1 << (b - 0xd9))? as usize),
        b @ 0xc4..=0xc6 => (1 + (1 << (b - 0xc4)), number(bytes, 1 << (b - 0xc4))? as usize),
        _ => return None,
    };
    let text = bytes.get(start..start.checked_add(len)?)?;
    String::from_utf8(text.to_vec()).ok()
}

#[test]
fn bytes_behind_a_value_change_nothing() {
    for marker in 0..=255u8 {
        for len in 0..12 {
            let mut bytes = vec![marker];
            bytes.extend_from_slice(&[0, 0, 0, 2, 0x61, 0x62, 0, 0, 9, 9, 9, 9][..len]);
            let mut longer = bytes.clone();
            longer.extend_from_slice(&[0xff, 0xc1, 0, 7]);
            if i32_of(&bytes).is_some() {
                assert_eq!(i32_of(&longer), i32_of(&bytes));
            }
            if string_of(&bytes).is_some() {
                assert_eq!(string_of(&longer), string_of(&bytes));
            }
        }
    }
}

#[test]
fn every_marker_is_read_as_it_should_be() {
    let tails: Vec<Vec<u8>> = vec![
        vec![0; 40],
        vec![1; 40],
        vec![0x61; 40],
        vec![0x7f; 40],
        vec![0x80; 40],
        vec![0xff; 40],
        vec![0, 0, 0, 2, 0x61, 0x62, 0x63, 0x64, 0x65, 0x66, 0x67, 0x68],
        vec![0, 2, 0x61, 0x62, 0xc3, 0xa9, 0xff, 1, 2, 3, 4, 5],
        vec![2, 0x61, 0x62, 0xc3, 0xa9, 0xff, 1, 2, 3, 4, 5, 6],
        vec![0xc3, 0xa9, 0xe2, 0x82, 0xac, 0xf0, 0x9f, 0xa6, 0x80, 0xed, 0xa0, 0x80],
        vec![0, 0, 0, 0, 0x80, 0, 0, 0, 1, 2, 3, 4],
        vec![0xff, 0xff, 0xff, 0xff, 0x80, 0, 0, 0, 1, 2, 3, 4],
    ];
    for marker in 0..=255u8 {
        for tail in &tails {
            for len in 0..=tail.len() {
                let mut bytes = vec![marker];
                bytes.extend_from_slice(&tail[..len]);
                assert_eq!(i32_of(&bytes), expected_i32(&bytes), "{:?}", bytes);
                assert_eq!(string_of(&bytes), expected_string(&bytes), "{:?}", bytes);
            }
        }
    }
}

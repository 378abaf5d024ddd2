use ipc::wire::{decode_word, encode_word, ByteOrder};

#[test]
fn words_have_the_order_that_is_asked_for() {
    assert_eq!(encode_word(0x0102_0304, 4, ByteOrder::Little), vec![4, 3, 2, 1]);
    assert_eq!(encode_word(0x0102_0304, 4, ByteOrder::Big), vec![1, 2, 3, 4]);
    assert_eq!(encode_word(2019, 8, ByteOrder::Little), vec![0xe3, 7, 0, 0, 0, 0, 0, 0]);
    assert_eq!(encode_word(2019, 8, ByteOrder::Big), vec![0, 0, 0, 0, 0, 0, 7, 0xe3]);
}

#[test]
fn a_word_that_is_too_narrow_keeps_the_low_digits() {
    assert_eq!(encode_word(0x0102_0304, 2, ByteOrder::Little), vec![4, 3]);
    assert_eq!(encode_word(0x0102_0304, 2, ByteOrder::Big), vec![3, 4]);
    assert_eq!(encode_word(7, 0, ByteOrder::Big), Vec::<u8>::new());
}

#[test]
fn words_are_read_back() {
    for order in [ByteOrder::Little, ByteOrder::Big] {
        for n in [0u64, 1, 255, 256, 65536, 0xdead_beef, u64::MAX] {
            assert_eq!(decode_word(&encode_word(n, 8, order), order), n);
        }
    }
    assert_eq!(decode_word(&[1, 0, 0, 0x80], ByteOrder::Little), 0x8000_0001);
    assert_eq!(decode_word(&[1, 0, 0, 0x80], ByteOrder::Big), 0x0100_0080);
    assert_eq!(decode_word(&[], ByteOrder::Big), 0);
}

#[test]
fn bytes_are_written_back() {
    for order in [ByteOrder::Little, ByteOrder::Big] {
        for bytes in [vec![], vec![0, 1], vec![9, 0, 0, 200], vec![1, 2, 3, 4, 5, 6, 7, 8]] {
            assert_eq!(encode_word(decode_word(&bytes, order), bytes.len(), order), bytes);
        }
    }
}

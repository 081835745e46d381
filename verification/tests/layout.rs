use istring::ibytes;
use istring::layout::{le_word, len_word, with_inline_flag};
use istring::small;

#[test]
fn ibytes_test_layout() {
    let s = ibytes::Inline {
        data: [0; ibytes::INLINE_CAPACITY],
        len: ibytes::IS_INLINE,
    };
    assert_eq!(s.len_word(), ibytes::MAX_CAPACITY as u64 + 1);
}

#[test]
fn small_test_layout() {
    let s = small::Inline {
        data: [0; small::INLINE_CAPACITY],
        len: small::IS_INLINE,
    };
    assert_eq!(s.len_word(), small::MAX_CAPACITY as u64 + 1);
}

#[test]
fn stored_length_byte_carries_the_flag() {
    let inline = ibytes::Inline { data: [0; ibytes::INLINE_CAPACITY], len: 23 };
    assert_eq!(inline.stored_len(), 0x97);
    assert_eq!(inline.stored_len() & ibytes::LEN_MASK, 23);
    assert_eq!(with_inline_flag(0), 0x80);
    assert_eq!(with_inline_flag(15), 0x8f);
}

#[test]
fn little_endian_words() {
    assert_eq!(le_word(&[]), 0);
    assert_eq!(le_word(&[1]), 1);
    assert_eq!(le_word(&[0x34, 0x12]), 0x1234);
    assert_eq!(le_word(&[1, 2, 3, 4, 5, 6, 7, 8]), 0x0807_0605_0403_0201);
    assert_eq!(le_word(&[0xff; 8]), u64::MAX);
}

#[test]
fn length_word_reads_the_last_eight_bytes() {
    let mut tail = [0u8; 23];
    tail[16] = 0x2a;
    assert_eq!(len_word(&tail, 0), 0x2a);
    assert_eq!(len_word(&tail, 0x80), (1u64 << 63) + 0x2a);
    tail[0] = 0xff;
    assert_eq!(len_word(&tail, 0), 0x2a);
    let heap_len: u64 = 1000;
    let bytes = heap_len.to_le_bytes();
    assert_eq!(len_word(&bytes[..7], bytes[7]), 1000);
    assert_eq!(bytes[7] & ibytes::IS_INLINE, 0);
}

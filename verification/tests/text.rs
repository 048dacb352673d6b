//! Numbers and texts, spelled out.
use std::collections::BTreeMap;
use temporal_nbd::bytes::{read_u32, read_u64, u32_bytes};
use temporal_nbd::ordered::{all_keys, first_keys};
use temporal_nbd::text::{
    blank, decimal_i64, decimal_u128, decimal_u64, decimal_usize, hex_u32, starts_with, trim,
};
use temporal_nbd::ublk::index::VolumeIndex;

#[test]
fn decimals_are_those_of_the_standard_formatter() {
    for n in [0, 9, 10, 11, 99, 100, 12_345, u64::MAX] {
        assert_eq!(decimal_u64(n), n.to_string());
        assert_eq!(decimal_usize(n as usize), n.to_string());
    }
    assert_eq!(decimal_u128(u128::MAX), u128::MAX.to_string());
    for i in [0, -1, 1, i64::MIN, i64::MAX] {
        assert_eq!(decimal_i64(i), i.to_string());
    }
}

#[test]
fn hexadecimals_keep_their_width() {
    assert_eq!(hex_u32(0xabcdef, 8), "00abcdef");
    assert_eq!(hex_u32(u32::MAX, 8), "ffffffff");
    assert_eq!(hex_u32(0x1234, 2), "34");
    assert_eq!(hex_u32(7, 0), "");
}

#[test]
fn white_space_is_that_of_the_standard_library() {
    for c in (0..=0x10ffff_u32).filter_map(char::from_u32) {
        assert_eq!(blank(c.encode_utf8(&mut [0; 4])), c.is_whitespace(), "{c:?}");
    }
}

#[test]
fn trimming_takes_white_space_from_both_ends_only() {
    for s in ["", " ", "a", " a", "a ", "\t a b \u{3000}\n", "\u{a0}\u{e9}\u{2028}", "x\u{200b}"] {
        assert_eq!(trim(s), s.trim());
        assert_eq!(blank(s), s.trim().is_empty());
    }
}

#[test]
fn prefixes_are_compared_by_character() {
    assert!(starts_with("http://x", "http://"));
    assert!(starts_with("\u{e9}t\u{e9}", "\u{e9}t"));
    assert!(starts_with("a", ""));
    assert!(!starts_with("http:/", "http://"));
    assert!(!starts_with("HTTP://x", "http://"));
}

#[test]
fn numbers_are_spelled_in_network_order() {
    assert_eq!(u32_bytes(0x0102_0304), vec![1, 2, 3, 4]);
    assert_eq!(u32_bytes(u32::MAX), vec![255; 4]);
    let bytes = [9, 0, 0, 1, 2, 3, 4, 5, 6, 7, 8];
    assert_eq!(read_u32(&bytes, 1), 0x0000_0102);
    assert_eq!(read_u64(&bytes, 3), 0x0102_0304_0506_0708);
    assert_eq!(read_u32(&u32_bytes(123_456_789), 0), 123_456_789);
}

#[test]
fn keys_come_in_ascending_order() {
    let map: BTreeMap<u64, ()> = [7, 1, 9, 3].into_iter().map(|k| (k, ())).collect();
    assert_eq!(first_keys(&map, 3), vec![1, 3, 7]);
    assert_eq!(first_keys(&map, 9), vec![1, 3, 7, 9]);
    assert_eq!(first_keys(&map, 0), Vec::<u64>::new());
    let map: BTreeMap<u32, ()> = [5, 2].into_iter().map(|k| (k, ())).collect();
    assert_eq!(all_keys(&map), vec![2, 5]);
}

#[test]
fn index_finds_what_was_put_in_last() {
    let mut index = VolumeIndex::new();
    let (a, b) = ("a".to_string(), "b".to_string());
    index.insert(a.clone(), 1);
    index.insert(b.clone(), 2);
    index.insert(a.clone(), 3);
    assert_eq!((index.get(&a), index.get(&b)), (Some(3), Some(2)));
    index.remove(&a);
    assert_eq!((index.get(&a), index.get(&b)), (None, Some(2)));
}

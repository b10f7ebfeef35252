use cobapi::fnv::{const_fnv1a_64, FNV_OFFSET_BASIS};
use cobapi::text::{is_whitespace, push_decimal};

fn decimal_string(n: u64) -> String {
    let mut s = String::new();
    push_decimal(&mut s, n);
    s
}

#[test]
fn fnv_of_empty_is_offset_basis() {
    assert_eq!(const_fnv1a_64(b""), 0xcbf29ce484222325);
    assert_eq!(const_fnv1a_64(&[]), FNV_OFFSET_BASIS);
}

#[test]
fn fnv_known_vectors() {
    assert_eq!(const_fnv1a_64(b"a"), 0xaf63dc4c8601ec8c);
    assert_eq!(const_fnv1a_64(b"foobar"), 0x85944171f73967e8);
}

#[test]
fn fnv_one_round_by_hand() {
    let expected = (0xcbf29ce484222325u64 ^ 0x61).wrapping_mul(0x100000001b3);
    assert_eq!(const_fnv1a_64(b"a"), expected);
}

#[test]
fn fnv_differs_on_order() {
    assert_ne!(const_fnv1a_64(b"ab"), const_fnv1a_64(b"ba"));
}

#[test]
fn decimal_numerals() {
    assert_eq!(decimal_string(0), "0");
    assert_eq!(decimal_string(7), "7");
    assert_eq!(decimal_string(10), "10");
    assert_eq!(decimal_string(1234567890), "1234567890");
    assert_eq!(decimal_string(u64::MAX), u64::MAX.to_string());
}

#[test]
fn whitespace_agrees_with_std() {
    for code in 0u32..0x3100 {
        if let Some(c) = char::from_u32(code) {
            assert_eq!(is_whitespace(c), c.is_whitespace(), "{:?}", c);
        }
    }
    for c in ['\u{feff}', '\u{200b}', 'x', '\u{10ffff}'] {
        assert_eq!(is_whitespace(c), c.is_whitespace());
    }
}

#[test]
fn fnv_of_concatenation_continues_from_prefix() {
    let mut state = const_fnv1a_64(b"foo");
    for b in b"bar" {
        state = (state ^ *b as u64).wrapping_mul(0x100000001b3);
    }
    assert_eq!(state, const_fnv1a_64(b"foobar"));
}

#[test]
fn fnv_single_byte_difference_changes_hash() {
    let a = b"subscribe_save_loaded";
    for i in 0..a.len() {
        let mut b = a.to_vec();
        b[i] ^= 0x20;
        assert_ne!(const_fnv1a_64(a), const_fnv1a_64(&b));
    }
}

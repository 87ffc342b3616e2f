use stomp_client::escape::{push_escaped, unescape_bytes};
use stomp_client::text::{bytes_eq, copy_bytes, find_byte, parse_decimal, push_bytes, push_decimal};

fn decimal(n: u64) -> Vec<u8> {
    let mut out = Vec::new();
    push_decimal(&mut out, n);
    out
}

fn escaped(s: &[u8]) -> Vec<u8> {
    let mut out = Vec::new();
    push_escaped(&mut out, s);
    out
}

#[test]
fn finds_the_first_occurrence() {
    assert_eq!(find_byte(b"abcabc", b'b'), Some(1));
    assert_eq!(find_byte(b"abcabc", b'a'), Some(0));
    assert_eq!(find_byte(b"abcabc", b'x'), None);
    assert_eq!(find_byte(b"", b'a'), None);
}

#[test]
fn compares_byte_strings() {
    assert!(bytes_eq(b"", b""));
    assert!(bytes_eq(b"abc", b"abc"));
    assert!(!bytes_eq(b"abc", b"abd"));
    assert!(!bytes_eq(b"abc", b"ab"));
    assert!(!bytes_eq(b"ab", b"abc"));
}

#[test]
fn copies_and_appends_byte_strings() {
    assert_eq!(copy_bytes(b"abc"), b"abc".to_vec());
    assert_eq!(copy_bytes(b""), Vec::<u8>::new());
    let mut out = b"ab".to_vec();
    push_bytes(&mut out, b"cd");
    assert_eq!(out, b"abcd".to_vec());
}

#[test]
fn reads_decimal_numbers() {
    assert_eq!(parse_decimal(b"0", 100), Some(0));
    assert_eq!(parse_decimal(b"42", 100), Some(42));
    assert_eq!(parse_decimal(b"007", 100), Some(7));
    assert_eq!(parse_decimal(b"100", 100), Some(100));
    assert_eq!(parse_decimal(b"101", 100), None);
    assert_eq!(parse_decimal(b"", 100), None);
    assert_eq!(parse_decimal(b"4x", 100), None);
    assert_eq!(parse_decimal(b"+4", 100), None);
    assert_eq!(parse_decimal(b" 4", 100), None);
}

#[test]
fn reads_decimal_numbers_at_the_limit() {
    assert_eq!(parse_decimal(b"18446744073709551615", u64::MAX), Some(u64::MAX));
    assert_eq!(parse_decimal(b"18446744073709551616", u64::MAX), None);
    assert_eq!(parse_decimal(b"99999999999999999999", u64::MAX), None);
    assert_eq!(parse_decimal(b"4294967295", u32::MAX as u64), Some(4294967295));
    assert_eq!(parse_decimal(b"4294967296", u32::MAX as u64), None);
    assert_eq!(parse_decimal(b"1", 0), None);
    assert_eq!(parse_decimal(b"0", 0), Some(0));
}

#[test]
fn writes_decimal_numbers() {
    assert_eq!(decimal(0), b"0".to_vec());
    assert_eq!(decimal(9), b"9".to_vec());
    assert_eq!(decimal(10), b"10".to_vec());
    assert_eq!(decimal(1203), b"1203".to_vec());
    assert_eq!(decimal(u64::MAX), b"18446744073709551615".to_vec());
}

#[test]
fn written_decimal_numbers_are_read_back() {
    for n in [0u64, 1, 9, 10, 99, 100, 12345, u32::MAX as u64, u64::MAX] {
        assert_eq!(parse_decimal(&decimal(n), u64::MAX), Some(n));
    }
}

#[test]
fn push_decimal_keeps_what_was_there() {
    let mut out = b"n=".to_vec();
    push_decimal(&mut out, 250);
    assert_eq!(out, b"n=250".to_vec());
}

#[test]
fn escapes_the_four_special_bytes() {
    assert_eq!(escaped(b"plain"), b"plain".to_vec());
    assert_eq!(escaped(b"a:b"), b"a\\cb".to_vec());
    assert_eq!(escaped(b"a\nb"), b"a\\nb".to_vec());
    assert_eq!(escaped(b"a\rb"), b"a\\rb".to_vec());
    assert_eq!(escaped(b"a\\b"), b"a\\\\b".to_vec());
    assert_eq!(escaped(b""), Vec::<u8>::new());
}

#[test]
fn push_escaped_keeps_what_was_there() {
    let mut out = b"k:".to_vec();
    push_escaped(&mut out, b"v:w");
    assert_eq!(out, b"k:v\\cw".to_vec());
}

#[test]
fn unescapes_the_four_sequences() {
    assert_eq!(unescape_bytes(b"plain"), Some(b"plain".to_vec()));
    assert_eq!(unescape_bytes(b"a\\cb"), Some(b"a:b".to_vec()));
    assert_eq!(unescape_bytes(b"a\\nb"), Some(b"a\nb".to_vec()));
    assert_eq!(unescape_bytes(b"a\\rb"), Some(b"a\rb".to_vec()));
    assert_eq!(unescape_bytes(b"a\\\\b"), Some(b"a\\b".to_vec()));
    assert_eq!(unescape_bytes(b"\\\\n"), Some(b"\\n".to_vec()));
    assert_eq!(unescape_bytes(b""), Some(Vec::new()));
}

#[test]
fn rejects_undefined_and_cut_escape_sequences() {
    assert_eq!(unescape_bytes(b"a\\tb"), None);
    assert_eq!(unescape_bytes(b"a\\"), None);
    assert_eq!(unescape_bytes(b"\\"), None);
    assert_eq!(unescape_bytes(b"\\\\\\"), None);
}

#[test]
fn unescaping_undoes_escaping() {
    let all: Vec<u8> = (0..=255u8).collect();
    assert_eq!(unescape_bytes(&escaped(&all)), Some(all));
    let tricky: &[u8] = b"\\c\\n::\n\r\\\\";
    assert_eq!(unescape_bytes(&escaped(tricky)), Some(tricky.to_vec()));
}

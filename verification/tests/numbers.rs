use vc2::error::ErrorKind;
use vc2::number::{parse_escape, parse_immediate, parse_integer, parse_number};

#[test]
fn unsigned_integers() {
    assert_eq!(parse_integer("0"), Some(0));
    assert_eq!(parse_integer("4321"), Some(4321));
    assert_eq!(parse_integer("+12"), Some(12));
    assert_eq!(parse_integer("0x10"), Some(16));
    assert_eq!(parse_integer("0xfF"), Some(255));
    assert_eq!(parse_integer("0b101"), Some(5));
    assert_eq!(parse_integer("4294967295"), Some(u32::MAX));
    assert_eq!(parse_integer("4294967296"), None);
    assert_eq!(parse_integer("-1"), None);
    assert_eq!(parse_integer(""), None);
    assert_eq!(parse_integer("0x"), None);
    assert_eq!(parse_integer("1_000"), None);
    assert_eq!(parse_integer("12a"), None);
}

#[test]
fn number_literals() {
    assert_eq!(parse_number(b"0"), Ok(0));
    assert_eq!(parse_number(b"1_0"), Ok(10));
    assert_eq!(parse_number(b"0x_ff"), Ok(255));
    assert_eq!(parse_number(b"0_x10"), Ok(16));
    assert_eq!(parse_number(b"0x-1"), Ok(0xffff_ffff));
    assert_eq!(parse_number(b"-0x1"), Err(ErrorKind::InvalidNumber));
    assert_eq!(parse_number(b"0xFFFFFFFF"), Ok(0xffff_ffff));
    assert_eq!(parse_number(b"0x100000000"), Err(ErrorKind::NumberOutOfRange));
    assert_eq!(parse_number(b"-2147483648"), Ok(0x8000_0000));
    assert_eq!(parse_number(b"-2147483649"), Err(ErrorKind::NumberOutOfRange));
    assert_eq!(parse_number(b"9223372036854775807"), Err(ErrorKind::NumberOutOfRange));
    assert_eq!(parse_number(b"9223372036854775808"), Err(ErrorKind::InvalidNumber));
    assert_eq!(parse_number(b"-9223372036854775808"), Err(ErrorKind::NumberOutOfRange));
    assert_eq!(parse_number(b"-9223372036854775809"), Err(ErrorKind::InvalidNumber));
    assert_eq!(parse_number(b""), Err(ErrorKind::InvalidNumber));
    assert_eq!(parse_number(b"_"), Err(ErrorKind::InvalidNumber));
    assert_eq!(parse_number(b"-"), Err(ErrorKind::InvalidNumber));
    assert_eq!(parse_number(b"0b2"), Err(ErrorKind::InvalidNumber));
    assert_eq!(parse_number(b"0xg"), Err(ErrorKind::InvalidNumber));
}

#[test]
fn literals() {
    assert_eq!(parse_immediate(b""), Err(ErrorKind::UnexpectedEndOfInput));
    assert_eq!(parse_immediate(b"1\x80"), Err(ErrorKind::InvalidUtf8));
    assert_eq!(parse_immediate(b"'A'"), Ok(0x41));
    assert_eq!(parse_immediate(b"'A'rest"), Ok(0x41));
    assert_eq!(parse_immediate(b"42"), Ok(42));
}

#[test]
fn escapes() {
    assert_eq!(parse_escape(b'n'), Ok(b'\n'));
    assert_eq!(parse_escape(b'r'), Ok(b'\r'));
    assert_eq!(parse_escape(b't'), Ok(b'\t'));
    assert_eq!(parse_escape(b'0'), Ok(0));
    assert_eq!(parse_escape(b'\\'), Ok(b'\\'));
    assert_eq!(parse_escape(b'\''), Ok(b'\''));
    assert_eq!(parse_escape(b'"'), Ok(b'"'));
    assert_eq!(parse_escape(b'x'), Err(ErrorKind::InvalidEscape(b'x')));
}

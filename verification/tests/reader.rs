//! The field reader.

use apc_proxy::error::ProxyError;
use apc_proxy::handlers::thales::reader::FieldReader;

#[test]
fn take_advances_and_bounds_check() {
    let mut r = FieldReader::new(&[1, 2, 3, 4], "T");
    assert_eq!(r.take(2, "a").unwrap(), &[1, 2]);
    assert_eq!(r.pos(), 2);
    assert_eq!(r.remaining(), &[3, 4]);
    assert_eq!(r.take(2, "b").unwrap(), &[3, 4]);
    assert!(matches!(
        r.take(1, "c"),
        Err(ProxyError::MalformedPayload(_))
    ));
}

#[test]
fn take_past_end_errors_not_panics() {
    let mut r = FieldReader::new(&[0xAA], "T");
    assert!(matches!(
        r.take(4, "big"),
        Err(ProxyError::MalformedPayload(_))
    ));
    // cursor unmoved after a failed take
    assert_eq!(r.pos(), 0);
}

#[test]
fn take_overflow_is_error() {
    let mut r = FieldReader::new(&[0; 4], "T");
    assert!(matches!(
        r.take(usize::MAX, "huge"),
        Err(ProxyError::MalformedPayload(_))
    ));
}

#[test]
fn array_hex_u16_byte() {
    let mut r = FieldReader::new(&[0xDE, 0xAD, 0x00, 0x10, 0x3B], "T");
    assert_eq!(r.take_hex(2, "x").unwrap(), "DEAD");
    assert_eq!(r.u16_be("len").unwrap(), 16);
    assert_eq!(r.byte("b").unwrap(), 0x3B);
}

#[test]
fn expect_byte_matches_and_mismatches() {
    let mut r = FieldReader::new(&[0x3B, 0x40], "T");
    assert!(r.expect_byte(0x3B, "delim").is_ok());
    assert!(matches!(
        r.expect_byte(0x3B, "delim"),
        Err(ProxyError::MalformedPayload(_))
    ));
}

#[test]
fn ascii_len_field_reads_payload() {
    // "04" (hex) = 4 bytes follow
    let buf = [b'0', b'4', 1, 2, 3, 4, 9];
    let mut r = FieldReader::new(&buf, "MAC");
    assert_eq!(r.take_ascii_len_field(2, 16, "msg").unwrap(), &[1, 2, 3, 4]);
    assert_eq!(r.remaining(), &[9]);
}

#[test]
fn ascii_len_field_rejects_non_ascii_and_bad_radix() {
    let mut r = FieldReader::new(&[0xFF, 0xFE, 0, 0], "MAC");
    assert!(matches!(
        r.take_ascii_len_field(2, 16, "msg"),
        Err(ProxyError::MalformedPayload(_))
    ));
    let mut r2 = FieldReader::new(b"ZZ", "MAC");
    assert!(matches!(
        r2.take_ascii_len_field(2, 16, "msg"),
        Err(ProxyError::MalformedPayload(_))
    ));
}

#[test]
fn a_parser_moves_the_cursor_by_what_it_took() {
    let buf = [1, 2, 3];
    let mut r = FieldReader::new(&buf, "T");
    r.take(1, "a").unwrap();
    let seen = r.parse_with(|b, at| Ok((b[at], 1))).unwrap();
    assert_eq!(seen, 2);
    assert_eq!(r.pos(), 2);
    let refused: Result<u8, ProxyError> =
        r.parse_with(|_, at| Err(ProxyError::KeyNotFound(at.to_string())));
    assert!(matches!(refused, Err(ProxyError::KeyNotFound(s)) if s == "2"));
    assert_eq!(r.pos(), 2);
}

#[test]
fn nothing_is_left_behind_the_end() {
    let buf = [1, 2, 3];
    let mut r = FieldReader::new(&buf, "T");
    assert!(r.parse_with(|b, _| Ok((b.len(), 10))).is_ok());
    assert_eq!(r.pos(), 10);
    assert!(r.remaining().is_empty());
    match r.take(0, "x") {
        Err(ProxyError::MalformedPayload(why)) => {
            assert_eq!(why, "T: x truncated (need 0 at offset 10, have 0)");
        }
        _ => panic!("read behind the end"),
    }
    assert_eq!(r.pos(), 10);
}

#[test]
fn a_length_that_was_read_stays_consumed() {
    let mut short = FieldReader::new(b"04AB", "T");
    assert!(short.take_ascii_len_field(2, 16, "msg").is_err());
    assert_eq!(short.pos(), 2);
    let mut hex = FieldReader::new(b"02ABC", "T");
    assert!(hex.take_ascii_len_hex(2, 16, "msg").is_err());
    assert_eq!(hex.pos(), 2);
    let mut unreadable = FieldReader::new(b"ZZAB", "T");
    assert!(unreadable.take_ascii_len_field(2, 16, "msg").is_err());
    assert_eq!(unreadable.pos(), 2);
    let mut missing = FieldReader::new(b"0", "T");
    assert!(missing.take_ascii_len_hex(2, 16, "msg").is_err());
    assert_eq!(missing.pos(), 0);
}

#[test]
fn a_length_has_no_sign() {
    let mut r = FieldReader::new(b"+4ABCD", "T");
    match r.take_ascii_len_field(2, 16, "msg") {
        Err(ProxyError::MalformedPayload(why)) => {
            assert_eq!(why, "T: invalid msg length '+4'");
        }
        _ => panic!("accepted"),
    }
}

use bifrost::decimal::{push_digits, push_i64, push_len, read_i64};
use bifrost::encoder::{encode_value, push_bytes, push_crlf, write_value};
use bifrost::resp::RespType;
use bifrost::text::same_text;

fn text_of(i: i64) -> String {
    let mut out = Vec::new();
    push_i64(&mut out, i);
    String::from_utf8(out).unwrap()
}

#[test]
fn integers_are_written_in_canonical_decimal() {
    assert_eq!(text_of(0), "0");
    assert_eq!(text_of(7), "7");
    assert_eq!(text_of(10), "10");
    assert_eq!(text_of(-1), "-1");
    assert_eq!(text_of(1234567890), "1234567890");
    assert_eq!(text_of(i64::MAX), "9223372036854775807");
    assert_eq!(text_of(i64::MIN), "-9223372036854775808");
}

#[test]
fn digits_are_appended() {
    let mut out = b"n=".to_vec();
    push_digits(&mut out, 0);
    push_digits(&mut out, 905);
    push_digits(&mut out, u64::MAX);
    assert_eq!(out, b"n=090518446744073709551615");
    let mut out = Vec::new();
    push_len(&mut out, 4096);
    assert_eq!(out, b"4096");
}

#[test]
fn integers_are_read() {
    assert_eq!(read_i64(b"0"), Some(0));
    assert_eq!(read_i64(b"-0"), Some(0));
    assert_eq!(read_i64(b"+0"), Some(0));
    assert_eq!(read_i64(b"42"), Some(42));
    assert_eq!(read_i64(b"+42"), Some(42));
    assert_eq!(read_i64(b"-42"), Some(-42));
    assert_eq!(read_i64(b"000000000000000000000000000042"), Some(42));
    assert_eq!(read_i64(b"9223372036854775807"), Some(i64::MAX));
    assert_eq!(read_i64(b"-9223372036854775808"), Some(i64::MIN));
}

#[test]
fn what_is_no_integer_is_not_read() {
    for input in [
        &b""[..],
        b"+",
        b"-",
        b"--1",
        b"+-1",
        b"1-",
        b"1 ",
        b" 1",
        b"1_000",
        b"0x10",
        b"1e3",
        b"\xff",
        b"9223372036854775808",
        b"-9223372036854775809",
        b"18446744073709551616",
        b"340282366920938463463374607431768211456",
    ] {
        assert_eq!(read_i64(input), None, "{:?}", input);
    }
}

#[test]
fn reading_agrees_with_the_standard_parser() {
    for text in ["5", "+5", "-5", "00", "-", "", "12x", "9223372036854775808", "-9223372036854775808"] {
        assert_eq!(read_i64(text.as_bytes()), text.parse::<i64>().ok(), "{:?}", text);
    }
}

#[test]
fn reading_undoes_writing() {
    for i in [0, 1, -1, 9, 10, -10, 99, 100, 4711, -4711, i64::MAX, i64::MIN, i64::MAX - 1, i64::MIN + 1] {
        assert_eq!(read_i64(text_of(i).as_bytes()), Some(i));
    }
}

#[test]
fn bytes_are_appended() {
    let mut out = b"ab".to_vec();
    push_bytes(&mut out, b"cd");
    push_bytes(&mut out, b"");
    push_crlf(&mut out);
    assert_eq!(out, b"abcd\r\n");
}

#[test]
fn values_are_appended() {
    let mut out = b"+OK\r\n".to_vec();
    write_value(&mut out, &RespType::Integer(5));
    write_value(&mut out, &RespType::Null);
    assert_eq!(out, b"+OK\r\n:5\r\n$-1\r\n");
    assert_eq!(encode_value(&RespType::BulkString("hey".to_string())), b"$3\r\nhey\r\n");
}

#[test]
fn texts_are_compared_by_their_characters() {
    assert!(same_text("PING", "PING"));
    assert!(same_text("", ""));
    assert!(!same_text("PING", "PINGS"));
    assert!(!same_text("PING", "PONG"));
    assert!(!same_text("ping", "PING"));
    assert!(same_text("caf\u{e9}", "caf\u{e9}"));
    assert!(!same_text("caf\u{e9}", "cafe"));
}

use urlq::{decode, decode_plus, EncodeError};

#[test]
fn plus_decode() {
    assert_eq!(decode_plus("%7e/abc+def").unwrap(), "~/abc def");
}

#[test]
fn test_decode_plus() {
    assert_eq!(decode_plus("%7e/abc+def").unwrap(), "~/abc def");
    assert_eq!(decode_plus("%7e/abc%20def").unwrap(), "~/abc def");
    assert_eq!(decode_plus("+%2B+").unwrap(), " + ");
    assert_eq!(decode_plus("").unwrap(), "");
}

#[test]
fn test_decode() {
    assert_eq!(decode("%7e/abc+def").unwrap(), "~/abc+def");
    assert_eq!(decode("%7e/abc%20def").unwrap(), "~/abc def");
    assert_eq!(decode("+%2B+").unwrap(), "+++");
    assert_eq!(decode("").unwrap(), "");
}

#[test]
fn decode_reads_hex_digits_of_either_case() {
    assert_eq!(decode("%4a%4A%6b%6B").unwrap(), "JJkk");
    assert_eq!(decode("%c3%A9").unwrap(), "\u{e9}");
}

#[test]
fn decode_keeps_text_without_escapes() {
    assert_eq!(decode("plain text, caf\u{e9}").unwrap(), "plain text, caf\u{e9}");
}

#[test]
fn decode_refuses_a_trailing_percent() {
    assert_eq!(decode("abc%"), Err(EncodeError::MalformedEscape));
    assert_eq!(decode("abc%4"), Err(EncodeError::MalformedEscape));
    assert_eq!(decode("%"), Err(EncodeError::MalformedEscape));
}

#[test]
fn decode_refuses_a_percent_without_hex_digits() {
    assert_eq!(decode("%zz"), Err(EncodeError::MalformedEscape));
    assert_eq!(decode("%4g"), Err(EncodeError::MalformedEscape));
    assert_eq!(decode("%%41"), Err(EncodeError::MalformedEscape));
    assert_eq!(decode("%25%"), Err(EncodeError::MalformedEscape));
}

#[test]
fn decode_refuses_bytes_that_are_not_utf8() {
    assert_eq!(decode("%ff"), Err(EncodeError::InvalidUtf8));
    assert_eq!(decode("%C3"), Err(EncodeError::InvalidUtf8));
    assert_eq!(decode("%ED%A0%80"), Err(EncodeError::InvalidUtf8));
}

#[test]
fn decode_reports_a_malformed_escape_before_bad_utf8() {
    assert_eq!(decode("%ff%"), Err(EncodeError::MalformedEscape));
}

#[test]
fn decode_plus_turns_plus_into_space_before_decoding() {
    assert_eq!(decode_plus("a+b%2Bc").unwrap(), "a b+c");
    assert_eq!(decode_plus("caf\u{e9}+au+lait").unwrap(), "caf\u{e9} au lait");
}

#[test]
fn decode_plus_refuses_what_decode_refuses() {
    assert_eq!(decode_plus("+%"), Err(EncodeError::MalformedEscape));
    assert_eq!(decode_plus("+%ff"), Err(EncodeError::InvalidUtf8));
    assert_eq!(decode_plus("%+1"), Err(EncodeError::MalformedEscape));
}

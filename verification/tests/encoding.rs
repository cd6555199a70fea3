use urlq::encode::{encode, handle_query_and_fragment_plus, with_query_and_fragment};
use urlq::encode_sets::{
    AllCharactersEncodeSet, AllCharactersExceptSpaceEncodeSet, CustomEncodeSet, EncodeSet,
};
use urlq::{
    encode_all, encode_all_plus, encode_all_reserved, encode_all_reserved_plus,
    encode_characters, encode_fragment, encode_path, encode_path_segment, encode_query,
    encode_query_plus, encode_url, encode_url_plus, encode_userinfo, EncodeError,
};

#[test]
fn test_encode_query_plus() {
    assert_eq!(encode_query_plus("~/abc def"), "~/abc+def");
    assert_eq!(encode_query_plus("#20/abc def"), "%2320/abc+def");
    assert_eq!(encode_query_plus("?20/abc def"), "?20/abc+def");
    assert_eq!(encode_query_plus(" + "), "+%2B+");
    assert_eq!(encode_query_plus(""), "");
}

#[test]
fn test_encode_query() {
    assert_eq!(encode_query("~/abc def"), "~/abc%20def");
    assert_eq!(encode_query("#20/abc def"), "%2320/abc%20def");
    assert_eq!(encode_query("?20/abc def"), "?20/abc%20def");
    assert_eq!(encode_query(" + "), "%20+%20");
    assert_eq!(encode_query(""), "");
}

#[test]
fn test_encode_url() {
    assert_eq!(
        encode_url("http://www.example.com/~/abc def%").unwrap(),
        "http://www.example.com/~/abc%20def%"
    );
    assert_eq!(
        encode_url("http://www.example.com/~/abc def%/a?foo bar=1#anchor 1").unwrap(),
        "http://www.example.com/~/abc%20def%/a?foo%20bar=1#anchor 1"
    );
    assert!(encode_url("#20/abc def").is_err());
    assert!(encode_url("").is_err());
}

#[test]
fn test_encode_url_plus() {
    assert_eq!(
        encode_url_plus("http://www.example.com/~/abc def%/a?foo bar=1").unwrap(),
        "http://www.example.com/~/abc%20def%/a?foo+bar=1"
    );
    assert_eq!(
        encode_url_plus("http://www.example.com/~/abc def%/a?foo bar=1#anchor 1").unwrap(),
        "http://www.example.com/~/abc%20def%/a?foo+bar=1#anchor 1"
    );
    assert!(encode_url_plus("#20/abc def").is_err());
    assert!(encode_url_plus("").is_err());
}

#[test]
fn test_encode_all_reserved() {
    assert_eq!(encode_all_reserved("?20/abc def"), "%3F20%2Fabc%20def");
    assert_eq!(
        encode_all_reserved(":/?#[]@!$&,'`()*+,;= %"),
        "%3A%2F%3F%23%5B%5D%40%21%24%26%2C%27%60%28%29%2A%2B%2C%3B%3D%20%25"
    );
    assert_eq!(encode_all_reserved(""), "");
}

#[test]
fn test_encode_all_reserved_plus() {
    assert_eq!(encode_all_reserved_plus("?20/abc def"), "%3F20%2Fabc+def");
    assert_eq!(
        encode_all_reserved_plus(":/?#[]@!$&,'`()*+,;= %"),
        "%3A%2F%3F%23%5B%5D%40%21%24%26%2C%27%60%28%29%2A%2B%2C%3B%3D+%25"
    );
    assert_eq!(encode_all_reserved_plus(""), "");
}

#[test]
fn test_encode_all() {
    assert_eq!(encode_all("?20/abc def"), "%3F%32%30%2F%61%62%63%20%64%65%66");
    assert_eq!(
        encode_all(":/?#[]@!$&,'`()*+,;= %"),
        "%3A%2F%3F%23%5B%5D%40%21%24%26%2C%27%60%28%29%2A%2B%2C%3B%3D%20%25"
    );
    assert_eq!(encode_all(""), "");
}

#[test]
fn test_encode_all_plus() {
    assert_eq!(encode_all_plus("?20/abc def"), "%3F%32%30%2F%61%62%63+%64%65%66");
    assert_eq!(
        encode_all_plus(":/?#[]@!$&,'`()*+,;= %"),
        "%3A%2F%3F%23%5B%5D%40%21%24%26%2C%27%60%28%29%2A%2B%2C%3B%3D+%25"
    );
    assert_eq!(encode_all_plus(""), "");
}

#[test]
fn encode_url_refuses_text_without_a_scheme() {
    assert_eq!(encode_url("#20/abc def"), Err(EncodeError::InvalidUrl));
    assert_eq!(encode_url("www.example.com/a b"), Err(EncodeError::InvalidUrl));
    assert_eq!(encode_url_plus("#frag"), Err(EncodeError::InvalidUrl));
    assert_eq!(encode_url_plus("a?b?c"), Err(EncodeError::InvalidUrl));
}

#[test]
fn encode_url_of_its_own_output_changes_nothing() {
    let once = encode_url("http://www.example.com/~/abc def%/a?foo bar=1#anchor 1").unwrap();
    assert_eq!(encode_url(&once).unwrap(), once);
    let plain = encode_url("HTTP://Example.COM/caf\u{e9}").unwrap();
    assert_eq!(plain, "http://example.com/caf%C3%A9");
    assert_eq!(encode_url(&plain).unwrap(), plain);
}

#[test]
fn encode_url_plus_without_a_question_mark_is_encode_url() {
    assert_eq!(
        encode_url_plus("http://www.example.com/a b").unwrap(),
        encode_url("http://www.example.com/a b").unwrap()
    );
}

#[test]
fn encode_url_plus_keeps_a_bare_question_mark() {
    assert_eq!(encode_url_plus("http://www.example.com/a?").unwrap(), "http://www.example.com/a?");
}

#[test]
fn encode_url_plus_splits_at_the_first_question_mark_only() {
    assert_eq!(
        encode_url_plus("http://www.example.com/a?b c?d+e").unwrap(),
        "http://www.example.com/a?b+c?d%2Be"
    );
}

#[test]
fn with_query_and_fragment_joins_with_a_question_mark() {
    assert_eq!(with_query_and_fragment(Ok(String::from("a")), "b?c").unwrap(), "a?b?c");
    assert_eq!(with_query_and_fragment(Ok(String::from("p")), "").unwrap(), "p?");
    assert_eq!(
        with_query_and_fragment(Ok(String::from("p")), "x y#f g#h").unwrap(),
        "p?x+y#f g#h"
    );
    assert_eq!(
        with_query_and_fragment(Err(EncodeError::InvalidUrl), "x y"),
        Err(EncodeError::InvalidUrl)
    );
}

#[test]
fn handle_query_and_fragment_plus_splits_at_the_first_hash() {
    assert_eq!(handle_query_and_fragment_plus("foo bar=1#anchor 1"), "foo+bar=1#anchor 1");
    assert_eq!(handle_query_and_fragment_plus("foo bar=1"), "foo+bar=1");
    assert_eq!(handle_query_and_fragment_plus("a+b#c+d#e"), "a%2Bb#c+d#e");
    assert_eq!(handle_query_and_fragment_plus("#"), "#");
    assert_eq!(handle_query_and_fragment_plus(""), "");
    assert_eq!(handle_query_and_fragment_plus("q\u{e9}#f\u{e9}"), "q%C3%A9#f%C3%A9");
}

#[test]
fn encode_fragment_keeps_space_and_escapes_what_is_not_printable() {
    assert_eq!(encode_fragment("anchor 1"), "anchor 1");
    assert_eq!(encode_fragment("a\tb\u{7f}c"), "a%09b%7Fc");
    assert_eq!(encode_fragment("\"#<>?`{}"), "\"#<>?`{}");
    assert_eq!(encode_fragment("\u{e9}"), "%C3%A9");
}

#[test]
fn encode_query_escapes_its_five_characters() {
    assert_eq!(encode_query(" \"#<>"), "%20%22%23%3C%3E");
    assert_eq!(encode_query("?`{}/:;=@[\\]^|%+"), "?`{}/:;=@[\\]^|%+");
}

#[test]
fn encode_path_escapes_what_a_query_does_and_four_more() {
    assert_eq!(encode_path(" \"#<>?`{}"), "%20%22%23%3C%3E%3F%60%7B%7D");
    assert_eq!(encode_path("/:;=@[\\]^|%+"), "/:;=@[\\]^|%+");
}

#[test]
fn encode_userinfo_escapes_what_a_path_does_and_ten_more() {
    assert_eq!(
        encode_userinfo("/:;=@[\\]^| ?"),
        "%2F%3A%3B%3D%40%5B%5C%5D%5E%7C%20%3F"
    );
    assert_eq!(encode_userinfo("user%name+1"), "user%name+1");
}

#[test]
fn encode_path_segment_escapes_percent_besides() {
    assert_eq!(
        encode_path_segment("%/:;=@[\\]^| ?"),
        "%25%2F%3A%3B%3D%40%5B%5C%5D%5E%7C%20%3F"
    );
    assert_eq!(encode_path_segment("a+b!c"), "a+b!c");
}

#[test]
fn encode_all_reserved_leaves_unreserved_characters() {
    assert_eq!(encode_all_reserved("AZaz09-._~"), "AZaz09-._~");
    assert_eq!(encode_all_reserved("{}|\\^\"<>"), "{}|\\^\"<>");
}

#[test]
fn encode_characters_escapes_the_listed_characters_only() {
    assert_eq!(encode_characters("a/b c", "/ "), "a%2Fb%20c");
    assert_eq!(encode_characters("a/b c", "x"), "a/b c");
    assert_eq!(encode_characters("abc", ""), "abc");
    assert_eq!(encode_characters("caf\u{e9}", "\u{e9}"), "caf%C3%A9");
    assert_eq!(encode_characters("line\nbreak", "k"), "line\nbrea%6B");
}

#[test]
fn encode_characters_writes_listed_characters_only_inside_escapes() {
    let out = encode_characters("4=%41; 2+2", "4%2");
    assert_eq!(out, "%34=%25%341; %32+%32");
    let bytes = out.as_bytes();
    for (at, byte) in bytes.iter().enumerate() {
        if "4%2".as_bytes().contains(byte) {
            let starts = |s: usize| {
                s + 3 <= bytes.len()
                    && bytes[s] == b'%'
                    && bytes[s + 1].is_ascii_hexdigit()
                    && bytes[s + 2].is_ascii_hexdigit()
            };
            assert!(
                starts(at) || (at >= 1 && starts(at - 1)) || (at >= 2 && starts(at - 2))
            );
        }
    }
}

#[test]
fn encode_under_each_set_escapes_its_members() {
    assert_eq!(encode("a b+c%", EncodeSet::Simple), "a b+c%");
    assert_eq!(encode("a b+c%", EncodeSet::Query), "a%20b+c%");
    assert_eq!(encode("a b+c%", EncodeSet::PlusQuery), "a b%2Bc%");
    assert_eq!(encode("a b+c%?", EncodeSet::Default), "a%20b+c%%3F");
    assert_eq!(encode("a b+c%:", EncodeSet::PathSegment), "a%20b+c%25%3A");
    assert_eq!(encode("a b+c%:", EncodeSet::Userinfo), "a%20b+c%%3A");
    assert_eq!(encode("a b+c%", EncodeSet::AllReserved), "a%20b%2Bc%25");
    assert_eq!(encode("a b+c%", EncodeSet::AllReservedPlus), "a b%2Bc%25");
    assert_eq!(encode("a b", EncodeSet::All(AllCharactersEncodeSet::new())), "%61%20%62");
    assert_eq!(
        encode("a b", EncodeSet::AllExceptSpace(AllCharactersExceptSpaceEncodeSet::new())),
        "%61 %62"
    );
    assert_eq!(encode("a b", EncodeSet::Custom(CustomEncodeSet::from("b"))), "a %62");
}

#[test]
fn encoders_write_printable_ascii() {
    let input = "\u{0}\u{1f} \u{7f}\u{80}\u{e9}\u{4e2d}\u{1f600}~";
    let outputs = [
        encode_query(input),
        encode_query_plus(input),
        encode_path(input),
        encode_path_segment(input),
        encode_userinfo(input),
        encode_fragment(input),
        encode_all_reserved(input),
        encode_all_reserved_plus(input),
        encode_all(input),
        encode_all_plus(input),
    ];
    for output in outputs.iter() {
        assert!(output.bytes().all(|b| (0x20..=0x7e).contains(&b)));
    }
    assert_eq!(
        encode_fragment(input),
        "%00%1F %7F%C2%80%C3%A9%E4%B8%AD%F0%9F%98%80~"
    );
}

#[test]
fn a_larger_set_writes_at_least_as_many_escapes() {
    let input = "a b?c/d%e\u{e9}";
    let escapes = |text: &str| (text.len() - input.len()) / 2;
    let simple = encode_fragment(input);
    let query = encode_query(input);
    let path = encode_path(input);
    let userinfo = encode_userinfo(input);
    let segment = encode_path_segment(input);
    assert_eq!(simple, "a b?c/d%e%C3%A9");
    assert_eq!(escapes(&simple), 2);
    assert_eq!(escapes(&query), 3);
    assert_eq!(escapes(&path), 4);
    assert_eq!(escapes(&userinfo), 5);
    assert_eq!(escapes(&segment), 6);
    assert_eq!(segment, "a%20b%3Fc%2Fd%25e%C3%A9");
}

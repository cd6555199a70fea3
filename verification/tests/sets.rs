use percent_encoding::percent_encode;
use urlq::encode_sets::{
    AllCharactersEncodeSet, AllCharactersExceptSpaceEncodeSet, CustomEncodeSet, EncodeSet,
};

fn members(set: &EncodeSet) -> Vec<u8> {
    (0..=255u8).filter(|b| set.contains(*b)).collect()
}

fn simple_and(extra: &str) -> Vec<u8> {
    let mut all: Vec<u8> =
        (0..=255u8).filter(|b| *b < 0x20 || *b > 0x7e || extra.as_bytes().contains(b)).collect();
    all.sort();
    all
}

#[test]
fn each_named_set_has_its_members() {
    assert_eq!(members(&EncodeSet::Simple), simple_and(""));
    assert_eq!(members(&EncodeSet::Query), simple_and(" \"#<>"));
    assert_eq!(members(&EncodeSet::PlusQuery), simple_and("\"#<>+"));
    assert_eq!(members(&EncodeSet::Default), simple_and(" \"#<>?`{}"));
    assert_eq!(members(&EncodeSet::PathSegment), simple_and(" \"#<>?`{}%/:;=@[\\]^|"));
    assert_eq!(members(&EncodeSet::Userinfo), simple_and(" \"#<>?`{}/:;=@[\\]^|"));
    assert_eq!(members(&EncodeSet::AllReserved), simple_and(":/?#[]@!$&,'`()*+,;= %"));
    assert_eq!(members(&EncodeSet::AllReservedPlus), simple_and(":/?#[]@!$&,'`()*+,;=%"));
}

#[test]
fn the_simple_set_ends_below_space_and_starts_again_at_delete() {
    let set = EncodeSet::Simple;
    assert!(set.contains(0x00));
    assert!(set.contains(0x1f));
    assert!(!set.contains(0x20));
    assert!(!set.contains(0x7e));
    assert!(set.contains(0x7f));
    assert!(set.contains(0x80));
    assert!(set.contains(0xff));
}

#[test]
fn the_all_sets_hold_every_byte_but_perhaps_space() {
    let all = AllCharactersEncodeSet::new();
    let but_space = AllCharactersExceptSpaceEncodeSet::new();
    for byte in 0..=255u8 {
        assert!(all.contains(byte));
        assert_eq!(but_space.contains(byte), byte != b' ');
    }
    assert_eq!(members(&EncodeSet::All(all)).len(), 256);
    assert_eq!(members(&EncodeSet::AllExceptSpace(but_space)).len(), 255);
}

#[test]
fn a_custom_set_holds_the_bytes_of_its_string() {
    let set = CustomEncodeSet::from("a/\u{e9}");
    assert!(set.contains(b'a'));
    assert!(set.contains(b'/'));
    assert!(set.contains(0xc3));
    assert!(set.contains(0xa9));
    assert!(!set.contains(b'b'));
    assert!(!set.contains(0xaa));
    let empty = CustomEncodeSet::from("");
    assert!((0..=255u8).all(|b| !empty.contains(b)));
    assert_eq!(members(&EncodeSet::Custom(set)), vec![b'/', b'a', 0xa9, 0xc3]);
}

#[test]
fn a_copy_of_a_set_has_the_same_members() {
    let set = EncodeSet::Custom(CustomEncodeSet::from("xyz"));
    assert_eq!(members(&set.clone()), members(&set));
    assert_eq!(members(&EncodeSet::PlusQuery.clone()), members(&EncodeSet::PlusQuery));
}

#[test]
fn the_sets_serve_the_percent_encoder_directly() {
    assert_eq!(percent_encode(b"a b", AllCharactersEncodeSet::new()).to_string(), "%61%20%62");
    assert_eq!(
        percent_encode(b"a b", AllCharactersExceptSpaceEncodeSet::new()).to_string(),
        "%61 %62"
    );
    assert_eq!(percent_encode(b"a/b", CustomEncodeSet::from("/")).to_string(), "a%2Fb");
    assert_eq!(percent_encode(b"a+b c", EncodeSet::PlusQuery).to_string(), "a%2Bb c");
}

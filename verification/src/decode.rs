//! Percent-decoding of text.

use crate::codec::{
    decoded, escaped, escapes_well_formed, inside_escape, is_hex_digit,
    lemma_decoded_escaped, lemma_members_only_inside_escapes, percent_is_escaped, unescaped,
    PERCENT, PLUS, SPACE,
};
use crate::encode::plus_form;
use crate::encode_sets::{all_except_space_set, all_reserved_plus_set, plus_query_set};
use crate::error::EncodeError;
use crate::text::{replace_ascii, replaced};
use vstd::prelude::*;
use vstd::string::*;
use vstd::utf8::*;

verus! {

/// The reason for which bytes are not UTF-8. Nothing is read from it.
#[verifier::external_type_specification]
#[verifier::external_body]
pub struct ExUtf8Error(core::str::Utf8Error);

/// `percent_encoding::percent_decode` followed by `PercentDecode::decode_utf8`.
///
/// The first replaces each `%` that two hexadecimal digits follow, of either
/// case, by the byte they spell, and lets every other byte through; the
/// second hands the bytes back as text if they are UTF-8 and fails if not.
#[verifier::external_body]
fn percent_decode_utf8(input: &[u8]) -> (outcome: Result<String, core::str::Utf8Error>)
    ensures
        outcome is Ok <==> valid_utf8(unescaped(input@)),
        outcome matches Ok(text) ==> encode_utf8(text@) == unescaped(input@),
{
    match percent_encoding::percent_decode(input).decode_utf8() {
        Ok(text) => Ok(text.into_owned()),
        Err(e) => Err(e),
    }
}

fn is_hex(byte: u8) -> (hex: bool)
    ensures
        hex == is_hex_digit(byte),
{
    (0x30 <= byte && byte <= 0x39) || (0x41 <= byte && byte <= 0x46) || (0x61 <= byte && byte
        <= 0x66)
}

/// Whether every `%` in `text`, read from the left, is followed by two
/// hexadecimal digits.
pub fn has_well_formed_escapes(text: &[u8]) -> (well_formed: bool)
    ensures
        well_formed == escapes_well_formed(text@),
{
    let mut i: usize = 0;
    assert(text@.skip(0) == text@);
    while i < text.len()
        invariant
            i <= text.len(),
            escapes_well_formed(text@) == escapes_well_formed(text@.skip(i as int)),
        decreases text.len() - i,
    {
        let ghost rest = text@.skip(i as int);
        if text[i] == PERCENT {
            if text.len() - i < 3 || !is_hex(text[i + 1]) || !is_hex(text[i + 2]) {
                return false;
            }
            assert(rest.skip(3) == text@.skip(i + 3));
            i += 3;
        } else {
            assert(rest.skip(1) == text@.skip(i + 1));
            i += 1;
        }
    }
    true
}

/// Decodes percent-encoded text: each `%HH` becomes one byte, and the
/// resulting bytes are read as UTF-8.
pub fn decode(url: &str) -> (outcome: Result<String, EncodeError>)
    ensures
        match outcome {
            Ok(text) => decoded(url.spec_bytes()) == Ok::<Seq<u8>, EncodeError>(
                encode_utf8(text@),
            ),
            Err(e) => decoded(url.spec_bytes()) == Err::<Seq<u8>, EncodeError>(e),
        },
{
    let bytes = url.as_bytes();
    if !has_well_formed_escapes(bytes) {
        return Err(EncodeError::MalformedEscape);
    }
    match percent_decode_utf8(bytes) {
        Ok(text) => Ok(text),
        Err(_) => Err(EncodeError::InvalidUtf8),
    }
}

/// `bytes` with every `+` turned into a space.
pub open spec fn space_form(bytes: Seq<u8>) -> Seq<u8> {
    replaced(bytes, PLUS, SPACE)
}

/// Decodes text in plus form: every `+` is read as a space, and the result
/// is decoded as `decode` does.
pub fn decode_plus(url: &str) -> (outcome: Result<String, EncodeError>)
    ensures
        match outcome {
            Ok(text) => decoded(space_form(url.spec_bytes())) == Ok::<Seq<u8>, EncodeError>(
                encode_utf8(text@),
            ),
            Err(e) => decoded(space_form(url.spec_bytes())) == Err::<Seq<u8>, EncodeError>(e),
        },
{
    let spaced = replace_ascii(url, PLUS, SPACE);
    decode(spaced.as_str())
}

/// Reading `+` as space undoes the plus form of a text in which no `+`
/// stands.
pub proof fn lemma_space_form_of_plus_form(bytes: Seq<u8>)
    requires
        forall|i: int| 0 <= i < bytes.len() ==> bytes[i] != PLUS,
    ensures
        space_form(plus_form(bytes)) == bytes,
{
}

/// Text encoded under a set that holds `+` and put into plus form decodes,
/// with `+` read as space, to what it was made from, exactly where every `%`
/// of the text is escaped.
pub proof fn lemma_decoded_plus_form(text: Seq<u8>, set: Set<u8>)
    requires
        valid_utf8(text),
        set.contains(PLUS),
    ensures
        decoded(space_form(plus_form(escaped(text, set)))) == Ok::<Seq<u8>, EncodeError>(text)
            <==> percent_is_escaped(text, set),
{
    let out = escaped(text, set);
    lemma_members_only_inside_escapes(text, set);
    assert forall|i: int| 0 <= i < out.len() implies out[i] != PLUS by {
        if out[i] == PLUS {
            assert(inside_escape(out, i));
        }
    }
    lemma_space_form_of_plus_form(out);
    lemma_decoded_escaped(text, set);
}

/// A query in plus form decodes to the text it was made from exactly where
/// that text holds no `%`.
pub proof fn lemma_decoded_plus_query(text: Seq<u8>)
    requires
        valid_utf8(text),
    ensures
        decoded(space_form(plus_form(escaped(text, plus_query_set())))) == Ok::<
            Seq<u8>,
            EncodeError,
        >(text) <==> forall|i: int| 0 <= i < text.len() ==> text[i] != PERCENT,
{
    lemma_decoded_plus_form(text, plus_query_set());
}

/// Text in the plus form of the reserved characters, or of all characters,
/// always decodes to what it was made from.
pub proof fn lemma_decoded_plus_of_all(text: Seq<u8>)
    requires
        valid_utf8(text),
    ensures
        decoded(space_form(plus_form(escaped(text, all_reserved_plus_set())))) == Ok::<
            Seq<u8>,
            EncodeError,
        >(text),
        decoded(space_form(plus_form(escaped(text, all_except_space_set())))) == Ok::<
            Seq<u8>,
            EncodeError,
        >(text),
{
    lemma_decoded_plus_form(text, all_reserved_plus_set());
    lemma_decoded_plus_form(text, all_except_space_set());
}

} // verus!

//! Percent-encoding of text, one function for each part of a URI, and of a
//! whole URL part by part.

use crate::codec::{
    copies_are_ascii, copies_are_printable, escaped, inside_escape, is_printable,
    lemma_escaped_printable, lemma_escaped_printable_above_simple,
    lemma_members_only_inside_escapes, percent_encode, HASH, PLUS, QUESTION, SPACE,
};
use crate::encode_sets::{
    all_except_space_set, all_reserved_plus_set, all_reserved_set, all_set, default_set,
    path_segment_set, plus_query_set, query_set, simple_set, userinfo_set,
    AllCharactersEncodeSet, AllCharactersExceptSpaceEncodeSet, CustomEncodeSet, EncodeSet,
};
use crate::error::EncodeError;
use crate::text::{
    append_text, lemma_encode_utf8_ascii_char, replace_ascii, replaced, split_at_first,
};
use vstd::prelude::*;
use vstd::string::*;
use vstd::utf8::*;

verus! {

/// `bytes` with every space turned into `+`.
pub open spec fn plus_form(bytes: Seq<u8>) -> Seq<u8> {
    replaced(bytes, SPACE, PLUS)
}

/// The plus form of printable text is printable.
pub proof fn lemma_plus_form_printable(bytes: Seq<u8>)
    requires
        is_printable(bytes),
    ensures
        is_printable(plus_form(bytes)),
{
    assert forall|i: int| 0 <= i < plus_form(bytes).len() implies 0x20 <= #[trigger] plus_form(
        bytes,
    )[i] <= 0x7E by {
        assert(0x20 <= bytes[i] <= 0x7E);
    }
}

/// Percent-encodes `string` under `set`: each byte of its UTF-8 form that is
/// a member becomes `%HH`, each other byte stays.
pub fn encode(string: &str, set: EncodeSet) -> (text: String)
    requires
        copies_are_ascii(string.spec_bytes(), set.members()),
    ensures
        encode_utf8(text@) == escaped(string.spec_bytes(), set.members()),
        is_printable(encode_utf8(text@)) <==> copies_are_printable(
            string.spec_bytes(),
            set.members(),
        ),
{
    proof {
        lemma_escaped_printable(string.spec_bytes(), set.members());
    }
    percent_encode(string.as_bytes(), set)
}

/// Encodes for a query string.
pub fn encode_query(query: &str) -> (text: String)
    ensures
        encode_utf8(text@) == escaped(query.spec_bytes(), query_set()),
        is_printable(encode_utf8(text@)),
{
    proof {
        lemma_escaped_printable_above_simple(query.spec_bytes(), query_set());
    }
    encode(query, EncodeSet::Query)
}

/// Encodes for a query string in plus form: space becomes `+`, and `+`
/// becomes `%2B`.
pub fn encode_query_plus(query: &str) -> (text: String)
    ensures
        encode_utf8(text@) == plus_form(escaped(query.spec_bytes(), plus_query_set())),
        is_printable(encode_utf8(text@)),
{
    proof {
        lemma_escaped_printable(
            query.spec_bytes(),
            plus_query_set(),
        );
        lemma_plus_form_printable(escaped(query.spec_bytes(), plus_query_set()));
    }
    let encoded = encode(query, EncodeSet::PlusQuery);
    replace_ascii(encoded.as_str(), SPACE, PLUS)
}

/// Encodes for a path.
pub fn encode_path(path: &str) -> (text: String)
    ensures
        encode_utf8(text@) == escaped(path.spec_bytes(), default_set()),
        is_printable(encode_utf8(text@)),
{
    proof {
        lemma_escaped_printable_above_simple(path.spec_bytes(), default_set());
    }
    encode(path, EncodeSet::Default)
}

/// Encodes for a single segment of a path.
pub fn encode_path_segment(path_segment: &str) -> (text: String)
    ensures
        encode_utf8(text@) == escaped(path_segment.spec_bytes(), path_segment_set()),
        is_printable(encode_utf8(text@)),
{
    proof {
        lemma_escaped_printable_above_simple(path_segment.spec_bytes(), path_segment_set());
    }
    encode(path_segment, EncodeSet::PathSegment)
}

/// Encodes for user name and password.
pub fn encode_userinfo(userinfo: &str) -> (text: String)
    ensures
        encode_utf8(text@) == escaped(userinfo.spec_bytes(), userinfo_set()),
        is_printable(encode_utf8(text@)),
{
    proof {
        lemma_escaped_printable_above_simple(userinfo.spec_bytes(), userinfo_set());
    }
    encode(userinfo, EncodeSet::Userinfo)
}

/// Encodes for a fragment.
pub fn encode_fragment(fragment: &str) -> (text: String)
    ensures
        encode_utf8(text@) == escaped(fragment.spec_bytes(), simple_set()),
        is_printable(encode_utf8(text@)),
{
    proof {
        lemma_escaped_printable_above_simple(fragment.spec_bytes(), simple_set());
    }
    encode(fragment, EncodeSet::Simple)
}

/// Encodes every character that is reserved in any part of a URI.
pub fn encode_all_reserved(string: &str) -> (text: String)
    ensures
        encode_utf8(text@) == escaped(string.spec_bytes(), all_reserved_set()),
        is_printable(encode_utf8(text@)),
{
    proof {
        lemma_escaped_printable_above_simple(string.spec_bytes(), all_reserved_set());
    }
    encode(string, EncodeSet::AllReserved)
}

/// Encodes every reserved character but space, which becomes `+`.
pub fn encode_all_reserved_plus(string: &str) -> (text: String)
    ensures
        encode_utf8(text@) == plus_form(escaped(string.spec_bytes(), all_reserved_plus_set())),
        is_printable(encode_utf8(text@)),
{
    proof {
        lemma_escaped_printable(
            string.spec_bytes(),
            all_reserved_plus_set(),
        );
        lemma_plus_form_printable(escaped(string.spec_bytes(), all_reserved_plus_set()));
    }
    let encoded = encode(string, EncodeSet::AllReservedPlus);
    replace_ascii(encoded.as_str(), SPACE, PLUS)
}

/// Encodes every byte.
pub fn encode_all(string: &str) -> (text: String)
    ensures
        encode_utf8(text@) == escaped(string.spec_bytes(), all_set()),
        is_printable(encode_utf8(text@)),
{
    proof {
        lemma_escaped_printable_above_simple(string.spec_bytes(), all_set());
    }
    encode(string, EncodeSet::All(AllCharactersEncodeSet::new()))
}

/// Encodes every byte but space, which becomes `+`.
pub fn encode_all_plus(string: &str) -> (text: String)
    ensures
        encode_utf8(text@) == plus_form(escaped(string.spec_bytes(), all_except_space_set())),
        is_printable(encode_utf8(text@)),
{
    proof {
        lemma_escaped_printable(
            string.spec_bytes(),
            all_except_space_set(),
        );
        lemma_plus_form_printable(escaped(string.spec_bytes(), all_except_space_set()));
    }
    let encoded = encode(string, EncodeSet::AllExceptSpace(AllCharactersExceptSpaceEncodeSet::new()));
    replace_ascii(encoded.as_str(), SPACE, PLUS)
}

/// The bytes that `encode_characters` writes as `%HH`: those of
/// `chars_to_encode`.
pub open spec fn custom_set(chars_to_encode: Seq<u8>) -> Set<u8> {
    Set::new(|b: u8| chars_to_encode.contains(b))
}

/// Encodes exactly the characters listed in `chars_to_encode`, which then
/// stand in the result only inside escapes. Whatever else `string` holds must
/// be ASCII.
pub fn encode_characters(string: &str, chars_to_encode: &str) -> (text: String)
    requires
        copies_are_ascii(string.spec_bytes(), custom_set(chars_to_encode.spec_bytes())),
    ensures
        encode_utf8(text@) == escaped(
            string.spec_bytes(),
            custom_set(chars_to_encode.spec_bytes()),
        ),
        is_printable(encode_utf8(text@)) <==> copies_are_printable(
            string.spec_bytes(),
            custom_set(chars_to_encode.spec_bytes()),
        ),
        forall|at: int|
            0 <= at < encode_utf8(text@).len() && chars_to_encode.spec_bytes().contains(
                #[trigger] encode_utf8(text@)[at],
            ) ==> inside_escape(encode_utf8(text@), at),
{
    let set = CustomEncodeSet::from(chars_to_encode);
    assert(set.members() == custom_set(chars_to_encode.spec_bytes()));
    proof {
        lemma_members_only_inside_escapes(string.spec_bytes(), set.members());
    }
    encode(string, EncodeSet::Custom(set))
}

/// The encoding of what follows the first `?` of a URL: the query in plus
/// form and, behind the first `#`, the fragment.
pub open spec fn query_and_fragment_form(rest: Seq<u8>) -> Seq<u8> {
    match rest.index_of_first(HASH) {
        Some(i) => plus_form(escaped(rest.take(i), plus_query_set())) + seq![HASH] + escaped(
            rest.skip(i + 1),
            simple_set(),
        ),
        None => plus_form(escaped(rest, plus_query_set())),
    }
}

/// Encodes what follows the first `?` of a URL. The text is split at its
/// first `#`: what stands before is encoded as a query in plus form, what
/// stands behind as a fragment, and the `#` stays between them.
pub fn handle_query_and_fragment_plus(query_and_fragment: &str) -> (text: String)
    ensures
        encode_utf8(text@) == query_and_fragment_form(query_and_fragment.spec_bytes()),
        is_printable(encode_utf8(text@)),
{
    let (query, fragment) = split_at_first(query_and_fragment, HASH);
    let mut encoded_query = encode_query_plus(query);
    match fragment {
        Some(fragment) => {
            proof {
                reveal_strlit("#");
                lemma_encode_utf8_ascii_char("#"@);
            }
            append_text(&mut encoded_query, "#");
            let encoded_fragment = encode_fragment(fragment);
            append_text(&mut encoded_query, encoded_fragment.as_str());
            encoded_query
        },
        None => encoded_query,
    }
}

/// The URL parser's reason for a refusal. Nothing is read from it.
#[verifier::external_type_specification]
#[verifier::external_body]
pub struct ExParseError(url::ParseError);

/// The text that the URL parser writes for `input`, where it accepts it.
pub uninterp spec fn serialized_url(input: Seq<char>) -> Option<Seq<char>>;

/// `url::Url::parse`, and `to_string` on the URL it gives.
///
/// The parser takes the text alone and either refuses it or gives a URL,
/// whose serialization this hands back: the same text has the same outcome.
/// It wants an absolute URL, and finds no scheme in a text without `:`; no
/// more than that is claimed of what it refuses.
#[verifier::external_body]
fn parse_and_serialize(url: &str) -> (outcome: Result<String, url::ParseError>)
    ensures
        match outcome {
            Ok(text) => serialized_url(url@) == Some(text@),
            Err(_) => serialized_url(url@) is None,
        },
        !url@.contains(':') ==> outcome is Err,
{
    match url::Url::parse(url) {
        Ok(parsed) => Ok(parsed.to_string()),
        Err(e) => Err(e),
    }
}

/// The bytes of the serialization of the URL that the bytes `input` spell.
pub open spec fn url_form(input: Seq<u8>) -> Option<Seq<u8>> {
    match serialized_url(decode_utf8(input)) {
        Some(text) => Some(encode_utf8(text)),
        None => None,
    }
}

/// Parses `url` and writes it out again, each part escaped as the parser
/// sees fit.
pub fn encode_url(url: &str) -> (outcome: Result<String, EncodeError>)
    ensures
        match outcome {
            Ok(text) => url_form(url.spec_bytes()) == Some(encode_utf8(text@)),
            Err(e) => e == EncodeError::InvalidUrl && url_form(url.spec_bytes()) is None,
        },
        !url@.contains(':') ==> outcome is Err,
{
    proof {
        encode_utf8_decode_utf8(url@);
    }
    match parse_and_serialize(url) {
        Ok(text) => Ok(text),
        Err(_) => Err(EncodeError::InvalidUrl),
    }
}

/// Puts `?` and the encoding of `query_and_fragment` behind an encoded
/// prefix. A prefix that failed stays the failure it is.
pub fn with_query_and_fragment(
    prefix: Result<String, EncodeError>,
    query_and_fragment: &str,
) -> (outcome: Result<String, EncodeError>)
    ensures
        match prefix {
            Ok(head) => {
                &&& outcome matches Ok(text)
                &&& encode_utf8(text@) == encode_utf8(head@) + seq![QUESTION]
                    + query_and_fragment_form(query_and_fragment.spec_bytes())
            },
            Err(e) => outcome == Err::<String, EncodeError>(e),
        },
{
    match prefix {
        Ok(head) => {
            let mut text = head;
            proof {
                reveal_strlit("?");
                lemma_encode_utf8_ascii_char("?"@);
            }
            append_text(&mut text, "?");
            let tail = handle_query_and_fragment_plus(query_and_fragment);
            append_text(&mut text, tail.as_str());
            Ok(text)
        },
        Err(e) => Err(e),
    }
}

/// What `encode_url_plus` makes of a URL: with a `?` in it, the serialization
/// of what stands before the first one, the `?`, and the encoding of what
/// follows; without one, the serialization of the whole.
pub open spec fn url_plus_form(input: Seq<u8>) -> Option<Seq<u8>> {
    match input.index_of_first(QUESTION) {
        Some(i) => match url_form(input.take(i)) {
            Some(prefix) => Some(
                prefix + seq![QUESTION] + query_and_fragment_form(input.skip(i + 1)),
            ),
            None => None,
        },
        None => url_form(input),
    }
}

/// Encodes a URL with its query in plus form. The text is split at its first
/// `?`; what stands before is parsed as a URL, what follows is encoded as
/// query and fragment.
pub fn encode_url_plus(url: &str) -> (outcome: Result<String, EncodeError>)
    ensures
        match outcome {
            Ok(text) => url_plus_form(url.spec_bytes()) == Some(encode_utf8(text@)),
            Err(e) => e == EncodeError::InvalidUrl && url_plus_form(url.spec_bytes()) is None,
        },
        !url@.contains(':') ==> outcome is Err,
{
    let (first, second) = split_at_first(url, QUESTION);
    match second {
        Some(part) => {
            proof {
                if first@.contains(':') {
                    let at = choose|i: int| 0 <= i < first@.len() && first@[i] == ':';
                    assert(url@[at] == ':');
                }
            }
            with_query_and_fragment(encode_url(first), part)
        },
        None => encode_url(url),
    }
}

} // verus!

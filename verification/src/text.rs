//! Text as its UTF-8 bytes: substitution of one ASCII character for another,
//! and splitting at an ASCII delimiter.

use vstd::prelude::*;
use vstd::string::*;
use vstd::utf8::*;

verus! {

/// `byte` with `from` turned into `to`.
pub open spec fn swapped(byte: u8, from: u8, to: u8) -> u8 {
    if byte == from {
        to
    } else {
        byte
    }
}

/// `bytes` with every `from` turned into `to`.
pub open spec fn replaced(bytes: Seq<u8>, from: u8, to: u8) -> Seq<u8> {
    Seq::new(bytes.len(), |i: int| swapped(bytes[i], from, to))
}

/// `chars` with every `from` turned into `to`.
pub open spec fn replaced_chars(chars: Seq<char>, from: char, to: char) -> Seq<char> {
    Seq::new(
        chars.len(),
        |i: int|
            if chars[i] == from {
                to
            } else {
                chars[i]
            },
    )
}

/// `str::replace` with a pattern of one character and a replacement of one
/// character: every occurrence of `from` becomes `to`, and nothing else
/// changes.
#[verifier::external_body]
fn replace_char(text: &str, from: char, to: char) -> (out: String)
    ensures
        out@ == replaced_chars(text@, from, to),
{
    let mut buffer: [u8; 4] = [0; 4];
    text.replace(from, to.encode_utf8(&mut buffer))
}

/// Every byte of the encoding of a character beyond ASCII is 0x80 or more.
proof fn lemma_wide_scalar_bytes(scalar: u32)
    requires
        scalar > 0x7F,
    ensures
        forall|i: int|
            0 <= i < encode_scalar(scalar).len() ==> #[trigger] encode_scalar(scalar)[i] >= 0x80,
{
    assert(forall|low: u8| #![auto] 0x80u8 | low >= 0x80) by (bit_vector);
    assert(forall|low: u8| #![auto] 0xC0u8 | low >= 0x80) by (bit_vector);
    assert(forall|low: u8| #![auto] 0xE0u8 | low >= 0x80) by (bit_vector);
    assert(forall|low: u8| #![auto] 0xF0u8 | low >= 0x80) by (bit_vector);
}

/// The encoding of an ASCII character is the one byte of its value.
proof fn lemma_ascii_scalar_bytes(scalar: u32)
    requires
        scalar <= 0x7F,
    ensures
        encode_scalar(scalar) == seq![scalar as u8],
{
    assert((scalar & 0x7F) as u8 == scalar as u8) by (bit_vector)
        requires
            scalar <= 0x7F,
    ;
}

/// The encoding of a concatenation is the concatenation of the encodings.
pub proof fn lemma_encode_utf8_concat(a: Seq<char>, b: Seq<char>)
    ensures
        encode_utf8(a + b) == encode_utf8(a) + encode_utf8(b),
    decreases a.len(),
{
    if a.len() == 0 {
        assert(a + b == b);
    } else {
        assert((a + b).drop_first() == a.drop_first() + b);
        lemma_encode_utf8_concat(a.drop_first(), b);
    }
}

/// Substituting one ASCII character for another in a text is substituting
/// the one byte for the other in its encoding.
pub proof fn lemma_replace_commutes(chars: Seq<char>, from: u8, to: u8)
    requires
        from < 0x80,
        to < 0x80,
    ensures
        encode_utf8(replaced_chars(chars, from as char, to as char)) == replaced(
            encode_utf8(chars),
            from,
            to,
        ),
    decreases chars.len(),
{
    let out = replaced_chars(chars, from as char, to as char);
    if chars.len() == 0 {
    } else {
        let rest = chars.drop_first();
        lemma_replace_commutes(rest, from, to);
        assert(out.drop_first() == replaced_chars(rest, from as char, to as char));
        let head = encode_scalar(chars[0] as u32);
        let new_head = encode_scalar(out[0] as u32);
        assert(new_head == replaced(head, from, to)) by {
            let c = chars[0];
            if c as u32 <= 0x7F {
                lemma_ascii_scalar_bytes(c as u32);
                lemma_ascii_scalar_bytes(out[0] as u32);
                char_u32_cast(c, c as u32);
            } else {
                lemma_wide_scalar_bytes(c as u32);
            }
        }
        assert(replaced(head + encode_utf8(rest), from, to) == replaced(head, from, to)
            + replaced(encode_utf8(rest), from, to));
    }
}

/// A text of one ASCII character is encoded as the one byte of its value.
pub proof fn lemma_encode_utf8_ascii_char(chars: Seq<char>)
    requires
        chars.len() == 1,
        chars[0] as u32 <= 0x7F,
    ensures
        encode_utf8(chars) == seq![(chars[0] as u32) as u8],
{
    lemma_ascii_scalar_bytes(chars[0] as u32);
    assert(encode_utf8(chars.drop_first()) == Seq::<u8>::empty());
}

/// Puts `tail` behind what `target` holds.
pub fn append_text(target: &mut String, tail: &str)
    ensures
        encode_utf8(final(target)@) == encode_utf8(old(target)@) + tail.spec_bytes(),
{
    proof {
        lemma_encode_utf8_concat(target@, tail@);
    }
    target.append(tail);
}

/// `text` with every `from` turned into `to`, both ASCII.
pub fn replace_ascii(text: &str, from: u8, to: u8) -> (out: String)
    requires
        from < 0x80,
        to < 0x80,
    ensures
        encode_utf8(out@) == replaced(text.spec_bytes(), from, to),
{
    proof {
        lemma_replace_commutes(text@, from, to);
    }
    replace_char(text, from as char, to as char)
}

/// Splits `text` at the first occurrence of an ASCII delimiter into what
/// stands before it and what stands after it. Without an occurrence the
/// whole text comes first and nothing second.
pub fn split_at_first<'a>(text: &'a str, delimiter: u8) -> (parts: (&'a str, Option<&'a str>))
    requires
        delimiter < 0x80,
    ensures
        match text.spec_bytes().index_of_first(delimiter) {
            Some(i) => {
                &&& parts.0.spec_bytes() == text.spec_bytes().take(i)
                &&& parts.1 matches Some(rest)
                &&& rest.spec_bytes() == text.spec_bytes().skip(i + 1)
                &&& text@ == parts.0@ + seq![delimiter as char] + rest@
            },
            None => parts.0.spec_bytes() == text.spec_bytes() && parts.1 is None,
        },
{
    let bytes = text.as_bytes();
    proof {
        encode_utf8_valid_utf8(text@);
    }
    let mut i: usize = 0;
    while i < bytes.len()
        invariant
            i <= bytes.len(),
            bytes@ == text.spec_bytes(),
            valid_utf8(bytes@),
            delimiter < 0x80,
            forall|j: int| 0 <= j < i ==> bytes@[j] != delimiter,
        decreases bytes.len() - i,
    {
        if bytes[i] == delimiter {
            proof {
                is_char_boundary_iff_not_is_continuation_byte(bytes@, i as int);
            }
            let (head, tail) = text.split_at(i);
            proof {
                encode_utf8_valid_utf8(tail@);
                reveal_with_fuel(is_char_boundary, 2);
            }
            let (_, rest) = tail.split_at(1);
            proof {
                bytes@.index_of_first_ensures(delimiter);
                assert(head.spec_bytes() == bytes@.take(i as int));
                assert(rest.spec_bytes() == bytes@.skip(i + 1));
                let middle = seq![delimiter as char];
                let joined = head@ + middle + rest@;
                lemma_encode_utf8_ascii_char(middle);
                lemma_encode_utf8_concat(head@, middle);
                lemma_encode_utf8_concat(head@ + middle, rest@);
                assert(encode_utf8(joined) == bytes@);
                encode_utf8_decode_utf8(joined);
                encode_utf8_decode_utf8(text@);
            }
            return (head, Some(rest));
        }
        i += 1;
    }
    proof {
        bytes@.index_of_first_ensures(delimiter);
    }
    (text, None)
}

} // verus!

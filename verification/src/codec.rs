//! The percent codec on bytes: what escaping and unescaping mean, and the
//! calls into `percent_encoding` that carry them out.

use crate::encode_sets::EncodeSet;
use crate::error::EncodeError;
use vstd::prelude::*;
use vstd::utf8::*;

verus! {

pub const PERCENT: u8 = 0x25;

pub const SPACE: u8 = 0x20;

pub const PLUS: u8 = 0x2B;

pub const QUESTION: u8 = 0x3F;

pub const HASH: u8 = 0x23;

/// The upper-case hexadecimal digit for a value below 16.
pub open spec fn hex_digit(value: u8) -> u8 {
    if value < 10 {
        (0x30 + value) as u8
    } else {
        (0x37 + value) as u8
    }
}

/// The three bytes `%HH` that stand for `byte`.
pub open spec fn escape_of(byte: u8) -> Seq<u8> {
    seq![PERCENT, hex_digit(byte / 16), hex_digit(byte % 16)]
}

/// `bytes` with every member of `set` replaced by its escape and every other
/// byte kept.
pub open spec fn escaped(bytes: Seq<u8>, set: Set<u8>) -> Seq<u8>
    decreases bytes.len(),
{
    if bytes.len() == 0 {
        Seq::empty()
    } else if set.contains(bytes[0]) {
        escape_of(bytes[0]) + escaped(bytes.drop_first(), set)
    } else {
        seq![bytes[0]] + escaped(bytes.drop_first(), set)
    }
}

/// Whether every byte of `bytes` that `set` lets through is ASCII.
pub open spec fn copies_are_ascii(bytes: Seq<u8>, set: Set<u8>) -> bool {
    forall|i: int| 0 <= i < bytes.len() && !set.contains(bytes[i]) ==> bytes[i] < 0x80
}

/// Whether `byte` is a hexadecimal digit of either case.
pub open spec fn is_hex_digit(byte: u8) -> bool {
    ||| 0x30 <= byte <= 0x39
    ||| 0x41 <= byte <= 0x46
    ||| 0x61 <= byte <= 0x66
}

/// The value of a hexadecimal digit of either case.
pub open spec fn hex_value(digit: u8) -> int {
    if digit <= 0x39 {
        digit - 0x30
    } else if digit <= 0x46 {
        digit - 0x37
    } else {
        digit - 0x57
    }
}

/// Whether `text` starts with `%` and two hexadecimal digits.
pub open spec fn starts_with_escape(text: Seq<u8>) -> bool {
    &&& text.len() >= 3
    &&& text[0] == PERCENT
    &&& is_hex_digit(text[1])
    &&& is_hex_digit(text[2])
}

/// `text` read from the left, with every `%HH` replaced by the byte it
/// stands for. A `%` that starts no escape is kept as it is.
pub open spec fn unescaped(text: Seq<u8>) -> Seq<u8>
    decreases text.len(),
{
    if text.len() == 0 {
        Seq::empty()
    } else if starts_with_escape(text) {
        seq![(hex_value(text[1]) * 16 + hex_value(text[2])) as u8] + unescaped(text.skip(3))
    } else {
        seq![text[0]] + unescaped(text.skip(1))
    }
}

/// Whether every `%` that is met when `text` is read from the left starts
/// an escape.
pub open spec fn escapes_well_formed(text: Seq<u8>) -> bool
    decreases text.len(),
{
    if text.len() == 0 {
        true
    } else if text[0] == PERCENT {
        starts_with_escape(text) && escapes_well_formed(text.skip(3))
    } else {
        escapes_well_formed(text.skip(1))
    }
}

/// The bytes of the text that `text` decodes to.
pub open spec fn decoded(text: Seq<u8>) -> Result<Seq<u8>, EncodeError> {
    if !escapes_well_formed(text) {
        Err(EncodeError::MalformedEscape)
    } else if !valid_utf8(unescaped(text)) {
        Err(EncodeError::InvalidUtf8)
    } else {
        Ok(unescaped(text))
    }
}

/// Whether every byte is printable ASCII, space included.
pub open spec fn is_printable(bytes: Seq<u8>) -> bool {
    forall|i: int| 0 <= i < bytes.len() ==> 0x20 <= #[trigger] bytes[i] <= 0x7E
}

/// Whether every byte of `bytes` that `set` lets through is printable ASCII.
pub open spec fn copies_are_printable(bytes: Seq<u8>, set: Set<u8>) -> bool {
    forall|i: int|
        0 <= i < bytes.len() && !set.contains(bytes[i]) ==> 0x20 <= #[trigger] bytes[i] <= 0x7E
}

/// Whether every `%` in `bytes` is escaped under `set`.
pub open spec fn percent_is_escaped(bytes: Seq<u8>, set: Set<u8>) -> bool {
    set.contains(PERCENT) || forall|i: int| 0 <= i < bytes.len() ==> #[trigger] bytes[i] != PERCENT
}

/// The number of bytes of `bytes` that are written as escapes under `set`.
pub open spec fn escape_count(bytes: Seq<u8>, set: Set<u8>) -> nat
    decreases bytes.len(),
{
    if bytes.len() == 0 {
        0
    } else if set.contains(bytes[0]) {
        1 + escape_count(bytes.drop_first(), set)
    } else {
        escape_count(bytes.drop_first(), set)
    }
}

/// Whether `byte` is a hexadecimal digit as the encoder writes them.
pub open spec fn is_upper_hex_digit(byte: u8) -> bool {
    0x30 <= byte <= 0x39 || 0x41 <= byte <= 0x46
}

/// Whether an escape `%HH` in upper case stands in `text` from `start` on.
pub open spec fn escape_at(text: Seq<u8>, start: int) -> bool {
    &&& 0 <= start
    &&& start + 3 <= text.len()
    &&& text[start] == PERCENT
    &&& is_upper_hex_digit(text[start + 1])
    &&& is_upper_hex_digit(text[start + 2])
}

/// Whether position `at` of `text` belongs to an escape.
pub open spec fn inside_escape(text: Seq<u8>, at: int) -> bool {
    escape_at(text, at) || escape_at(text, at - 1) || escape_at(text, at - 2)
}

/// An escape is `%` and two upper-case hexadecimal digits that spell the
/// byte.
pub proof fn lemma_escape_of(byte: u8)
    ensures
        escape_of(byte).len() == 3,
        escape_of(byte)[0] == PERCENT,
        is_upper_hex_digit(escape_of(byte)[1]),
        is_upper_hex_digit(escape_of(byte)[2]),
        hex_value(escape_of(byte)[1]) * 16 + hex_value(escape_of(byte)[2]) == byte,
{
}

/// The encoder's output is printable ASCII exactly when every byte that it
/// copies is.
pub proof fn lemma_escaped_printable(bytes: Seq<u8>, set: Set<u8>)
    ensures
        is_printable(escaped(bytes, set)) <==> copies_are_printable(bytes, set),
    decreases bytes.len(),
{
    if bytes.len() > 0 {
        let rest = bytes.drop_first();
        let tail = escaped(rest, set);
        let out = escaped(bytes, set);
        lemma_escaped_printable(rest, set);
        lemma_escape_of(bytes[0]);
        let head = if set.contains(bytes[0]) {
            escape_of(bytes[0])
        } else {
            seq![bytes[0]]
        };
        assert(out == head + tail);
        if copies_are_printable(bytes, set) {
            assert forall|i: int| 0 <= i < rest.len() && !set.contains(rest[i]) implies 0x20
                <= #[trigger] rest[i] <= 0x7E by {
                assert(rest[i] == bytes[i + 1]);
            }
            assert forall|j: int| 0 <= j < out.len() implies 0x20 <= #[trigger] out[j] <= 0x7E by {
                if j >= head.len() {
                    assert(out[j] == tail[j - head.len()]);
                } else if !set.contains(bytes[0]) {
                    assert(out[j] == bytes[0]);
                }
            }
        }
        if is_printable(out) {
            assert forall|j: int| 0 <= j < tail.len() implies 0x20 <= #[trigger] tail[j]
                <= 0x7E by {
                assert(tail[j] == out[j + head.len()]);
            }
            assert forall|i: int| 0 <= i < bytes.len() && !set.contains(bytes[i]) implies 0x20
                <= #[trigger] bytes[i] <= 0x7E by {
                if i == 0 {
                    assert(out[0] == bytes[0]);
                } else {
                    assert(bytes[i] == rest[i - 1]);
                }
            }
        }
    }
}

/// Under a set that holds every byte without a printable form, the encoder's
/// output is printable ASCII.
pub proof fn lemma_escaped_printable_above_simple(bytes: Seq<u8>, set: Set<u8>)
    requires
        crate::encode_sets::simple_set().subset_of(set),
    ensures
        is_printable(escaped(bytes, set)),
{
    lemma_escaped_printable(bytes, set);
    assert forall|i: int| 0 <= i < bytes.len() && !set.contains(bytes[i]) implies 0x20
        <= #[trigger] bytes[i] <= 0x7E by {
        assert(!crate::encode_sets::simple_set().contains(bytes[i]));
    }
}

/// Decoding undoes encoding: where every `%` of `bytes` is escaped, the
/// encoder's output has well-formed escapes and unescapes to `bytes`.
pub proof fn lemma_unescaped_escaped(bytes: Seq<u8>, set: Set<u8>)
    requires
        percent_is_escaped(bytes, set),
    ensures
        escapes_well_formed(escaped(bytes, set)),
        unescaped(escaped(bytes, set)) == bytes,
    decreases bytes.len(),
{
    if bytes.len() > 0 {
        let rest = bytes.drop_first();
        let tail = escaped(rest, set);
        let out = escaped(bytes, set);
        assert(percent_is_escaped(rest, set)) by {
            if !set.contains(PERCENT) {
                assert forall|i: int| 0 <= i < rest.len() implies #[trigger] rest[i]
                    != PERCENT by {
                    assert(rest[i] == bytes[i + 1]);
                }
            }
        }
        lemma_unescaped_escaped(rest, set);
        lemma_escape_of(bytes[0]);
        if set.contains(bytes[0]) {
            assert(out == escape_of(bytes[0]) + tail);
            assert(out.skip(3) == tail);
            assert(starts_with_escape(out));
        } else {
            assert(out == seq![bytes[0]] + tail);
            assert(out.skip(1) == tail);
            assert(bytes[0] != PERCENT);
        }
        assert(bytes == seq![bytes[0]] + rest);
    }
}

/// Where the encoder's output has well-formed escapes, unescaping it gives
/// no more bytes than were encoded, and fewer if a `%` was copied: the
/// decoder reads a copied `%` and the two bytes behind it as one escape.
proof fn lemma_unescaped_escaped_len(bytes: Seq<u8>, set: Set<u8>)
    requires
        escapes_well_formed(escaped(bytes, set)),
    ensures
        unescaped(escaped(bytes, set)).len() <= bytes.len(),
        !percent_is_escaped(bytes, set) ==> unescaped(escaped(bytes, set)).len() < bytes.len(),
    decreases bytes.len(),
{
    if bytes.len() > 0 {
        let rest = bytes.drop_first();
        let tail = escaped(rest, set);
        let out = escaped(bytes, set);
        lemma_escape_of(bytes[0]);
        if set.contains(bytes[0]) || bytes[0] != PERCENT {
            if set.contains(bytes[0]) {
                assert(out == escape_of(bytes[0]) + tail);
                assert(out.skip(3) == tail);
                assert(starts_with_escape(out));
            } else {
                assert(out == seq![bytes[0]] + tail);
                assert(out.skip(1) == tail);
            }
            lemma_unescaped_escaped_len(rest, set);
            if !percent_is_escaped(bytes, set) {
                let at = choose|i: int| 0 <= i < bytes.len() && bytes[i] == PERCENT;
                assert(rest[at - 1] == PERCENT);
            }
        } else {
            assert(out == seq![bytes[0]] + tail);
            assert(starts_with_escape(out));
            assert(is_hex_digit(tail[0]) && is_hex_digit(tail[1]));
            let second = rest.drop_first();
            lemma_escape_of(rest[0]);
            assert(!set.contains(rest[0]));
            assert(tail == seq![rest[0]] + escaped(second, set));
            assert(escaped(second, set)[0] == tail[1]);
            let third = second.drop_first();
            lemma_escape_of(second[0]);
            assert(!set.contains(second[0]));
            assert(escaped(second, set) == seq![second[0]] + escaped(third, set));
            assert(out.skip(3) == escaped(third, set));
            lemma_unescaped_escaped_len(third, set);
        }
    }
}

/// Decoding undoes encoding of text exactly where every `%` of the text is
/// escaped: what the encoder writes for it then decodes to it, and to
/// nothing else or to nothing otherwise.
pub proof fn lemma_decoded_escaped(text: Seq<u8>, set: Set<u8>)
    requires
        valid_utf8(text),
    ensures
        decoded(escaped(text, set)) == Ok::<Seq<u8>, EncodeError>(text) <==> percent_is_escaped(
            text,
            set,
        ),
{
    if percent_is_escaped(text, set) {
        lemma_unescaped_escaped(text, set);
    } else if escapes_well_formed(escaped(text, set)) {
        lemma_unescaped_escaped_len(text, set);
    }
}

/// Each escape adds two bytes to the output, which is thus at most three
/// times as long as the input.
pub proof fn lemma_escaped_len(bytes: Seq<u8>, set: Set<u8>)
    ensures
        escaped(bytes, set).len() == bytes.len() + 2 * escape_count(bytes, set),
        escape_count(bytes, set) <= bytes.len(),
        escaped(bytes, set).len() <= 3 * bytes.len(),
    decreases bytes.len(),
{
    if bytes.len() > 0 {
        lemma_escaped_len(bytes.drop_first(), set);
    }
}

/// Unescaping gives no more bytes than it reads.
pub proof fn lemma_unescaped_len(text: Seq<u8>)
    ensures
        unescaped(text).len() <= text.len(),
    decreases text.len(),
{
    if text.len() > 0 {
        if starts_with_escape(text) {
            lemma_unescaped_len(text.skip(3));
        } else {
            lemma_unescaped_len(text.skip(1));
        }
    }
}

/// A larger set writes at least as many escapes, and so at least as long an
/// output.
pub proof fn lemma_escape_count_monotonic(bytes: Seq<u8>, smaller: Set<u8>, larger: Set<u8>)
    requires
        smaller.subset_of(larger),
    ensures
        escape_count(bytes, smaller) <= escape_count(bytes, larger),
        escaped(bytes, smaller).len() <= escaped(bytes, larger).len(),
    decreases bytes.len(),
{
    lemma_escaped_len(bytes, smaller);
    lemma_escaped_len(bytes, larger);
    if bytes.len() > 0 {
        lemma_escape_count_monotonic(bytes.drop_first(), smaller, larger);
    }
}

/// A member of the set stands in the output only inside an escape, never as
/// a copy.
pub proof fn lemma_members_only_inside_escapes(bytes: Seq<u8>, set: Set<u8>)
    ensures
        forall|at: int|
            0 <= at < escaped(bytes, set).len() && set.contains(#[trigger] escaped(bytes, set)[at])
                ==> inside_escape(escaped(bytes, set), at),
    decreases bytes.len(),
{
    if bytes.len() > 0 {
        let rest = bytes.drop_first();
        let tail = escaped(rest, set);
        let out = escaped(bytes, set);
        lemma_members_only_inside_escapes(rest, set);
        lemma_escape_of(bytes[0]);
        let head = if set.contains(bytes[0]) {
            escape_of(bytes[0])
        } else {
            seq![bytes[0]]
        };
        let shift = head.len() as int;
        assert(out == head + tail);
        assert forall|start: int| escape_at(tail, start) implies escape_at(out, start + shift) by {
            assert(out[start + shift] == tail[start]);
            assert(out[start + shift + 1] == tail[start + 1]);
            assert(out[start + shift + 2] == tail[start + 2]);
        }
        assert forall|at: int| 0 <= at < out.len() && set.contains(#[trigger] out[at]) implies inside_escape(
            out,
            at,
        ) by {
            if at >= shift {
                assert(out[at] == tail[at - shift]);
                assert(inside_escape(tail, at - shift));
            } else if set.contains(bytes[0]) {
                assert(escape_at(out, 0));
            } else {
                assert(out[at] == bytes[0]);
            }
        }
    }
}

/// `percent_encoding::percent_encode`, written out through its `Display`.
///
/// The outside function walks `input` once and asks the set's `contains` of
/// each byte, which is the one proved in `encode_sets`: a byte for which it
/// answers true becomes `%` and two upper-case hexadecimal digits, a run of
/// other bytes is copied. It asserts that a copied byte is ASCII, hence the
/// precondition.
#[verifier::external_body]
pub(crate) fn percent_encode(input: &[u8], set: EncodeSet) -> (text: String)
    requires
        copies_are_ascii(input@, set.members()),
    ensures
        encode_utf8(text@) == escaped(input@, set.members()),
{
    percent_encoding::percent_encode(input, set).to_string()
}

} // verus!

//! The run over the inputs: where they come from, and the line that is
//! written for each.

use crate::error::EncodeError;
use crate::mode::{accepts, outcome_of, Mode, ModeView};
use vstd::prelude::*;
use vstd::string::*;
use vstd::utf8::*;

verus! {

/// The number of characters of an input that a diagnostic shows at most.
pub const DIAGNOSTIC_LIMIT: usize = 80;

/// Where the inputs of a run come from.
#[derive(Clone, Copy, Debug, PartialEq, Eq, Structural)]
pub enum InputSource {
    /// The strings given on the command line.
    Arguments,
    /// The lines of standard input.
    StandardInput,
    /// Nowhere: there is nothing to do but to say so.
    Missing,
}

/// Strings on the command line go first; without any, standard input is
/// read unless it is a terminal.
pub fn input_source(has_arguments: bool, stdin_is_terminal: bool) -> (source: InputSource)
    ensures
        source == if has_arguments {
            InputSource::Arguments
        } else if !stdin_is_terminal {
            InputSource::StandardInput
        } else {
            InputSource::Missing
        },
{
    if has_arguments {
        InputSource::Arguments
    } else if !stdin_is_terminal {
        InputSource::StandardInput
    } else {
        InputSource::Missing
    }
}

/// The line written for one input.
pub enum Emission {
    /// The result, for standard output.
    Output(String),
    /// The report of a refused input, for standard error.
    Diagnostic(String),
}

/// Whether `c` ends a line.
pub open spec fn is_line_break(c: char) -> bool {
    c == '\n' || c == '\r'
}

/// How many characters at the start of `input` a diagnostic may show with
/// `limit` characters to go: those before the first line break, and no more
/// than the limit.
pub open spec fn shown_len(input: Seq<char>, limit: nat) -> nat
    decreases input.len(),
{
    if limit == 0 || input.len() == 0 || is_line_break(input[0]) {
        0
    } else {
        1 + shown_len(input.drop_first(), (limit - 1) as nat)
    }
}

/// An input as a diagnostic shows it: whole if it is short and of one line,
/// else its start and an ellipsis.
pub open spec fn shown(input: Seq<char>) -> Seq<char> {
    let len = shown_len(input, DIAGNOSTIC_LIMIT as nat);
    if len == input.len() {
        input
    } else {
        input.take(len as int) + "..."@
    }
}

/// The report of an input that was refused for `error`.
pub open spec fn diagnostic_text(input: Seq<char>, error: EncodeError) -> Seq<char> {
    match error {
        EncodeError::InvalidUrl => "Failed to parse \""@ + shown(input) + "\" as url"@,
        EncodeError::MalformedEscape => "Failed to decode \""@ + shown(input)
            + "\": malformed escape"@,
        EncodeError::InvalidUtf8 => "Failed to decode \""@ + shown(input)
            + "\": invalid UTF-8"@,
    }
}

/// What is shown is the start of the input, of no more characters than the
/// limit, and holds no line break.
pub proof fn lemma_shown_len(input: Seq<char>, limit: nat)
    ensures
        shown_len(input, limit) <= input.len(),
        shown_len(input, limit) <= limit,
        forall|i: int| 0 <= i < shown_len(input, limit) ==> !is_line_break(#[trigger] input[i]),
    decreases input.len(),
{
    if !(limit == 0 || input.len() == 0 || is_line_break(input[0])) {
        let rest = input.drop_first();
        lemma_shown_len(rest, (limit - 1) as nat);
        assert forall|i: int| 0 <= i < shown_len(input, limit) implies !is_line_break(
            #[trigger] input[i],
        ) by {
            if i > 0 {
                assert(input[i] == rest[i - 1]);
            }
        }
    }
}

/// A diagnostic is one line.
pub proof fn lemma_diagnostic_is_one_line(input: Seq<char>, error: EncodeError)
    ensures
        forall|i: int|
            0 <= i < diagnostic_text(input, error).len() ==> !is_line_break(
                #[trigger] diagnostic_text(input, error)[i],
            ),
{
    reveal_strlit("...");
    reveal_strlit("Failed to parse \"");
    reveal_strlit("\" as url");
    reveal_strlit("Failed to decode \"");
    reveal_strlit("\": malformed escape");
    reveal_strlit("\": invalid UTF-8");
    lemma_shown_len(input, DIAGNOSTIC_LIMIT as nat);
    let middle = shown(input);
    assert forall|i: int| 0 <= i < middle.len() implies !is_line_break(#[trigger] middle[i]) by {
        let len = shown_len(input, DIAGNOSTIC_LIMIT as nat);
        if i < len {
            assert(middle[i] == input[i]);
        }
    }
}

/// Writes the report of an input that was refused.
pub fn diagnostic(input: &str, error: EncodeError) -> (line: String)
    ensures
        line@ == diagnostic_text(input@, error),
{
    let mut line = match error {
        EncodeError::InvalidUrl => String::from_str("Failed to parse \""),
        _ => String::from_str("Failed to decode \""),
    };
    let len = input.unicode_len();
    let mut i: usize = 0;
    assert(input@.skip(0) == input@);
    while i < len && i < DIAGNOSTIC_LIMIT && !is_break(input.get_char(i))
        invariant
            i <= len,
            i <= DIAGNOSTIC_LIMIT,
            len == input@.len(),
            shown_len(input@, DIAGNOSTIC_LIMIT as nat) == i + shown_len(
                input@.skip(i as int),
                (DIAGNOSTIC_LIMIT - i) as nat,
            ),
        decreases len - i,
    {
        assert(input@.skip(i as int).drop_first() == input@.skip(i + 1));
        i += 1;
    }
    if i == len {
        line.append(input);
    } else {
        line.append(input.substring_char(0, i));
        line.append("...");
    }
    match error {
        EncodeError::InvalidUrl => line.append("\" as url"),
        EncodeError::MalformedEscape => line.append("\": malformed escape"),
        EncodeError::InvalidUtf8 => line.append("\": invalid UTF-8"),
    }
    line
}

fn is_break(c: char) -> (line_break: bool)
    ensures
        line_break == is_line_break(c),
{
    c == '\n' || c == '\r'
}

/// Whether `emission` is the line owed for `input` under `mode`: the result
/// where there is one, else the report of the refusal.
pub open spec fn emits(mode: ModeView, input: Seq<char>, emission: Emission) -> bool {
    match outcome_of(mode, encode_utf8(input)) {
        Ok(bytes) => emission matches Emission::Output(line) && encode_utf8(line@) == bytes,
        Err(error) => emission matches Emission::Diagnostic(line) && line@ == diagnostic_text(
            input,
            error,
        ),
    }
}

/// The line for an input and what the mode made of it.
pub fn report(input: &str, outcome: Result<String, EncodeError>) -> (emission: Emission)
    ensures
        match outcome {
            Ok(text) => emission matches Emission::Output(line) && line@ == text@,
            Err(error) => emission matches Emission::Diagnostic(line) && line@
                == diagnostic_text(input@, error),
        },
{
    match outcome {
        Ok(text) => Emission::Output(text),
        Err(error) => Emission::Diagnostic(diagnostic(input, error)),
    }
}

/// Handles the inputs one by one and gives the line for each, in their
/// order. A refused input costs its own line only.
pub fn run(mode: &Mode, inputs: &Vec<String>) -> (emitted: Vec<Emission>)
    requires
        forall|i: int| 0 <= i < inputs.len() ==> accepts(mode@, encode_utf8(#[trigger] inputs[i]@)),
    ensures
        emitted.len() == inputs.len(),
        forall|i: int| 0 <= i < inputs.len() ==> emits(mode@, inputs[i]@, #[trigger] emitted[i]),
{
    let mut emitted: Vec<Emission> = Vec::new();
    let mut i: usize = 0;
    while i < inputs.len()
        invariant
            i <= inputs.len(),
            emitted.len() == i,
            forall|j: int|
                0 <= j < inputs.len() ==> accepts(mode@, encode_utf8(#[trigger] inputs[j]@)),
            forall|j: int| 0 <= j < i ==> emits(mode@, inputs[j]@, #[trigger] emitted[j]),
        decreases inputs.len() - i,
    {
        let input = inputs[i].as_str();
        let emission = report(input, mode.handle(input));
        emitted.push(emission);
        i += 1;
    }
    emitted
}

} // verus!

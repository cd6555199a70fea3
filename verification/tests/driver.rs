use urlq::driver::{
    diagnostic, input_source, report, run, Emission, InputSource, DIAGNOSTIC_LIMIT,
};
use urlq::{EncodeError, Mode};

fn output(emission: &Emission) -> &str {
    match emission {
        Emission::Output(line) => line,
        Emission::Diagnostic(line) => panic!("a diagnostic: {}", line),
    }
}

fn refusal(emission: &Emission) -> &str {
    match emission {
        Emission::Output(line) => panic!("a result: {}", line),
        Emission::Diagnostic(line) => line,
    }
}

#[test]
fn arguments_go_before_standard_input() {
    assert_eq!(input_source(true, true), InputSource::Arguments);
    assert_eq!(input_source(true, false), InputSource::Arguments);
    assert_eq!(input_source(false, false), InputSource::StandardInput);
    assert_eq!(input_source(false, true), InputSource::Missing);
}

#[test]
fn a_diagnostic_names_the_input_and_the_error() {
    assert_eq!(
        diagnostic("#20/abc def", EncodeError::InvalidUrl),
        "Failed to parse \"#20/abc def\" as url"
    );
    assert_eq!(
        diagnostic("abc%", EncodeError::MalformedEscape),
        "Failed to decode \"abc%\": malformed escape"
    );
    assert_eq!(
        diagnostic("%ff", EncodeError::InvalidUtf8),
        "Failed to decode \"%ff\": invalid UTF-8"
    );
    assert_eq!(diagnostic("", EncodeError::InvalidUrl), "Failed to parse \"\" as url");
}

#[test]
fn a_diagnostic_shows_a_long_input_cut_short() {
    assert_eq!(DIAGNOSTIC_LIMIT, 80);
    let exact = "x".repeat(80);
    assert_eq!(
        diagnostic(&exact, EncodeError::InvalidUrl),
        format!("Failed to parse \"{}\" as url", exact)
    );
    let long = format!("{}yz", exact);
    assert_eq!(
        diagnostic(&long, EncodeError::InvalidUrl),
        format!("Failed to parse \"{}...\" as url", exact)
    );
    let wide = "\u{e9}".repeat(81);
    assert_eq!(
        diagnostic(&wide, EncodeError::MalformedEscape),
        format!("Failed to decode \"{}...\": malformed escape", "\u{e9}".repeat(80))
    );
}

#[test]
fn a_result_is_reported_as_it_is() {
    assert_eq!(output(&report("a b", Ok(String::from("a%20b")))), "a%20b");
    assert_eq!(
        refusal(&report("a b", Err(EncodeError::InvalidUrl))),
        "Failed to parse \"a b\" as url"
    );
}

#[test]
fn a_run_gives_a_line_for_each_input_and_goes_on_after_a_refusal() {
    let inputs = vec![String::from("a%20b"), String::from("50%"), String::from("%ff"), String::from("c+d")];
    let emitted = run(&Mode::DecodePlus, &inputs);
    assert_eq!(emitted.len(), 4);
    assert_eq!(output(&emitted[0]), "a b");
    assert_eq!(refusal(&emitted[1]), "Failed to decode \"50%\": malformed escape");
    assert_eq!(refusal(&emitted[2]), "Failed to decode \"%ff\": invalid UTF-8");
    assert_eq!(output(&emitted[3]), "c d");
}

#[test]
fn a_run_of_urls_reports_what_does_not_parse() {
    let inputs = vec![String::from("http://example.com/a b"), String::from("no scheme")];
    let emitted = run(&Mode::EncodeUrl, &inputs);
    assert_eq!(output(&emitted[0]), "http://example.com/a%20b");
    assert_eq!(refusal(&emitted[1]), "Failed to parse \"no scheme\" as url");
}

#[test]
fn a_run_without_inputs_gives_nothing() {
    assert!(run(&Mode::EncodeAll, &Vec::new()).is_empty());
}

#[test]
fn a_diagnostic_is_one_line() {
    assert_eq!(
        diagnostic("ab\ncd", EncodeError::InvalidUrl),
        "Failed to parse \"ab...\" as url"
    );
    assert_eq!(
        diagnostic("\r\n", EncodeError::MalformedEscape),
        "Failed to decode \"...\": malformed escape"
    );
    let long = format!("{}\n", "x".repeat(80));
    assert_eq!(
        diagnostic(&long, EncodeError::InvalidUtf8),
        format!("Failed to decode \"{}...\": invalid UTF-8", "x".repeat(80))
    );
    let short = format!("{}\nrest", "\u{4e2d}".repeat(79));
    assert_eq!(
        diagnostic(&short, EncodeError::InvalidUrl),
        format!("Failed to parse \"{}...\" as url", "\u{4e2d}".repeat(79))
    );
}

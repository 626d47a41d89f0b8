use lsp_types::DiagnosticSeverity;
use regex::Regex;

use sourcepawn_core::diagnostic_line::parse_line;
use sourcepawn_core::spcomp::{parse_u32_digits, SpCompDiagnostic, SpCompSeverity};

const PATTERN: &str =
    r"([:/\\A-Za-z\-_0-9. ]*)\((\d+)+\) : (?:(error|fatal error|warning) ([0-9]*)):\s+(.*)";

/// The parts that the regular expression of spcomp's output captures.
fn regex_parts(re: &Regex, line: &str) -> Option<(String, String, String, String, String)> {
    let c = re.captures(line)?;
    Some((
        c.get(1)?.as_str().to_string(),
        c.get(2)?.as_str().to_string(),
        c.get(3)?.as_str().to_string(),
        c.get(4)?.as_str().to_string(),
        c.get(5)?.as_str().to_string(),
    ))
}

fn word(sev: SpCompSeverity) -> &'static str {
    match sev {
        SpCompSeverity::Warning => "warning",
        SpCompSeverity::Error => "error",
        SpCompSeverity::FatalError => "fatal error",
    }
}

fn parser_parts(line: &str) -> Option<(String, String, String, String, String)> {
    let p = parse_line(line)?;
    Some((p.path, p.line_digits, word(p.severity).to_string(), p.code, p.message))
}

fn assert_same_as_regex(re: &Regex, line: &str) {
    assert_eq!(parser_parts(line), regex_parts(re, line), "line: {line:?}");
}

#[test]
fn reads_an_error_line() {
    let d = SpCompDiagnostic::try_from_line(
        "/home/user/plugin.sp(12) : error 017: undefined symbol \"foo\"",
    )
    .unwrap();
    assert_eq!(d.path(), "/home/user/plugin.sp");
    assert_eq!(d.line_index(), 11);
    assert!(matches!(d.severity(), SpCompSeverity::Error));
    assert_eq!(d.code(), "017");
    assert_eq!(d.message(), "undefined symbol \"foo\"");
}

#[test]
fn reads_a_warning_line() {
    let d = SpCompDiagnostic::try_from_line("/a/b.inc(1) : warning 203: symbol is never used: \"x\"")
        .unwrap();
    assert_eq!(d.path(), "/a/b.inc");
    assert_eq!(d.line_index(), 0);
    assert!(matches!(d.severity(), SpCompSeverity::Warning));
    assert_eq!(d.code(), "203");
    assert_eq!(d.message(), "symbol is never used: \"x\"");
}

#[test]
fn reads_a_fatal_error_line() {
    let d = SpCompDiagnostic::try_from_line("/x.sp(3) : fatal error 183: cannot read from file")
        .unwrap();
    assert!(matches!(d.severity(), SpCompSeverity::FatalError));
    assert_eq!(d.code(), "183");
    assert_eq!(d.line_index(), 2);
}

#[test]
fn rejects_a_relative_path() {
    assert!(SpCompDiagnostic::try_from_line("plugin.sp(12) : error 017: x").is_none());
}

#[test]
fn rejects_a_path_without_separators() {
    assert!(SpCompDiagnostic::try_from_line("plugin.sp(3) : error 1: x").is_none());
    assert!(SpCompDiagnostic::try_from_line("plugin.sp(0) : error 1: x").is_none());
}

#[test]
fn rejects_line_zero() {
    assert!(SpCompDiagnostic::try_from_line("dir/f.sp(0) : error 1: x").is_none());
    assert!(SpCompDiagnostic::try_from_line("/dir/f.sp(0) : error 1: x").is_none());
}

#[test]
fn rejects_an_empty_path() {
    assert!(parse_line("(1) : error 3: m").is_some());
    assert!(SpCompDiagnostic::try_from_line("(1) : error 3: m").is_none());
}

#[test]
fn rejects_lines_without_a_diagnostic() {
    assert!(SpCompDiagnostic::try_from_line("Code size: 3412 bytes").is_none());
    assert!(SpCompDiagnostic::try_from_line("").is_none());
    assert!(SpCompDiagnostic::try_from_line("/a.sp(12) : error 017:").is_none());
    assert!(SpCompDiagnostic::try_from_line("/a.sp() : error 017: x").is_none());
    assert!(SpCompDiagnostic::try_from_line("/a.sp(1) : note 017: x").is_none());
}

#[test]
fn rejects_a_line_number_beyond_u32() {
    assert!(SpCompDiagnostic::try_from_line("/a.sp(4294967296) : error 1: x").is_none());
    let d = SpCompDiagnostic::try_from_line("/a.sp(4294967295) : error 1: x").unwrap();
    assert_eq!(d.line_index(), 4294967294);
}

#[test]
fn rejects_non_ascii_line_digits() {
    // `\d` takes the Arabic-Indic digit, but a `u32` cannot be read from it.
    assert!(SpCompDiagnostic::try_from_line("/a.sp(\u{663}) : error 1: x").is_none());
}

#[test]
fn severity_maps_to_lsp() {
    assert_eq!(SpCompSeverity::Warning.to_lsp_severity(), DiagnosticSeverity::WARNING);
    assert_eq!(SpCompSeverity::Error.to_lsp_severity(), DiagnosticSeverity::ERROR);
    assert_eq!(SpCompSeverity::FatalError.to_lsp_severity(), DiagnosticSeverity::ERROR);
}

#[test]
fn path_is_the_run_of_path_characters_before_the_parenthesis() {
    let p = parse_line("warning: /a b/c.sp(7) : error 9: m").unwrap();
    assert_eq!(p.path, "warning: /a b/c.sp");
    let p = parse_line("x(y) /z.sp(7) : error 9: m").unwrap();
    assert_eq!(p.path, " /z.sp");
}

#[test]
fn message_stops_at_a_line_feed_and_skips_white_space() {
    let p = parse_line("/a.sp(7) : error 9: \t  first\nsecond").unwrap();
    assert_eq!(p.message, "first");
    let p = parse_line("/a.sp(7) : error 9:\n\nnext").unwrap();
    assert_eq!(p.message, "next");
    let p = parse_line("/a.sp(7) : error 9: ").unwrap();
    assert_eq!(p.message, "");
}

#[test]
fn code_may_be_empty() {
    let p = parse_line("/a.sp(7) : warning : m").unwrap();
    assert_eq!(p.code, "");
}

#[test]
fn reads_the_first_diagnostic_of_a_line() {
    let p = parse_line("/a.sp(1) : error 2: m /b.sp(3) : warning 4: n").unwrap();
    assert_eq!(p.path, "/a.sp");
    assert_eq!(p.line_digits, "1");
    assert_eq!(p.message, "m /b.sp(3) : warning 4: n");
}

#[test]
fn parse_u32_digits_reads_numbers() {
    assert_eq!(parse_u32_digits("0"), Some(0));
    assert_eq!(parse_u32_digits("007"), Some(7));
    assert_eq!(parse_u32_digits("4294967295"), Some(u32::MAX));
    assert_eq!(parse_u32_digits("4294967296"), None);
    assert_eq!(parse_u32_digits(""), None);
    assert_eq!(parse_u32_digits("1a"), None);
    assert_eq!(parse_u32_digits("99999999999999999999x"), None);
}

#[test]
fn parser_agrees_with_the_regular_expression() {
    let re = Regex::new(PATTERN).unwrap();
    let lines = [
        "/home/user/plugin.sp(12) : error 017: undefined symbol \"foo\"",
        "C:\\sm\\scripting\\plugin.sp(3) : warning 204: symbol is assigned a value",
        "plugin.sp(1) : fatal error 183: cannot read",
        "junk ((((/a.sp(12) : error 017: x",
        "/a.sp(1)(2) : error 3: m",
        "/a.sp(1) : error 3: m\n/b.sp(2) : error 4: n",
        "/a.sp(\u{663}\u{664}) : error 3: m",
        "/a.sp(1\u{663}) : warning 3: m",
        "/a.sp(\u{663}) : error 3: m /b.sp(2) : error 4: n",
        "/a.sp(1) : error 3:\u{3000}\u{2028}message",
        "/a.sp(1) : error 3:\u{85}m",
        "/a.sp(1) : error 3:",
        "/a.sp(1) : error 3x: m",
        "/a.sp(1) : error 3: m /b.sp(2) : error 4: n",
        "/a.sp(1) :  error 3: m",
        "/é.sp(1) : error 3: m",
        "(1) : error 3: m",
        "a(1) : fatal  error 3: m",
        "a(1) : fatal error 3: m",
        "a(1) : warning 3: \r\n",
        "x (9) : error 12345678901234567890: overflow in the code is fine",
        "\u{1f600}(5) : warning 0: emoji in front",
        "",
        "(",
        "(1",
        "(1)",
        "(1) : ",
        "(1) : error",
        "(1) : error ",
        "(1) : error 5",
        "(1) : error 5:",
    ];
    for line in lines {
        assert_same_as_regex(&re, line);
    }
}

#[test]
fn parser_agrees_with_the_regular_expression_on_generated_lines() {
    let re = Regex::new(PATTERN).unwrap();
    let pieces = [
        "/", "a", "(", ")", "1", "\u{663}", " ", ":", " : ", "error", "warning", "fatal error",
        "\n", "\t", "x", "2", "é",
    ];
    // All lines of up to three pieces.
    let mut lines: Vec<String> = vec![String::new()];
    for _ in 0..3 {
        let mut next = Vec::new();
        for l in &lines {
            for p in pieces {
                next.push(format!("{l}{p}"));
            }
        }
        lines.extend(next);
        lines.sort();
        lines.dedup();
    }
    for l in &lines {
        assert_same_as_regex(&re, l);
        assert_same_as_regex(&re, &format!("/p{l}(4) : error 5: m"));
        assert_same_as_regex(&re, &format!("/p(4){l} : error 5: m"));
        assert_same_as_regex(&re, &format!("/p(4) : error 5{l}: m"));
        assert_same_as_regex(&re, &format!("/p(4) : warning 5:{l}m"));
    }
}

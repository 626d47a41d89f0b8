//! The line format in which spcomp reports a diagnostic:
//!
//! ```text
//! <path>(<line>) : <error|fatal error|warning> <code>: <message>
//! ```
//!
//! A line holds a diagnostic when some part of it has this shape. The path is
//! the longest run of path characters in front of the first `(` that opens
//! such a shape; the line number is a run of decimal digits; the code is a run
//! of ASCII digits; the message follows one or more white space characters
//! and runs up to the end of the line or the next line feed.
use vstd::prelude::*;

use crate::chars::{
    chars_of,
    is_ascii_digit,
    is_decimal_digit,
    is_run_end,
    is_white_space,
    lemma_run_end_unique,
    run_end,
    CharClass,
};
use crate::spcomp::SpCompSeverity;

verus! {

/// Characters that the path of a diagnostic may be made of.
pub open spec fn is_path_char(c: char) -> bool {
    ||| c == ':'
    ||| c == '/'
    ||| c == '\\'
    ||| ('A' <= c && c <= 'Z')
    ||| ('a' <= c && c <= 'z')
    ||| c == '-'
    ||| c == '_'
    ||| ('0' <= c && c <= '9')
    ||| c == '.'
    ||| c == ' '
}

/// Whether `c` may be part of a path.
pub fn path_char(c: char) -> (r: bool)
    ensures
        r == is_path_char(c),
{
    c == ':' || c == '/' || c == '\\' || ('A' <= c && c <= 'Z') || ('a' <= c && c <= 'z') || c
        == '-' || c == '_' || ('0' <= c && c <= '9') || c == '.' || c == ' '
}

/// The word that names a severity in a diagnostic line.
pub open spec fn severity_word(sev: SpCompSeverity) -> Seq<char> {
    match sev {
        SpCompSeverity::Warning => seq!['w', 'a', 'r', 'n', 'i', 'n', 'g'],
        SpCompSeverity::Error => seq!['e', 'r', 'r', 'o', 'r'],
        SpCompSeverity::FatalError => seq!['f', 'a', 't', 'a', 'l', ' ', 'e', 'r', 'r', 'o', 'r'],
    }
}

/// `s` holds, from index `open` on, the part of a diagnostic that follows its
/// path: `(`, the line number (decimal digits, up to `close`), `) : `, the
/// severity word, a space, the code (ASCII digits, up to `code_end`), `:`,
/// white space (up to `message_start`) and the message (up to `message_end`,
/// the end of the line or the next line feed).
pub open spec fn is_tail(
    s: Seq<char>,
    open: int,
    close: int,
    severity: SpCompSeverity,
    code_end: int,
    message_start: int,
    message_end: int,
) -> bool {
    let word = severity_word(severity);
    let word_start = close + 4;
    let code_start = word_start + word.len() + 1;
    &&& 0 <= open < s.len()
    &&& s[open] == '('
    &&& open + 1 < close
    &&& is_run_end(s, open + 1, close, CharClass::DecimalDigit)
    &&& close + 4 <= s.len()
    &&& s[close] == ')'
    &&& s[close + 1] == ' '
    &&& s[close + 2] == ':'
    &&& s[close + 3] == ' '
    &&& word_start + word.len() < s.len()
    &&& s.subrange(word_start, word_start + word.len()) == word
    &&& s[word_start + word.len()] == ' '
    &&& is_run_end(s, code_start, code_end, CharClass::AsciiDigit)
    &&& code_end < s.len()
    &&& s[code_end] == ':'
    &&& code_end + 1 < message_start
    &&& is_run_end(s, code_end + 1, message_start, CharClass::WhiteSpace)
    &&& is_run_end(s, message_start, message_end, CharClass::NotNewline)
}

/// The part of a diagnostic that follows its path starts at index `open`.
pub open spec fn has_tail_at(s: Seq<char>, open: int) -> bool {
    exists|close: int, severity: SpCompSeverity, code_end: int, message_start: int, message_end: int|
        is_tail(s, open, close, severity, code_end, message_start, message_end)
}

/// The positions of the parts of a diagnostic in a line.
pub struct LineMatch {
    pub start: int,
    pub open: int,
    pub close: int,
    pub severity: SpCompSeverity,
    pub code_end: int,
    pub message_start: int,
    pub message_end: int,
}

impl LineMatch {
    pub open spec fn code_start(self) -> int {
        self.close + 4 + severity_word(self.severity).len() + 1
    }
}

/// `m` is where the diagnostic of line `s` lies: its tail starts at the first
/// index at which a tail starts, and its path is the longest run of path
/// characters in front of it.
pub open spec fn is_line_match(s: Seq<char>, m: LineMatch) -> bool {
    &&& is_tail(s, m.open, m.close, m.severity, m.code_end, m.message_start, m.message_end)
    &&& forall|o: int| 0 <= o < m.open ==> !has_tail_at(s, o)
    &&& 0 <= m.start <= m.open
    &&& forall|k: int| m.start <= k < m.open ==> is_path_char(#[trigger] s[k])
    &&& (m.start == 0 || !is_path_char(s[m.start - 1]))
}

/// The parts of a diagnostic line.
pub struct LineFields {
    pub path: Seq<char>,
    pub line_digits: Seq<char>,
    pub severity: SpCompSeverity,
    pub code: Seq<char>,
    pub message: Seq<char>,
}

pub open spec fn fields_of(s: Seq<char>, m: LineMatch) -> LineFields {
    LineFields {
        path: s.subrange(m.start, m.open),
        line_digits: s.subrange(m.open + 1, m.close),
        severity: m.severity,
        code: s.subrange(m.code_start(), m.code_end),
        message: s.subrange(m.message_start, m.message_end),
    }
}

/// The parts of the diagnostic that line `s` holds, if it holds one.
pub open spec fn line_fields(s: Seq<char>) -> Option<LineFields> {
    if exists|m: LineMatch| is_line_match(s, m) {
        Some(fields_of(s, choose|m: LineMatch| is_line_match(s, m)))
    } else {
        None
    }
}

/// From a given index, a tail can be read in one way only.
pub proof fn lemma_tail_unique(
    s: Seq<char>,
    open: int,
    c1: int,
    v1: SpCompSeverity,
    e1: int,
    m1: int,
    n1: int,
    c2: int,
    v2: SpCompSeverity,
    e2: int,
    m2: int,
    n2: int,
)
    requires
        is_tail(s, open, c1, v1, e1, m1, n1),
        is_tail(s, open, c2, v2, e2, m2, n2),
    ensures
        c1 == c2,
        v1 == v2,
        e1 == e2,
        m1 == m2,
        n1 == n2,
{
    lemma_run_end_unique(s, open + 1, c1, c2, CharClass::DecimalDigit);
    let ws = c1 + 4;
    assert(s.subrange(ws, ws + severity_word(v1).len())[0] == s[ws]);
    assert(s.subrange(ws, ws + severity_word(v2).len())[0] == s[ws]);
    assert(v1 == v2);
    let cs = ws + severity_word(v1).len() + 1;
    lemma_run_end_unique(s, cs, e1, e2, CharClass::AsciiDigit);
    lemma_run_end_unique(s, e1 + 1, m1, m2, CharClass::WhiteSpace);
    lemma_run_end_unique(s, m1, n1, n2, CharClass::NotNewline);
}

/// A line holds its diagnostic at one place only.
pub proof fn lemma_line_match_unique(s: Seq<char>, a: LineMatch, b: LineMatch)
    requires
        is_line_match(s, a),
        is_line_match(s, b),
    ensures
        a == b,
{
    if a.open < b.open {
        assert(has_tail_at(s, a.open));
    } else if b.open < a.open {
        assert(has_tail_at(s, b.open));
    }
    lemma_tail_unique(
        s,
        a.open,
        a.close,
        a.severity,
        a.code_end,
        a.message_start,
        a.message_end,
        b.close,
        b.severity,
        b.code_end,
        b.message_start,
        b.message_end,
    );
    if a.start < b.start {
        assert(is_path_char(s[b.start - 1]));
    } else if b.start < a.start {
        assert(is_path_char(s[a.start - 1]));
    }
}

/// The line in which spcomp reports a diagnostic with these parts:
/// `<path>(<line>) : <severity> <code>: <message>`.
pub open spec fn format_line(
    path: Seq<char>,
    line_digits: Seq<char>,
    severity: SpCompSeverity,
    code: Seq<char>,
    message: Seq<char>,
) -> Seq<char> {
    path + seq!['('] + line_digits + seq![')', ' ', ':', ' '] + severity_word(severity) + seq![' ']
        + code + seq![':', ' '] + message
}

/// Parts that spcomp can print so that they read back as they are: a path of
/// path characters, a line number of decimal digits, a code of ASCII digits
/// and a message of one line that does not start with white space.
pub open spec fn are_printable_parts(
    path: Seq<char>,
    line_digits: Seq<char>,
    code: Seq<char>,
    message: Seq<char>,
) -> bool {
    &&& forall|k: int| 0 <= k < path.len() ==> is_path_char(#[trigger] path[k])
    &&& line_digits.len() > 0
    &&& forall|k: int| 0 <= k < line_digits.len() ==> is_decimal_digit(#[trigger] line_digits[k])
    &&& forall|k: int| 0 <= k < code.len() ==> is_ascii_digit(#[trigger] code[k])
    &&& forall|k: int| 0 <= k < message.len() ==> #[trigger] message[k] != '\n'
    &&& (message.len() == 0 || !is_white_space(message[0]))
}

/// Reading back a diagnostic line that spcomp prints gives the parts it was
/// printed from.
pub proof fn lemma_parse_formatted_line(
    path: Seq<char>,
    line_digits: Seq<char>,
    severity: SpCompSeverity,
    code: Seq<char>,
    message: Seq<char>,
)
    requires
        are_printable_parts(path, line_digits, code, message),
    ensures
        line_fields(format_line(path, line_digits, severity, code, message)) == Some(
            LineFields { path, line_digits, severity, code, message },
        ),
{
    let s = format_line(path, line_digits, severity, code, message);
    let w = severity_word(severity);
    let open = path.len() as int;
    let close = open + 1 + line_digits.len();
    let ws = close + 4;
    let cs = ws + w.len() + 1;
    let ce = cs + code.len();
    let ms = ce + 2;
    let me = s.len() as int;
    assert(me == ms + message.len());
    assert forall|k: int| 0 <= k < path.len() implies s[k] == path[k] by {}
    assert(s[open] == '(');
    assert forall|k: int| open < k < close implies s[k] == line_digits[k - open - 1] by {}
    assert(s[close] == ')');
    assert(s[close + 1] == ' ');
    assert(s[close + 2] == ':');
    assert(s[close + 3] == ' ');
    assert forall|k: int| ws <= k < ws + w.len() implies s[k] == w[k - ws] by {}
    assert(s.subrange(ws, ws + w.len()) =~= w);
    assert(s[ws + w.len()] == ' ');
    assert forall|k: int| cs <= k < ce implies s[k] == code[k - cs] by {}
    assert(s[ce] == ':');
    assert(s[ce + 1] == ' ');
    assert forall|k: int| ms <= k < me implies s[k] == message[k - ms] by {}
    assert(is_run_end(s, open + 1, close, CharClass::DecimalDigit));
    assert(is_run_end(s, cs, ce, CharClass::AsciiDigit));
    assert(is_run_end(s, ce + 1, ms, CharClass::WhiteSpace));
    assert(is_run_end(s, ms, me, CharClass::NotNewline));
    assert(is_tail(s, open, close, severity, ce, ms, me));
    let m = LineMatch {
        start: 0,
        open,
        close,
        severity,
        code_end: ce,
        message_start: ms,
        message_end: me,
    };
    assert forall|o: int| 0 <= o < open implies !has_tail_at(s, o) by {
        assert(is_path_char(path[o]));
    }
    assert(is_line_match(s, m));
    assert forall|m2: LineMatch| is_line_match(s, m2) implies m2 == m by {
        lemma_line_match_unique(s, m, m2);
    }
    assert(s.subrange(0, open) =~= path);
    assert(s.subrange(open + 1, close) =~= line_digits);
    assert(s.subrange(cs, ce) =~= code);
    assert(s.subrange(ms, me) =~= message);
}

/// `v` holds, from index `pos` on, the word of severity `sev`.
pub open spec fn has_word_at(v: Seq<char>, pos: int, sev: SpCompSeverity) -> bool {
    &&& 0 <= pos
    &&& pos + severity_word(sev).len() <= v.len()
    &&& v.subrange(pos, pos + severity_word(sev).len()) == severity_word(sev)
}

/// The severity whose word `v` holds from index `pos` on.
fn severity_at(v: &Vec<char>, pos: usize) -> (r: Option<SpCompSeverity>)
    requires
        pos <= v@.len(),
    ensures
        match r {
            Some(sev) => has_word_at(v@, pos as int, sev),
            None => forall|sev: SpCompSeverity| !has_word_at(v@, pos as int, sev),
        },
{
    let n = v.len();
    let ghost s = v@;
    let ghost p = pos as int;
    if n - pos >= 7 && v[pos] == 'w' && v[pos + 1] == 'a' && v[pos + 2] == 'r' && v[pos + 3] == 'n'
        && v[pos + 4] == 'i' && v[pos + 5] == 'n' && v[pos + 6] == 'g' {
        assert(s.subrange(p, p + 7) =~= severity_word(SpCompSeverity::Warning));
        return Some(SpCompSeverity::Warning);
    }
    if n - pos >= 5 && v[pos] == 'e' && v[pos + 1] == 'r' && v[pos + 2] == 'r' && v[pos + 3] == 'o'
        && v[pos + 4] == 'r' {
        assert(s.subrange(p, p + 5) =~= severity_word(SpCompSeverity::Error));
        return Some(SpCompSeverity::Error);
    }
    if n - pos >= 11 && v[pos] == 'f' && v[pos + 1] == 'a' && v[pos + 2] == 't' && v[pos + 3] == 'a'
        && v[pos + 4] == 'l' && v[pos + 5] == ' ' && v[pos + 6] == 'e' && v[pos + 7] == 'r' && v[pos
        + 8] == 'r' && v[pos + 9] == 'o' && v[pos + 10] == 'r' {
        assert(s.subrange(p, p + 11) =~= severity_word(SpCompSeverity::FatalError));
        return Some(SpCompSeverity::FatalError);
    }
    proof {
        assert forall|sev: SpCompSeverity| !has_word_at(s, p, sev) by {
            if has_word_at(s, p, sev) {
                let w = severity_word(sev);
                assert(s[p + 0] == w[0]);
                assert(s[p + 1] == w[1]);
                assert(s[p + 2] == w[2]);
                assert(s[p + 3] == w[3]);
                assert(s[p + 4] == w[4]);
                match sev {
                    SpCompSeverity::Warning => {
                        assert(s[p + 5] == w[5]);
                        assert(s[p + 6] == w[6]);
                    },
                    SpCompSeverity::Error => {},
                    SpCompSeverity::FatalError => {
                        assert(s[p + 5] == w[5]);
                        assert(s[p + 6] == w[6]);
                        assert(s[p + 7] == w[7]);
                        assert(s[p + 8] == w[8]);
                        assert(s[p + 9] == w[9]);
                        assert(s[p + 10] == w[10]);
                    },
                }
            }
        }
    }
    None
}

/// Reads the tail of a diagnostic from index `open` of `v` on, if there is
/// one: the positions `(close, severity, code_end, message_start, message_end)`.
fn tail_at(v: &Vec<char>, open: usize) -> (r: Option<(usize, SpCompSeverity, usize, usize, usize)>)
    requires
        open < v@.len(),
        v@[open as int] == '(',
    ensures
        match r {
            Some((c, sev, ce, ms, me)) => is_tail(
                v@,
                open as int,
                c as int,
                sev,
                ce as int,
                ms as int,
                me as int,
            ),
            None => !has_tail_at(v@, open as int),
        },
{
    let ghost s = v@;
    let ghost o = open as int;
    let n = v.len();
    let close = run_end(v, open + 1, CharClass::DecimalDigit);
    if close == open + 1 || n - close < 4 || v[close] != ')' || v[close + 1] != ' ' || v[close
        + 2] != ':' || v[close + 3] != ' ' {
        proof {
            assert forall|c: int, sev: SpCompSeverity, ce: int, ms: int, me: int|
                !is_tail(s, o, c, sev, ce, ms, me) by {
                if is_tail(s, o, c, sev, ce, ms, me) {
                    lemma_run_end_unique(s, o + 1, c, close as int, CharClass::DecimalDigit);
                }
            }
        }
        return None;
    }
    let word_start = close + 4;
    let severity = match severity_at(v, word_start) {
        Some(sev) => sev,
        None => {
            proof {
                assert forall|c: int, sev: SpCompSeverity, ce: int, ms: int, me: int|
                    !is_tail(s, o, c, sev, ce, ms, me) by {
                    if is_tail(s, o, c, sev, ce, ms, me) {
                        lemma_run_end_unique(s, o + 1, c, close as int, CharClass::DecimalDigit);
                        assert(has_word_at(s, word_start as int, sev));
                    }
                }
            }
            return None;
        },
    };
    let word_len: usize = match severity {
        SpCompSeverity::Warning => 7,
        SpCompSeverity::Error => 5,
        SpCompSeverity::FatalError => 11,
    };
    assert(word_len == severity_word(severity).len());
    let word_end = word_start + word_len;
    if word_end >= n || v[word_end] != ' ' {
        proof {
            assert forall|c: int, sev: SpCompSeverity, ce: int, ms: int, me: int|
                !is_tail(s, o, c, sev, ce, ms, me) by {
                if is_tail(s, o, c, sev, ce, ms, me) {
                    lemma_run_end_unique(s, o + 1, c, close as int, CharClass::DecimalDigit);
                    assert(has_word_at(s, word_start as int, sev));
                    lemma_word_unique(s, word_start as int, sev, severity);
                }
            }
        }
        return None;
    }
    let code_start = word_end + 1;
    let code_end = run_end(v, code_start, CharClass::AsciiDigit);
    if code_end >= n || v[code_end] != ':' {
        proof {
            assert forall|c: int, sev: SpCompSeverity, ce: int, ms: int, me: int|
                !is_tail(s, o, c, sev, ce, ms, me) by {
                if is_tail(s, o, c, sev, ce, ms, me) {
                    lemma_run_end_unique(s, o + 1, c, close as int, CharClass::DecimalDigit);
                    assert(has_word_at(s, word_start as int, sev));
                    lemma_word_unique(s, word_start as int, sev, severity);
                    lemma_run_end_unique(
                        s,
                        code_start as int,
                        ce,
                        code_end as int,
                        CharClass::AsciiDigit,
                    );
                }
            }
        }
        return None;
    }
    let message_start = run_end(v, code_end + 1, CharClass::WhiteSpace);
    if message_start == code_end + 1 {
        proof {
            assert forall|c: int, sev: SpCompSeverity, ce: int, ms: int, me: int|
                !is_tail(s, o, c, sev, ce, ms, me) by {
                if is_tail(s, o, c, sev, ce, ms, me) {
                    lemma_run_end_unique(s, o + 1, c, close as int, CharClass::DecimalDigit);
                    assert(has_word_at(s, word_start as int, sev));
                    lemma_word_unique(s, word_start as int, sev, severity);
                    lemma_run_end_unique(
                        s,
                        code_start as int,
                        ce,
                        code_end as int,
                        CharClass::AsciiDigit,
                    );
                    lemma_run_end_unique(
                        s,
                        ce + 1,
                        ms,
                        message_start as int,
                        CharClass::WhiteSpace,
                    );
                }
            }
        }
        return None;
    }
    let message_end = run_end(v, message_start, CharClass::NotNewline);
    assert(s.subrange(word_start as int, word_end as int) == severity_word(severity));
    Some((close, severity, code_end, message_start, message_end))
}

/// Two severity words cannot start at the same index.
proof fn lemma_word_unique(s: Seq<char>, pos: int, a: SpCompSeverity, b: SpCompSeverity)
    requires
        has_word_at(s, pos, a),
        has_word_at(s, pos, b),
    ensures
        a == b,
{
    assert(s.subrange(pos, pos + severity_word(a).len())[0] == s[pos]);
    assert(s.subrange(pos, pos + severity_word(b).len())[0] == s[pos]);
}

/// The parts of a diagnostic line, as text.
#[derive(Debug, Clone)]
pub struct SpCompLine {
    pub path: String,
    pub line_digits: String,
    pub severity: SpCompSeverity,
    pub code: String,
    pub message: String,
}

impl View for SpCompLine {
    type V = LineFields;

    open spec fn view(&self) -> LineFields {
        LineFields {
            path: self.path@,
            line_digits: self.line_digits@,
            severity: self.severity,
            code: self.code@,
            message: self.message@,
        }
    }
}

/// Splits a diagnostic line of spcomp into its parts; `None` when the line
/// holds no diagnostic.
pub fn parse_line(line: &str) -> (r: Option<SpCompLine>)
    ensures
        match r {
            Some(f) => line_fields(line@) == Some(f@),
            None => line_fields(line@) is None,
        },
{
    let v = chars_of(line);
    let n = v.len();
    let mut i: usize = 0;
    while i < n
        invariant
            n == v@.len(),
            v@ == line@,
            i <= n,
            forall|o: int| 0 <= o < i ==> !#[trigger] has_tail_at(v@, o),
        decreases n - i,
    {
        if v[i] == '(' {
            if let Some((close, severity, code_end, message_start, message_end)) = tail_at(&v, i) {
                let mut start = i;
                while start > 0 && path_char(v[start - 1])
                    invariant
                        start <= i < n,
                        n == v@.len(),
                        forall|k: int| start <= k < i ==> is_path_char(#[trigger] v@[k]),
                    decreases start,
                {
                    start = start - 1;
                }
                let ghost m = LineMatch {
                    start: start as int,
                    open: i as int,
                    close: close as int,
                    severity,
                    code_end: code_end as int,
                    message_start: message_start as int,
                    message_end: message_end as int,
                };
                let code_start = close + 4 + match severity {
                    SpCompSeverity::Warning => 7,
                    SpCompSeverity::Error => 5,
                    SpCompSeverity::FatalError => 11,
                } + 1;
                assert(is_line_match(v@, m));
                assert(code_start == m.code_start());
                proof {
                    assert forall|m2: LineMatch| is_line_match(v@, m2) implies m2 == m by {
                        lemma_line_match_unique(v@, m, m2);
                    }
                }
                let f = SpCompLine {
                    path: String::from_str(line.substring_char(start, i)),
                    line_digits: String::from_str(line.substring_char(i + 1, close)),
                    severity,
                    code: String::from_str(line.substring_char(code_start, code_end)),
                    message: String::from_str(line.substring_char(message_start, message_end)),
                };
                assert(f@ == fields_of(v@, m));
                return Some(f);
            }
        }
        i = i + 1;
    }
    proof {
        assert forall|m: LineMatch| !is_line_match(line@, m) by {
            if is_line_match(line@, m) {
                assert(has_tail_at(v@, m.open));
            }
        }
    }
    None
}

} // verus!

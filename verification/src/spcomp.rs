use vstd::prelude::*;

use crate::chars::{ascii_digit, is_ascii_digit};
use crate::diagnostic_line::{
    are_printable_parts,
    format_line,
    lemma_parse_formatted_line,
    line_fields,
    parse_line,
    LineFields,
    SpCompLine,
};

verus! {

/// `lsp_types::DiagnosticSeverity`, carried through as an opaque value.
#[verifier::external_type_specification]
#[verifier::external_body]
pub struct ExDiagnosticSeverity(lsp_types::DiagnosticSeverity);

/// The LSP protocol number that a severity stands for: the private `i32`
/// that `lsp_types::DiagnosticSeverity` wraps (1 error, 2 warning,
/// 3 information, 4 hint).
pub uninterp spec fn lsp_severity_number(severity: lsp_types::DiagnosticSeverity) -> i32;

/// `lsp_types::DiagnosticSeverity::ERROR`, which lsp-types defines as
/// `DiagnosticSeverity(1)`.
#[verifier::external_body]
fn lsp_error_severity() -> (r: lsp_types::DiagnosticSeverity)
    ensures
        lsp_severity_number(r) == 1,
{
    lsp_types::DiagnosticSeverity::ERROR
}

/// `lsp_types::DiagnosticSeverity::WARNING`, which lsp-types defines as
/// `DiagnosticSeverity(2)`.
#[verifier::external_body]
fn lsp_warning_severity() -> (r: lsp_types::DiagnosticSeverity)
    ensures
        lsp_severity_number(r) == 2,
{
    lsp_types::DiagnosticSeverity::WARNING
}

/// Severity levels of spcomp errors.
#[derive(Debug, Clone, Copy, PartialEq, Eq, Structural)]
pub enum SpCompSeverity {
    Warning,
    Error,
    FatalError,
}

impl SpCompSeverity {
    /// The LSP protocol number of the severity this level is reported with.
    pub open spec fn lsp_code(self) -> i32 {
        match self {
            SpCompSeverity::Warning => 2,
            SpCompSeverity::Error => 1,
            SpCompSeverity::FatalError => 1,
        }
    }

    /// Convert to a LSP `DiagnosticSeverity`: a warning to the warning
    /// severity, an error or fatal error to the error severity, and never to
    /// information (3) or hint (4).
    pub fn to_lsp_severity(&self) -> (r: lsp_types::DiagnosticSeverity)
        ensures
            lsp_severity_number(r) == self.lsp_code(),
            lsp_severity_number(r) == 2 <==> *self == SpCompSeverity::Warning,
            lsp_severity_number(r) == 1 <==> *self != SpCompSeverity::Warning,
    {
        match self {
            SpCompSeverity::Warning => lsp_warning_severity(),
            SpCompSeverity::Error => lsp_error_severity(),
            SpCompSeverity::FatalError => lsp_error_severity(),
        }
    }
}

/// The value of a run of digits: `None` when the run is empty, when a
/// character of it is no ASCII digit, or when the value exceeds `u32::MAX`.
/// On runs of digits this is what `str::parse::<u32>` gives (which also
/// takes a leading `+`).
pub open spec fn parse_u32(s: Seq<char>) -> Option<u32> {
    if s.len() > 0 && (forall|k: int| 0 <= k < s.len() ==> is_ascii_digit(#[trigger] s[k]))
        && decimal_value(s) <= u32::MAX {
        Some(decimal_value(s) as u32)
    } else {
        None
    }
}

/// The number that a run of ASCII digits writes in base ten.
pub open spec fn decimal_value(s: Seq<char>) -> nat
    decreases s.len(),
{
    if s.len() == 0 {
        0
    } else {
        decimal_value(s.drop_last()) * 10 + ((s.last() as nat) - ('0' as nat)) as nat
    }
}

/// Reads the value of a run of digits.
pub fn parse_u32_digits(s: &str) -> (r: Option<u32>)
    ensures
        r == parse_u32(s@),
{
    let n = s.unicode_len();
    if n == 0 {
        return None;
    }
    let mut value: u64 = 0;
    let mut overflow = false;
    let mut i: usize = 0;
    while i < n
        invariant
            n == s@.len(),
            i <= n,
            forall|k: int| 0 <= k < i ==> is_ascii_digit(#[trigger] s@[k]),
            overflow ==> decimal_value(s@.take(i as int)) > u32::MAX,
            !overflow ==> value == decimal_value(s@.take(i as int)) && value <= u32::MAX,
        decreases n - i,
    {
        let c = s.get_char(i);
        if !ascii_digit(c) {
            return None;
        }
        assert(s@.take(i + 1).drop_last() =~= s@.take(i as int));
        if !overflow {
            let d = (c as u32 - '0' as u32) as u64;
            value = value * 10 + d;
            if value > 0xffff_ffff {
                overflow = true;
            }
        }
        i = i + 1;
    }
    assert(s@.take(n as int) =~= s@);
    if overflow {
        None
    } else {
        Some(value as u32)
    }
}

/// The ASCII digit of `d` (below ten).
pub open spec fn digit_char(d: nat) -> char {
    if d == 0 {
        '0'
    } else if d == 1 {
        '1'
    } else if d == 2 {
        '2'
    } else if d == 3 {
        '3'
    } else if d == 4 {
        '4'
    } else if d == 5 {
        '5'
    } else if d == 6 {
        '6'
    } else if d == 7 {
        '7'
    } else if d == 8 {
        '8'
    } else {
        '9'
    }
}

/// `n` written in base ten, without leading zeros.
pub open spec fn decimal_digits(n: nat) -> Seq<char>
    decreases n,
{
    if n < 10 {
        seq![digit_char(n)]
    } else {
        decimal_digits(n / 10).push(digit_char(n % 10))
    }
}

/// Writing a number in base ten and reading it back gives the number.
pub proof fn lemma_decimal_digits_value(n: nat)
    ensures
        decimal_digits(n).len() > 0,
        forall|k: int|
            0 <= k < decimal_digits(n).len() ==> is_ascii_digit(#[trigger] decimal_digits(n)[k]),
        decimal_value(decimal_digits(n)) == n,
    decreases n,
{
    if n < 10 {
        assert(decimal_digits(n).drop_last() =~= Seq::<char>::empty());
        assert(decimal_value(Seq::<char>::empty()) == 0);
        assert((digit_char(n) as nat) - ('0' as nat) == n);
        assert(decimal_digits(n).last() == digit_char(n));
    } else {
        lemma_decimal_digits_value(n / 10);
        assert(decimal_digits(n).drop_last() =~= decimal_digits(n / 10));
        assert((n / 10) * 10 + n % 10 == n);
        assert((digit_char(n % 10) as nat) - ('0' as nat) == n % 10);
    }
}

/// A view of a diagnostic of spcomp.
pub struct DiagnosticView {
    pub path: Seq<char>,
    pub line_index: u32,
    pub severity: SpCompSeverity,
    pub code: Seq<char>,
    pub message: Seq<char>,
}

/// Representation of an spcomp error.
#[derive(Debug, Clone)]
pub struct SpCompDiagnostic {
    /// Path of the document where the error comes from.
    path: String,
    /// Line index of the error.
    line_index: u32,
    /// Severity of the error.
    severity: SpCompSeverity,
    /// Code of the error.
    code: String,
    /// Message of the error.
    message: String,
}

impl View for SpCompDiagnostic {
    type V = DiagnosticView;

    closed spec fn view(&self) -> DiagnosticView {
        DiagnosticView {
            path: self.path@,
            line_index: self.line_index,
            severity: self.severity,
            code: self.code@,
            message: self.message@,
        }
    }
}

pub open spec fn diagnostic_view(d: Option<SpCompDiagnostic>) -> Option<DiagnosticView> {
    match d {
        Some(d) => Some(d@),
        None => None,
    }
}

/// The diagnostic that the parts `f` of a line describe, where
/// `path_is_absolute` says whether the path is absolute: `None` when it is
/// not, when the line number is no `u32`, or when it is 0, which names no
/// line. Lines count from 1 in spcomp's output and from 0 in a diagnostic.
pub open spec fn diagnostic_of(f: LineFields, path_is_absolute: bool) -> Option<DiagnosticView> {
    if !path_is_absolute {
        None
    } else {
        match parse_u32(f.line_digits) {
            Some(line) => if line == 0 {
                None
            } else {
                Some(
                DiagnosticView {
                    path: f.path,
                    line_index: (line - 1) as u32,
                    severity: f.severity,
                    code: f.code,
                    message: f.message,
                },
            )
            },
            None => None,
        }
    }
}

/// Reading back the line in which spcomp prints a diagnostic, with its line
/// index counted from 1, gives the diagnostic, where its path is absolute.
pub proof fn lemma_read_printed_diagnostic(d: DiagnosticView)
    requires
        d.line_index < u32::MAX,
        are_printable_parts(d.path, decimal_digits((d.line_index + 1) as nat), d.code, d.message),
    ensures
        line_fields(
            format_line(d.path, decimal_digits((d.line_index + 1) as nat), d.severity, d.code, d.message),
        ) matches Some(f) && diagnostic_of(f, true) == Some(d),
{
    let digits = decimal_digits((d.line_index + 1) as nat);
    lemma_parse_formatted_line(d.path, digits, d.severity, d.code, d.message);
    lemma_decimal_digits_value((d.line_index + 1) as nat);
    assert(parse_u32(digits) == Some((d.line_index + 1) as u32));
}

/// `path` holds a separator, `/` or `\`.
pub open spec fn has_separator(path: Seq<char>) -> bool {
    path.contains('/') || path.contains('\\')
}

/// `std::path::Path::is_absolute` on `path`. What makes a path absolute
/// depends on the platform (on Unix, a leading root; on Windows, a prefix and
/// a root), so only what holds on every platform is stated: a path without a
/// separator, the empty path among them, has no root and is not absolute.
#[verifier::external_body]
fn path_is_absolute(path: &str) -> (r: bool)
    ensures
        !has_separator(path@) ==> !r,
{
    std::path::Path::new(path).is_absolute()
}

impl SpCompDiagnostic {
    pub fn path(&self) -> (r: &str)
        ensures
            r@ == self@.path,
    {
        self.path.as_str()
    }

    pub fn line_index(&self) -> (r: u32)
        ensures
            r == self@.line_index,
    {
        self.line_index
    }

    pub fn severity(&self) -> (r: &SpCompSeverity)
        ensures
            *r == self@.severity,
    {
        &self.severity
    }

    pub fn code(&self) -> (r: &str)
        ensures
            r@ == self@.code,
    {
        self.code.as_str()
    }

    pub fn message(&self) -> (r: &str)
        ensures
            r@ == self@.message,
    {
        self.message.as_str()
    }

    /// The diagnostic that the parts of a line describe, given whether its
    /// path is absolute.
    pub fn from_line_parts(parts: SpCompLine, path_is_absolute: bool) -> (r: Option<Self>)
        ensures
            diagnostic_view(r) == diagnostic_of(parts@, path_is_absolute),
    {
        if !path_is_absolute {
            return None;
        }
        let line = match parse_u32_digits(parts.line_digits.as_str()) {
            Some(line) => line,
            None => return None,
        };
        if line == 0 {
            return None;
        }
        Some(
            SpCompDiagnostic {
                path: parts.path,
                line_index: line - 1,
                severity: parts.severity,
                code: parts.code,
                message: parts.message,
            },
        )
    }

    /// Reads a diagnostic from a line of spcomp's output. `None` when the line
    /// holds none, when its line number is no `u32` or is 0, or when its path
    /// is not absolute.
    pub fn try_from_line(line: &str) -> (r: Option<Self>)
        ensures
            match line_fields(line@) {
                Some(f) => r is None || diagnostic_view(r) == diagnostic_of(f, true),
                None => r is None,
            },
            line_fields(line@) matches Some(f) && !has_separator(f.path) ==> r is None,
    {
        let parts = match parse_line(line) {
            Some(parts) => parts,
            None => return None,
        };
        let absolute = path_is_absolute(parts.path.as_str());
        Self::from_line_parts(parts, absolute)
    }
}

/// The flag that adds `dir` to spcomp's include directories: `-i<dir>`.
pub open spec fn include_flag(dir: Seq<char>) -> Seq<char> {
    seq!['-', 'i'] + dir
}

/// The flag that names spcomp's output file: `-o<out>`.
pub open spec fn output_flag(out: Seq<char>) -> Seq<char> {
    seq!['-', 'o'] + out
}

/// `--syntax-only`.
pub open spec fn syntax_only_flag() -> Seq<char> {
    seq!['-', '-', 's', 'y', 'n', 't', 'a', 'x', '-', 'o', 'n', 'l', 'y']
}

/// The include flags of the project itself: its root's directory `parent`,
/// if the root has one, then that directory's `include` subdirectory
/// `local_include`, where it exists.
pub open spec fn project_include_flags(
    parent: Option<Seq<char>>,
    local_include: Option<Seq<char>>,
) -> Seq<Seq<char>> {
    match parent {
        Some(p) => seq![include_flag(p)] + match local_include {
            Some(i) => seq![include_flag(i)],
            None => Seq::<Seq<char>>::empty(),
        },
        None => Seq::<Seq<char>>::empty(),
    }
}

/// The arguments of spcomp: the root file, the project's own include
/// directories, the user's include directories in their order, the output
/// file, `--syntax-only`, then the linter arguments.
pub open spec fn spcomp_args(
    root: Seq<char>,
    out: Seq<char>,
    parent: Option<Seq<char>>,
    local_include: Option<Seq<char>>,
    includes: Seq<Seq<char>>,
    linter: Seq<Seq<char>>,
) -> Seq<Seq<char>> {
    seq![root] + project_include_flags(parent, local_include) + includes.map_values(
        |d: Seq<char>| include_flag(d),
    ) + seq![output_flag(out), syntax_only_flag()] + linter
}

/// Where each argument of spcomp stands: the root file first; then the
/// root's directory and its `include` directory, where they are given; then
/// the user's include directories, in their order; then the output file and
/// `--syntax-only`; and the linter arguments last, in their order.
pub proof fn lemma_spcomp_args_layout(
    root: Seq<char>,
    out: Seq<char>,
    parent: Option<Seq<char>>,
    local_include: Option<Seq<char>>,
    includes: Seq<Seq<char>>,
    linter: Seq<Seq<char>>,
)
    ensures
        ({
            let r = spcomp_args(root, out, parent, local_include, includes, linter);
            let p: int = match parent {
                Some(_) => if local_include is Some {
                    2
                } else {
                    1
                },
                None => 0,
            };
            let u = 1 + p + includes.len();
            &&& r.len() == u + 2 + linter.len()
            &&& r[0] == root
            &&& (parent matches Some(dir) ==> r[1] == include_flag(dir))
            &&& (parent is Some ==> (local_include matches Some(dir) ==> r[2] == include_flag(dir)))
            &&& forall|j: int| 0 <= j < includes.len() ==> r[1 + p + j] == include_flag(includes[j])
            &&& r[u] == output_flag(out)
            &&& r[u + 1] == syntax_only_flag()
            &&& forall|k: int| 0 <= k < linter.len() ==> r[u + 2 + k] == linter[k]
        }),
{
}

pub open spec fn strings_view(v: Seq<String>) -> Seq<Seq<char>> {
    v.map_values(|s: String| s@)
}

pub open spec fn option_view(o: Option<String>) -> Option<Seq<char>> {
    match o {
        Some(s) => Some(s@),
        None => None,
    }
}

/// `-i<dir>`.
fn include_flag_of(dir: &str) -> (r: String)
    ensures
        r@ == include_flag(dir@),
{
    proof {
        reveal_strlit("-i");
    }
    String::from_str("-i").concat(dir)
}

/// The arguments of spcomp, from the directory of the root file and the
/// existing `include` subdirectory of it, both as text.
pub fn assemble_args(
    root_path: &str,
    out_path: &str,
    parent: Option<String>,
    local_include: Option<String>,
    includes_directories: &[String],
    linter_arguments: &[String],
) -> (r: Vec<String>)
    ensures
        strings_view(r@) == spcomp_args(
            root_path@,
            out_path@,
            option_view(parent),
            option_view(local_include),
            strings_view(includes_directories@),
            strings_view(linter_arguments@),
        ),
{
    let mut args: Vec<String> = Vec::new();
    args.push(String::from_str(root_path));
    let ghost front = seq![root_path@] + project_include_flags(
        option_view(parent),
        option_view(local_include),
    );
    if let Some(p) = &parent {
        args.push(include_flag_of(p.as_str()));
        if let Some(i) = &local_include {
            args.push(include_flag_of(i.as_str()));
        }
    }
    assert(strings_view(args@) =~= front);
    let ghost dirs = strings_view(includes_directories@);
    let mut k: usize = 0;
    while k < includes_directories.len()
        invariant
            k <= includes_directories@.len(),
            dirs == strings_view(includes_directories@),
            strings_view(args@) =~= front + dirs.take(k as int).map_values(
                |d: Seq<char>| include_flag(d),
            ),
        decreases includes_directories@.len() - k,
    {
        let flag = include_flag_of(includes_directories[k].as_str());
        let ghost before = args@;
        args.push(flag);
        assert(strings_view(args@) =~= strings_view(before).push(flag@));
        assert(dirs.take(k + 1) =~= dirs.take(k as int).push(dirs[k as int]));
        assert(dirs.take(k + 1).map_values(|d: Seq<char>| include_flag(d)) =~= dirs.take(
            k as int,
        ).map_values(|d: Seq<char>| include_flag(d)).push(include_flag(dirs[k as int])));
        k = k + 1;
    }
    assert(dirs.take(k as int) =~= dirs);
    proof {
        reveal_strlit("-o");
        reveal_strlit("--syntax-only");
    }
    let ghost before = args@;
    let out_flag = String::from_str("-o").concat(out_path);
    let syntax_only = String::from_str("--syntax-only");
    assert(out_flag@ =~= output_flag(out_path@));
    assert(syntax_only@ =~= syntax_only_flag());
    args.push(out_flag);
    args.push(syntax_only);
    assert(strings_view(args@) =~= strings_view(before).push(out_flag@).push(syntax_only@));
    let ghost mid = strings_view(args@);
    let ghost lint = strings_view(linter_arguments@);
    let mut k: usize = 0;
    while k < linter_arguments.len()
        invariant
            k <= linter_arguments@.len(),
            lint == strings_view(linter_arguments@),
            strings_view(args@) =~= mid + lint.take(k as int),
        decreases linter_arguments@.len() - k,
    {
        let arg = linter_arguments[k].clone();
        let ghost before = args@;
        args.push(arg);
        assert(strings_view(args@) =~= strings_view(before).push(lint[k as int]));
        assert(lint.take(k + 1) =~= lint.take(k as int).push(lint[k as int]));
        k = k + 1;
    }
    assert(lint.take(k as int) =~= lint);
    assert(mid =~= front + dirs.map_values(|d: Seq<char>| include_flag(d)) + seq![
        output_flag(out_path@),
        syntax_only_flag(),
    ]);
    args
}

/// `p` is the text of `s` without at least its last character.
pub open spec fn is_proper_prefix(p: Seq<char>, s: Seq<char>) -> bool {
    p.len() < s.len() && s.subrange(0, p.len() as int) == p
}

/// A path component that holds no separator (`/`, `\`) and no drive colon,
/// so that it is relative on every platform.
pub open spec fn is_plain_segment(segment: Seq<char>) -> bool {
    &&& segment.len() > 0
    &&& forall|k: int|
        0 <= k < segment.len() ==> {
            let c = #[trigger] segment[k];
            c != '/' && c != '\\' && c != ':'
        }
}

/// `joined` is `base` extended with `segment`, with at most one separator
/// (`/` or `\`, as the platform writes it) between them.
pub open spec fn is_joined(base: Seq<char>, segment: Seq<char>, joined: Seq<char>) -> bool {
    ||| joined == base + segment
    ||| joined == base + seq!['/'] + segment
    ||| joined == base + seq!['\\'] + segment
}

/// `joined` is `base`, one separator (`/` or `\`, as the platform writes
/// it), then `segment`: `segment` names an entry of the directory `base`.
pub open spec fn is_separated_join(base: Seq<char>, segment: Seq<char>, joined: Seq<char>) -> bool {
    ||| joined == base + seq!['/'] + segment
    ||| joined == base + seq!['\\'] + segment
}

/// `base` ends in a component: it is not empty, does not end with a
/// separator, and holds no drive colon, so that a path joined to it needs a
/// separator on every platform.
pub open spec fn ends_in_component(base: Seq<char>) -> bool {
    &&& base.len() > 0
    &&& base.last() != '/'
    &&& base.last() != '\\'
    &&& !base.contains(':')
}

/// `path` starts with `\\?\`, the verbatim prefix of Windows paths.
pub open spec fn has_verbatim_prefix(path: Seq<char>) -> bool {
    &&& path.len() >= 4
    &&& path[0] == '\\'
    &&& path[1] == '\\'
    &&& path[2] == '?'
    &&& path[3] == '\\'
}

/// `path` is `first/last` for two plain segments, where `last` is not `.`:
/// a relative path of two components on every platform, whose final
/// component is `last`.
pub open spec fn is_two_segment_path(path: Seq<char>, first: Seq<char>) -> bool {
    exists|last: Seq<char>|
        is_plain_segment(first) && is_plain_segment(last) && last != seq!['.'] && path == first
            + seq!['/'] + last
}

/// `p` is `/s1/.../sn` (n at least 1): a root `/` followed by plain
/// segments, none of them `.`, each after a single `/`.
pub open spec fn is_rooted_plain_path(p: Seq<char>) -> bool {
    &&& p.len() >= 2
    &&& p[0] == '/'
    &&& p.last() != '/'
    &&& forall|k: int| 0 <= k < p.len() ==> #[trigger] p[k] != '\\' && p[k] != ':'
    &&& forall|k: int|
        0 <= k < p.len() - 1 && #[trigger] p[k] == '/' ==> p[k + 1] != '/' && !(p[k + 1] == '.'
            && (k + 2 == p.len() || p[k + 2] == '/'))
}

/// `path` is `parent/last` for a rooted path `parent` of plain segments and a
/// plain segment `last` that is not `.`: a path whose final component is
/// `last` on every platform (as in `/foo/bar`, whose parent is `/foo`).
pub open spec fn is_rooted_child_path(path: Seq<char>, parent: Seq<char>) -> bool {
    exists|last: Seq<char>|
        is_rooted_plain_path(parent) && is_plain_segment(last) && last != seq!['.'] && path
            == parent + seq!['/'] + last
}

/// A prefix of a path without the verbatim prefix has none either.
proof fn lemma_prefix_not_verbatim(p: Seq<char>, s: Seq<char>)
    requires
        is_proper_prefix(p, s),
        !has_verbatim_prefix(s),
    ensures
        !has_verbatim_prefix(p),
{
    if p.len() >= 4 {
        assert(s.subrange(0, p.len() as int)[0] == s[0]);
        assert(s.subrange(0, p.len() as int)[1] == s[1]);
        assert(s.subrange(0, p.len() as int)[2] == s[2]);
        assert(s.subrange(0, p.len() as int)[3] == s[3]);
    }
}

/// `std::path::Path::parent` of `path`, displayed as text. Its documentation
/// says that the parent is the path without its final component, and that
/// the empty path and the root `/` have none; these are stated here, and so
/// is the parent of a relative path `first/last` of two plain components
/// (`first`) and of a rooted path `/s1/.../sn/last` of plain components
/// (`/s1/.../sn`, as in the documented `/foo/bar`, whose parent is `/foo`);
/// `.` components, which paths normalize away, are left out. Which part
/// of other paths is their final component, and so whether there is one,
/// depends on the platform's separators and prefixes, and is left unsaid.
#[verifier::external_body]
fn path_parent(path: &str) -> (r: Option<String>)
    ensures
        path@.len() == 0 ==> r is None,
        path@ == seq!['/'] ==> r is None,
        r matches Some(parent) ==> is_proper_prefix(parent@, path@),
        forall|first: Seq<char>|
            #[trigger] is_two_segment_path(path@, first) ==> r is Some && r.unwrap()@ == first,
        forall|parent: Seq<char>|
            #[trigger] is_rooted_child_path(path@, parent) ==> r is Some && r.unwrap()@ == parent,
{
    match std::path::Path::new(path).parent() {
        Some(parent) => Some(parent.display().to_string()),
        None => None,
    }
}

/// `std::path::Path::join` of `base` and `segment`, displayed as text. For a
/// relative `segment`, its documentation says that the result extends `base`
/// with `segment`, except on Windows for a base with a verbatim prefix
/// (`\\?\`), which it normalizes; so the clause is stated for other bases
/// only. The separator it may insert between them is the platform's, so
/// either separator is allowed here; as its documented example
/// (`/tmp` and `file.bk` give `/tmp/file.bk`) shows, a separator stands
/// between them when `base` ends in a component.
#[verifier::external_body]
fn path_join(base: &str, segment: &str) -> (r: String)
    requires
        is_plain_segment(segment@),
    ensures
        !has_verbatim_prefix(base@) ==> is_joined(base@, segment@, r@),
        !has_verbatim_prefix(base@) && ends_in_component(base@) ==> is_separated_join(
            base@,
            segment@,
            r@,
        ),
{
    std::path::Path::new(base).join(segment).display().to_string()
}

/// The `include` directory beside the root file `root_path`, if the root has
/// a parent directory: the directory whose existence decides whether
/// `build_args` adds it. It is the root's parent, a proper prefix of the
/// root's path, joined with `include`; an empty root path and `/` have none,
/// the root `first/last` has the parent `first`, and the root
/// `/s1/.../sn/last` has the parent `/s1/.../sn`; in both, one separator
/// stands between the parent and `include`.
pub fn local_include_dir(root_path: &str) -> (r: Option<String>)
    ensures
        root_path@.len() == 0 ==> r is None,
        root_path@ == seq!['/'] ==> r is None,
        r matches Some(dir) ==> exists|parent: Seq<char>|
            is_proper_prefix(parent, root_path@) && (!has_verbatim_prefix(root_path@)
                ==> is_joined(parent, "include"@, dir@)),
        forall|first: Seq<char>|
            is_two_segment_path(root_path@, first) ==> (r matches Some(dir) && is_separated_join(
                first,
                "include"@,
                dir@,
            )),
        forall|parent: Seq<char>|
            is_rooted_child_path(root_path@, parent) ==> (r matches Some(dir) && is_separated_join(
                parent,
                "include"@,
                dir@,
            )),
{
    proof {
        reveal_strlit("include");
    }
    match path_parent(root_path) {
        Some(parent) => {
            let dir = path_join(parent.as_str(), "include");
            proof {
                if !has_verbatim_prefix(root_path@) {
                    lemma_prefix_not_verbatim(parent@, root_path@);
                }
                assert forall|first: Seq<char>|
                    is_two_segment_path(root_path@, first) implies is_separated_join(
                    first,
                    "include"@,
                    dir@,
                ) by {
                    assert(root_path@[0] == first[0]);
                    assert(first[first.len() - 1] != '/');
                    assert(!first.contains(':')) by {
                        if first.contains(':') {
                            let k = choose|k: int| 0 <= k < first.len() && first[k] == ':';
                            assert(first[k] != ':');
                        }
                    }
                    assert(ends_in_component(first));
                }
                assert forall|p: Seq<char>|
                    is_rooted_child_path(root_path@, p) implies is_separated_join(
                    p,
                    "include"@,
                    dir@,
                ) by {
                    assert(root_path@[0] == p[0]);
                    assert(p[p.len() - 1] != '\\');
                    assert(!p.contains(':')) by {
                        if p.contains(':') {
                            let k = choose|k: int| 0 <= k < p.len() && p[k] == ':';
                            assert(p[k] != ':');
                        }
                    }
                    assert(ends_in_component(p));
                }
            }
            Some(dir)
        },
        None => None,
    }
}

/// Returns the arguments to run spcomp on the root file `root_path`, writing
/// to `out_path`. `existing_local_include` is the `include` directory beside
/// the root file (as `local_include_dir` gives it) where it exists on disk,
/// and `None` where it does not; it is added only when the root has a parent
/// directory. The project's own include directories come before those the
/// user configured, so that project files take precedence. A root without a
/// parent (the empty path, or `/`) adds no project include.
pub fn build_args(
    root_path: &str,
    out_path: &str,
    includes_directories: &[String],
    linter_arguments: &[String],
    existing_local_include: Option<String>,
) -> (r: Vec<String>)
    ensures
        exists|parent: Option<Seq<char>>|
            {
                &&& (root_path@.len() == 0 ==> parent is None)
                &&& (root_path@ == seq!['/'] ==> parent is None)
                &&& (parent matches Some(p) ==> is_proper_prefix(p, root_path@))
                &&& (forall|first: Seq<char>|
                    is_two_segment_path(root_path@, first) ==> parent == Some(first))
                &&& (forall|p: Seq<char>|
                    is_rooted_child_path(root_path@, p) ==> parent == Some(p))
                &&& strings_view(r@) == spcomp_args(
                    root_path@,
                    out_path@,
                    parent,
                    option_view(existing_local_include),
                    strings_view(includes_directories@),
                    strings_view(linter_arguments@),
                )
            },
{
    let parent = path_parent(root_path);
    let ghost pv = option_view(parent);
    let ghost lv = option_view(existing_local_include);
    let r = assemble_args(
        root_path,
        out_path,
        parent,
        existing_local_include,
        includes_directories,
        linter_arguments,
    );
    assert(strings_view(r@) == spcomp_args(
        root_path@,
        out_path@,
        pv,
        lv,
        strings_view(includes_directories@),
        strings_view(linter_arguments@),
    ));
    r
}

} // verus!

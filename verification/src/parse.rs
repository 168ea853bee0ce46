//! Parser for the configuration file: a line-oriented TOML subset with
//! comments, `[cli]` and repeated `[[vms]]` tables, and `key = "value"`
//! pairs whose values are basic strings with the usual escapes.
//!
//! The grammar is stated once as spec functions over `Seq<char>`
//! (`spec_parse` and its helpers); the executable parser is proved to
//! return exactly what `spec_parse` says, including which error comes
//! out on which input. Unknown tables and unknown keys are skipped, a
//! `[[vms]]` entry missing one of `name`, `ip`, `user` is an error, and
//! an absent `[[vms]]` table yields an empty inventory.

use vstd::prelude::*;
use crate::config::{AppConfig, CliSettings, SpecAppConfig, SpecCliSettings, SpecVm, Vm};

verus! {

// ---------------------------------------------------------------------
// Errors
// ---------------------------------------------------------------------

/// Why a config text was rejected.
#[derive(Debug, Clone, Copy, PartialEq, Eq, Structural)]
pub enum ParseErrorKind {
    /// A line matches none of: blank, comment, table header, array-of-
    /// tables header, `key = "string"`.
    Syntax,
    /// A `[[vms]]` entry ended without a `name` key.
    MissingName,
    /// A `[[vms]]` entry ended without an `ip` key.
    MissingIp,
    /// A `[[vms]]` entry ended without a `user` key.
    MissingUser,
}

/// A parse failure: the offending (1-based) line and what was wrong.
/// For a missing host field the line is the line of the `[[vms]]`
/// header that opened the incomplete entry.
#[derive(Debug, Clone, Copy, PartialEq, Eq, Structural)]
pub struct ParseError {
    pub line: usize,
    pub kind: ParseErrorKind,
}

/// Spec-level image of a parse failure.
pub ghost struct SpecErr {
    pub line: int,
    pub kind: ParseErrorKind,
}

impl View for ParseError {
    type V = SpecErr;

    open spec fn view(&self) -> SpecErr {
        SpecErr { line: self.line as int, kind: self.kind }
    }
}

// ---------------------------------------------------------------------
// Character classes and low-level scans (spec)
// ---------------------------------------------------------------------

/// Horizontal whitespace; a carriage return counts so that CRLF files
/// parse like LF files.
pub open spec fn is_ws(c: char) -> bool {
    c == ' ' || c == '\t' || c == '\r'
}

/// Characters allowed in a bare key or table name.
pub open spec fn is_key_char(c: char) -> bool {
    (97 <= c as u32 && c as u32 <= 122)  // a-z
    || (65 <= c as u32 && c as u32 <= 90)  // A-Z
    || (48 <= c as u32 && c as u32 <= 57)  // 0-9
    || c == '_' || c == '-'
}

/// What a backslash escape inside a basic string denotes, if anything.
pub open spec fn unescape(c: char) -> Option<char> {
    if c == '"' {
        Some('"')
    } else if c == '\\' {
        Some('\\')
    } else if c == 'n' {
        Some('\n')
    } else if c == 't' {
        Some('\t')
    } else if c == 'r' {
        Some('\r')
    } else {
        None
    }
}

/// First index at or after `i` holding a non-whitespace character
/// (or the length of `s`).
pub open spec fn skip_ws(s: Seq<char>, i: int) -> int
    decreases s.len() - i,
{
    if 0 <= i < s.len() && is_ws(s[i]) {
        skip_ws(s, i + 1)
    } else {
        i
    }
}

/// First index at or after `i` holding a non-key character
/// (or the length of `s`).
pub open spec fn scan_key(s: Seq<char>, i: int) -> int
    decreases s.len() - i,
{
    if 0 <= i < s.len() && is_key_char(s[i]) {
        scan_key(s, i + 1)
    } else {
        i
    }
}

/// Scans a basic string whose opening quote stands just before `i`:
/// yields the unescaped contents and the index after the closing quote,
/// or `None` on an unterminated string or an unknown escape.
pub open spec fn scan_string(s: Seq<char>, i: int) -> Option<(Seq<char>, int)>
    decreases s.len() - i,
{
    if !(0 <= i < s.len()) {
        None
    } else if s[i] == '"' {
        Some((Seq::empty(), i + 1))
    } else if s[i] == '\\' {
        if i + 1 < s.len() {
            match unescape(s[i + 1]) {
                Some(c) => match scan_string(s, i + 2) {
                    Some(p) => Some((seq![c] + p.0, p.1)),
                    None => None,
                },
                None => None,
            }
        } else {
            None
        }
    } else {
        match scan_string(s, i + 1) {
            Some(p) => Some((seq![s[i]] + p.0, p.1)),
            None => None,
        }
    }
}

/// After a complete construct only whitespace and an optional comment
/// may remain on the line.
pub open spec fn rest_ok(s: Seq<char>, i: int) -> bool {
    let j = skip_ws(s, i);
    j >= s.len() || s[j] == '#'
}

// ---------------------------------------------------------------------
// Line classification (spec)
// ---------------------------------------------------------------------

/// What a single line of the file means.
pub ghost enum SpecShape {
    /// Blank line or comment.
    Skip,
    /// `[name]`
    Table { name: Seq<char> },
    /// `[[name]]`
    ArrayTable { name: Seq<char> },
    /// `key = "value"` (value already unescaped)
    KeyVal { key: Seq<char>, value: Seq<char> },
    /// Anything else.
    Bad,
}

/// The table name between brackets, with surrounding whitespace
/// skipped: yields the name and the index just after it and any
/// trailing whitespace, or `None` if no name is present.
pub open spec fn header_name(s: Seq<char>, i: int) -> Option<(Seq<char>, int)> {
    let j = skip_ws(s, i);
    let k = scan_key(s, j);
    if k > j {
        Some((s.subrange(j, k), skip_ws(s, k)))
    } else {
        None
    }
}

/// Classifies one line (which contains no newline).
pub open spec fn classify(line: Seq<char>) -> SpecShape {
    let i = skip_ws(line, 0);
    if i >= line.len() {
        SpecShape::Skip
    } else if line[i] == '#' {
        SpecShape::Skip
    } else if line[i] == '[' {
        if i + 1 < line.len() && line[i + 1] == '[' {
            match header_name(line, i + 2) {
                Some(p) => {
                    let m = p.1;
                    if m + 1 < line.len() && line[m] == ']' && line[m + 1] == ']'
                        && rest_ok(line, m + 2) {
                        SpecShape::ArrayTable { name: p.0 }
                    } else {
                        SpecShape::Bad
                    }
                },
                None => SpecShape::Bad,
            }
        } else {
            match header_name(line, i + 1) {
                Some(p) => {
                    let m = p.1;
                    if m < line.len() && line[m] == ']' && rest_ok(line, m + 1) {
                        SpecShape::Table { name: p.0 }
                    } else {
                        SpecShape::Bad
                    }
                },
                None => SpecShape::Bad,
            }
        }
    } else if is_key_char(line[i]) {
        let k = scan_key(line, i);
        let key = line.subrange(i, k);
        let j = skip_ws(line, k);
        if j < line.len() && line[j] == '=' {
            let v = skip_ws(line, j + 1);
            if v < line.len() && line[v] == '"' {
                match scan_string(line, v + 1) {
                    Some(p) => {
                        if rest_ok(line, p.1) {
                            SpecShape::KeyVal { key, value: p.0 }
                        } else {
                            SpecShape::Bad
                        }
                    },
                    None => SpecShape::Bad,
                }
            } else {
                SpecShape::Bad
            }
        } else {
            SpecShape::Bad
        }
    } else {
        SpecShape::Bad
    }
}

// ---------------------------------------------------------------------
// Splitting the text into lines (spec)
// ---------------------------------------------------------------------

/// Index of the first newline at or after `i`, or the length of `s`.
pub open spec fn find_nl(s: Seq<char>, i: int) -> int
    decreases s.len() - i,
{
    if 0 <= i < s.len() {
        if s[i] == '\n' {
            i
        } else {
            find_nl(s, i + 1)
        }
    } else {
        s.len() as int
    }
}

pub proof fn lemma_find_nl_bounds(s: Seq<char>, i: int)
    requires
        0 <= i <= s.len(),
    ensures
        i <= find_nl(s, i) <= s.len(),
    decreases s.len() - i,
{
    if i < s.len() && s[i] != '\n' {
        lemma_find_nl_bounds(s, i + 1);
    }
}

/// The lines of `s`, split at each newline. A text of `k` newlines has
/// `k + 1` lines; a trailing newline thus contributes a final empty
/// line, which classifies as `Skip`.
pub open spec fn split_lines(s: Seq<char>) -> Seq<Seq<char>>
    decreases s.len(),
    via split_lines_dec
{
    let j = find_nl(s, 0);
    if j >= s.len() {
        seq![s]
    } else {
        seq![s.subrange(0, j)] + split_lines(s.subrange(j + 1, s.len() as int))
    }
}

#[via_fn]
proof fn split_lines_dec(s: Seq<char>) {
    lemma_find_nl_bounds(s, 0);
}

/// No newline occurs in `s`, so it stands whole as a single line.
pub open spec fn no_nl(s: Seq<char>) -> bool {
    forall|k: int| 0 <= k < s.len() ==> s[k] != '\n'
}

/// Joins lines into a text, one newline after each line.
pub open spec fn join_lines(ls: Seq<Seq<char>>) -> Seq<char>
    decreases ls.len(),
{
    if ls.len() == 0 {
        Seq::empty()
    } else {
        ls[0] + seq!['\n'] + join_lines(ls.drop_first())
    }
}

/// Splitting a newline-joined text recovers exactly the joined lines,
/// plus the empty final line that follows the trailing newline.
pub proof fn lemma_split_join(ls: Seq<Seq<char>>)
    requires
        forall|i: int| 0 <= i < ls.len() ==> no_nl(#[trigger] ls[i]),
    ensures
        split_lines(join_lines(ls)) == ls + seq![Seq::<char>::empty()],
    decreases ls.len(),
{
    if ls.len() == 0 {
        assert(split_lines(join_lines(ls)) =~= seq![Seq::<char>::empty()]);
        assert(ls + seq![Seq::<char>::empty()] =~= seq![Seq::<char>::empty()]);
    } else {
        let l0 = ls[0];
        let rest = join_lines(ls.drop_first());
        let s = join_lines(ls);
        assert(s == l0 + seq!['\n'] + rest);
        assert forall|k: int| 0 <= k < l0.len() implies s[k] != '\n' by {
            assert(s[k] == l0[k]);
        }
        assert(s[l0.len() as int] == '\n');
        lemma_find_nl_from(s, 0, l0.len() as int);
        assert(s.subrange(0, l0.len() as int) =~= l0);
        assert(s.subrange(l0.len() as int + 1, s.len() as int) =~= rest);
        assert forall|i: int| 0 <= i < ls.drop_first().len() implies no_nl(
            #[trigger] ls.drop_first()[i],
        ) by {
            assert(ls.drop_first()[i] == ls[i + 1]);
        }
        lemma_split_join(ls.drop_first());
        assert(split_lines(s) == seq![l0] + (ls.drop_first() + seq![Seq::<char>::empty()]));
        assert(seq![l0] + (ls.drop_first() + seq![Seq::<char>::empty()]) =~= ls + seq![
            Seq::<char>::empty(),
        ]);
    }
}

/// A basic string without escapes scans to exactly its characters: if
/// the first quote after `i` stands at `m` and no backslash comes
/// before it, the value is the text between and the scan ends at
/// `m + 1`.
pub proof fn lemma_scan_plain_string(line: Seq<char>, i: int, m: int)
    requires
        0 <= i <= m < line.len(),
        line[m] == '"',
        forall|k: int| i <= k < m ==> line[k] != '"' && line[k] != '\\',
    ensures
        scan_string(line, i) == Some((line.subrange(i, m), m + 1)),
    decreases m - i,
{
    if i == m {
        assert(line.subrange(i, m) =~= Seq::<char>::empty());
    } else {
        lemma_scan_plain_string(line, i + 1, m);
        assert(seq![line[i]] + line.subrange(i + 1, m) =~= line.subrange(i, m));
    }
}

// ---------------------------------------------------------------------
// Folding classified lines into a configuration (spec)
// ---------------------------------------------------------------------

/// Which table the lines being read currently belong to.
pub ghost enum SpecSection {
    /// Before any table header.
    Top,
    /// Inside `[cli]`.
    Cli,
    /// Inside one `[[vms]]` entry.
    Vms,
    /// Inside an unknown table, whose keys are ignored.
    Other,
}

/// A `[[vms]]` entry still being read: fields seen so far, and the line
/// of its header for error reporting.
pub ghost struct SpecPartial {
    pub name: Option<Seq<char>>,
    pub ip: Option<Seq<char>>,
    pub user: Option<Seq<char>>,
    pub line: int,
}

/// The parser state between lines.
pub ghost struct SpecState {
    pub section: SpecSection,
    pub cli_present: bool,
    pub preferred_editor: Option<Seq<char>>,
    pub default_user: Option<Seq<char>>,
    pub vms: Seq<SpecVm>,
    pub cur: Option<SpecPartial>,
}

pub open spec fn init_state() -> SpecState {
    SpecState {
        section: SpecSection::Top,
        cli_present: false,
        preferred_editor: None,
        default_user: None,
        vms: Seq::empty(),
        cur: None,
    }
}

/// Completes the `[[vms]]` entry being read, if any: with all three
/// fields present it joins the inventory, otherwise the first missing
/// field (in the order name, ip, user) is the error.
pub open spec fn close_partial(st: SpecState) -> Result<SpecState, SpecErr> {
    match st.cur {
        None => Ok(st),
        Some(p) => match (p.name, p.ip, p.user) {
            (Some(n), Some(a), Some(u)) => Ok(
                SpecState {
                    vms: st.vms.push(SpecVm { name: n, ip: a, user: u }),
                    cur: None,
                    ..st
                },
            ),
            (None, _, _) => Err(SpecErr { line: p.line, kind: ParseErrorKind::MissingName }),
            (Some(_), None, _) => Err(SpecErr { line: p.line, kind: ParseErrorKind::MissingIp }),
            (Some(_), Some(_), None) => Err(
                SpecErr { line: p.line, kind: ParseErrorKind::MissingUser },
            ),
        },
    }
}

/// One step of the fold: how the line at `line_no`, already classified,
/// transforms the state. Keys repeated within a section overwrite the
/// earlier value; keys outside a known section are ignored.
pub open spec fn step(st: SpecState, line_no: int, shape: SpecShape) -> Result<SpecState, SpecErr> {
    match shape {
        SpecShape::Skip => Ok(st),
        SpecShape::Bad => Err(SpecErr { line: line_no, kind: ParseErrorKind::Syntax }),
        SpecShape::Table { name } => match close_partial(st) {
            Err(e) => Err(e),
            Ok(st1) => {
                if name == "cli"@ {
                    Ok(SpecState { section: SpecSection::Cli, cli_present: true, ..st1 })
                } else {
                    Ok(SpecState { section: SpecSection::Other, ..st1 })
                }
            },
        },
        SpecShape::ArrayTable { name } => match close_partial(st) {
            Err(e) => Err(e),
            Ok(st1) => {
                if name == "vms"@ {
                    Ok(
                        SpecState {
                            section: SpecSection::Vms,
                            cur: Some(
                                SpecPartial { name: None, ip: None, user: None, line: line_no },
                            ),
                            ..st1
                        },
                    )
                } else {
                    Ok(SpecState { section: SpecSection::Other, ..st1 })
                }
            },
        },
        SpecShape::KeyVal { key, value } => match st.section {
            SpecSection::Cli => {
                if key == "preferred_editor"@ {
                    Ok(SpecState { preferred_editor: Some(value), ..st })
                } else if key == "default_user"@ {
                    Ok(SpecState { default_user: Some(value), ..st })
                } else {
                    Ok(st)
                }
            },
            SpecSection::Vms => match st.cur {
                Some(p) => {
                    if key == "name"@ {
                        Ok(SpecState { cur: Some(SpecPartial { name: Some(value), ..p }), ..st })
                    } else if key == "ip"@ {
                        Ok(SpecState { cur: Some(SpecPartial { ip: Some(value), ..p }), ..st })
                    } else if key == "user"@ {
                        Ok(SpecState { cur: Some(SpecPartial { user: Some(value), ..p }), ..st })
                    } else {
                        Ok(st)
                    }
                },
                None => Ok(st),
            },
            SpecSection::Top => Ok(st),
            SpecSection::Other => Ok(st),
        },
    }
}

/// Folds `step` over the lines, numbering them from `line_no`.
pub open spec fn run_lines(st: SpecState, ls: Seq<Seq<char>>, line_no: int) -> Result<
    SpecState,
    SpecErr,
>
    decreases ls.len(),
{
    if ls.len() == 0 {
        Ok(st)
    } else {
        match step(st, line_no, classify(ls[0])) {
            Ok(st1) => run_lines(st1, ls.drop_first(), line_no + 1),
            Err(e) => Err(e),
        }
    }
}

/// Turns the final state into a configuration: the last `[[vms]]`
/// entry is completed, and `cli` is present exactly when a `[cli]`
/// header appeared.
pub open spec fn finish(st: SpecState) -> Result<SpecAppConfig, SpecErr> {
    match close_partial(st) {
        Err(e) => Err(e),
        Ok(st1) => Ok(
            SpecAppConfig {
                cli: if st1.cli_present {
                    Some(
                        SpecCliSettings {
                            preferred_editor: st1.preferred_editor,
                            default_user: st1.default_user,
                        },
                    )
                } else {
                    None
                },
                vms: st1.vms,
            },
        ),
    }
}

/// The meaning of a whole config text: what parsing it yields, or the
/// first error.
pub open spec fn spec_parse(text: Seq<char>) -> Result<SpecAppConfig, SpecErr> {
    match run_lines(init_state(), split_lines(text), 1) {
        Ok(st) => finish(st),
        Err(e) => Err(e),
    }
}

// ---------------------------------------------------------------------
// Trusted wrappers around std string operations vstd does not specify
// ---------------------------------------------------------------------

/// Relies on `String::push`: appends exactly one character at the end.
#[verifier::external_body]
fn push_char(s: &mut String, c: char)
    ensures
        final(s)@ == old(s)@.push(c),
{
    s.push(c);
}

/// Relies on `str` equality (`<str as PartialEq>::eq`): equal byte
/// content, which for UTF-8 strings coincides with equality of their
/// character sequences.
#[verifier::external_body]
pub(crate) fn str_eq(a: &str, b: &str) -> (r: bool)
    ensures
        r == (a@ == b@),
{
    a == b
}

// ---------------------------------------------------------------------
// Executable scanning, proved against the spec scans
// ---------------------------------------------------------------------

fn ws_char(c: char) -> (b: bool)
    ensures
        b == is_ws(c),
{
    c == ' ' || c == '\t' || c == '\r'
}

fn key_char(c: char) -> (b: bool)
    ensures
        b == is_key_char(c),
{
    let u = c as u32;
    (97 <= u && u <= 122) || (65 <= u && u <= 90) || (48 <= u && u <= 57) || c == '_' || c == '-'
}

fn skip_ws_exec(line: &str, start: usize) -> (r: usize)
    requires
        start <= line@.len(),
    ensures
        r == skip_ws(line@, start as int),
        start <= r <= line@.len(),
{
    let n = line.unicode_len();
    let mut i = start;
    while i < n && ws_char(line.get_char(i))
        invariant
            start <= i <= n,
            n == line@.len(),
            skip_ws(line@, start as int) == skip_ws(line@, i as int),
        decreases n - i,
    {
        i = i + 1;
    }
    i
}

fn scan_key_exec(line: &str, start: usize) -> (r: usize)
    requires
        start <= line@.len(),
    ensures
        r == scan_key(line@, start as int),
        start <= r <= line@.len(),
{
    let n = line.unicode_len();
    let mut i = start;
    while i < n && key_char(line.get_char(i))
        invariant
            start <= i <= n,
            n == line@.len(),
            scan_key(line@, start as int) == scan_key(line@, i as int),
        decreases n - i,
    {
        i = i + 1;
    }
    i
}

fn unescape_exec(c: char) -> (r: Option<char>)
    ensures
        r == unescape(c),
{
    if c == '"' {
        Some('"')
    } else if c == '\\' {
        Some('\\')
    } else if c == 'n' {
        Some('\n')
    } else if c == 't' {
        Some('\t')
    } else if c == 'r' {
        Some('\r')
    } else {
        None
    }
}

fn scan_string_exec(line: &str, start: usize) -> (r: Option<(String, usize)>)
    requires
        start <= line@.len(),
    ensures
        match r {
            Some(p) => scan_string(line@, start as int) == Some((p.0@, p.1 as int)) && p.1
                <= line@.len(),
            None => scan_string(line@, start as int) is None,
        },
{
    let n = line.unicode_len();
    let mut acc = String::new();
    let mut i = start;
    loop
        invariant
            start <= i <= n,
            n == line@.len(),
            match scan_string(line@, i as int) {
                Some(p) => scan_string(line@, start as int) == Some((acc@ + p.0, p.1)),
                None => scan_string(line@, start as int) is None,
            },
        decreases n - i,
    {
        if i >= n {
            return None;
        }
        let c = line.get_char(i);
        if c == '"' {
            proof {
                assert(acc@ + Seq::<char>::empty() =~= acc@);
            }
            return Some((acc, i + 1));
        } else if c == '\\' {
            if i + 1 >= n {
                return None;
            }
            let e = line.get_char(i + 1);
            match unescape_exec(e) {
                None => {
                    return None;
                },
                Some(c2) => {
                    proof {
                        if let Some(p) = scan_string(line@, i as int + 2) {
                            assert((acc@.push(c2)) + p.0 =~= acc@ + (seq![c2] + p.0));
                        }
                    }
                    push_char(&mut acc, c2);
                    i = i + 2;
                },
            }
        } else {
            proof {
                if let Some(p) = scan_string(line@, i as int + 1) {
                    assert((acc@.push(c)) + p.0 =~= acc@ + (seq![c] + p.0));
                }
            }
            push_char(&mut acc, c);
            i = i + 1;
        }
    }
}

fn rest_ok_exec(line: &str, i: usize) -> (r: bool)
    requires
        i <= line@.len(),
    ensures
        r == rest_ok(line@, i as int),
{
    let n = line.unicode_len();
    let j = skip_ws_exec(line, i);
    j >= n || line.get_char(j) == '#'
}

// ---------------------------------------------------------------------
// Executable line classification
// ---------------------------------------------------------------------

enum Shape {
    Skip,
    Table { name: String },
    ArrayTable { name: String },
    KeyVal { key: String, value: String },
    Bad,
}

impl View for Shape {
    type V = SpecShape;

    closed spec fn view(&self) -> SpecShape {
        match self {
            Shape::Skip => SpecShape::Skip,
            Shape::Table { name } => SpecShape::Table { name: name@ },
            Shape::ArrayTable { name } => SpecShape::ArrayTable { name: name@ },
            Shape::KeyVal { key, value } => SpecShape::KeyVal { key: key@, value: value@ },
            Shape::Bad => SpecShape::Bad,
        }
    }
}

/// The bracketed header name starting at `i`, as `header_name` sees it.
fn header_name_exec(line: &str, i: usize) -> (r: Option<(String, usize)>)
    requires
        i <= line@.len(),
    ensures
        match r {
            Some(p) => header_name(line@, i as int) == Some((p.0@, p.1 as int)) && p.1
                <= line@.len(),
            None => header_name(line@, i as int) is None,
        },
{
    let j = skip_ws_exec(line, i);
    let k = scan_key_exec(line, j);
    if k > j {
        let name = String::from_str(line.substring_char(j, k));
        let m = skip_ws_exec(line, k);
        Some((name, m))
    } else {
        None
    }
}

fn classify_exec(line: &str) -> (r: Shape)
    ensures
        r@ == classify(line@),
{
    let n = line.unicode_len();
    let i = skip_ws_exec(line, 0);
    if i >= n {
        Shape::Skip
    } else {
        let c = line.get_char(i);
        if c == '#' {
            Shape::Skip
        } else if c == '[' {
            if i + 1 < n && line.get_char(i + 1) == '[' {
                match header_name_exec(line, i + 2) {
                    Some(p) => {
                        let (name, m) = p;
                        if m < n && line.get_char(m) == ']' && m + 1 < n && line.get_char(m + 1)
                            == ']' && rest_ok_exec(line, m + 2) {
                            Shape::ArrayTable { name }
                        } else {
                            Shape::Bad
                        }
                    },
                    None => Shape::Bad,
                }
            } else {
                match header_name_exec(line, i + 1) {
                    Some(p) => {
                        let (name, m) = p;
                        if m < n && line.get_char(m) == ']' && rest_ok_exec(line, m + 1) {
                            Shape::Table { name }
                        } else {
                            Shape::Bad
                        }
                    },
                    None => Shape::Bad,
                }
            }
        } else if key_char(c) {
            let k = scan_key_exec(line, i);
            let key = String::from_str(line.substring_char(i, k));
            let j = skip_ws_exec(line, k);
            if j < n && line.get_char(j) == '=' {
                let v = skip_ws_exec(line, j + 1);
                if v < n && line.get_char(v) == '"' {
                    match scan_string_exec(line, v + 1) {
                        Some(p) => {
                            let (value, e) = p;
                            if rest_ok_exec(line, e) {
                                Shape::KeyVal { key, value }
                            } else {
                                Shape::Bad
                            }
                        },
                        None => Shape::Bad,
                    }
                } else {
                    Shape::Bad
                }
            } else {
                Shape::Bad
            }
        } else {
            Shape::Bad
        }
    }
}

// ---------------------------------------------------------------------
// Executable fold state
// ---------------------------------------------------------------------

#[derive(Clone, Copy, PartialEq, Eq, Structural)]
enum Section {
    Top,
    Cli,
    Vms,
    Other,
}

struct PartialVm {
    name: Option<String>,
    ip: Option<String>,
    user: Option<String>,
    line: usize,
}

struct PState {
    section: Section,
    cli_present: bool,
    preferred_editor: Option<String>,
    default_user: Option<String>,
    vms: Vec<Vm>,
    cur: Option<PartialVm>,
}

spec fn opt_str_view(o: Option<String>) -> Option<Seq<char>> {
    match o {
        Some(s) => Some(s@),
        None => None,
    }
}

impl View for Section {
    type V = SpecSection;

    closed spec fn view(&self) -> SpecSection {
        match self {
            Section::Top => SpecSection::Top,
            Section::Cli => SpecSection::Cli,
            Section::Vms => SpecSection::Vms,
            Section::Other => SpecSection::Other,
        }
    }
}

impl View for PartialVm {
    type V = SpecPartial;

    closed spec fn view(&self) -> SpecPartial {
        SpecPartial {
            name: opt_str_view(self.name),
            ip: opt_str_view(self.ip),
            user: opt_str_view(self.user),
            line: self.line as int,
        }
    }
}

impl View for PState {
    type V = SpecState;

    closed spec fn view(&self) -> SpecState {
        SpecState {
            section: self.section@,
            cli_present: self.cli_present,
            preferred_editor: opt_str_view(self.preferred_editor),
            default_user: opt_str_view(self.default_user),
            vms: self.vms@.map_values(|v: Vm| v@),
            cur: match self.cur {
                Some(ref p) => Some(p@),
                None => None,
            },
        }
    }
}

spec fn state_res_view(r: Result<PState, ParseError>) -> Result<SpecState, SpecErr> {
    match r {
        Ok(st) => Ok(st@),
        Err(e) => Err(e@),
    }
}

fn close_partial_exec(st: PState) -> (r: Result<PState, ParseError>)
    ensures
        state_res_view(r) == close_partial(st@),
{
    let PState { section, cli_present, preferred_editor, default_user, mut vms, cur } = st;
    match cur {
        None => Ok(
            PState { section, cli_present, preferred_editor, default_user, vms, cur: None },
        ),
        Some(p) => {
            let PartialVm { name, ip, user, line } = p;
            match (name, ip, user) {
                (Some(n), Some(a), Some(u)) => {
                    let ghost old_vms = vms@;
                    vms.push(Vm { name: n, ip: a, user: u });
                    proof {
                        assert(vms@.map_values(|v: Vm| v@) =~= old_vms.map_values(|v: Vm| v@)
                            .push(vms@[vms@.len() - 1]@));
                    }
                    Ok(
                        PState {
                            section,
                            cli_present,
                            preferred_editor,
                            default_user,
                            vms,
                            cur: None,
                        },
                    )
                },
                (None, _, _) => Err(ParseError { line, kind: ParseErrorKind::MissingName }),
                (Some(_), None, _) => Err(ParseError { line, kind: ParseErrorKind::MissingIp }),
                (Some(_), Some(_), None) => Err(
                    ParseError { line, kind: ParseErrorKind::MissingUser },
                ),
            }
        },
    }
}

fn step_exec(st: PState, line_no: usize, shape: Shape) -> (r: Result<PState, ParseError>)
    ensures
        state_res_view(r) == step(st@, line_no as int, shape@),
{
    match shape {
        Shape::Skip => Ok(st),
        Shape::Bad => Err(ParseError { line: line_no, kind: ParseErrorKind::Syntax }),
        Shape::Table { name } => {
            match close_partial_exec(st) {
                Err(e) => Err(e),
                Ok(st1) => {
                    let PState { section: _, cli_present, preferred_editor, default_user, vms, cur } =
                        st1;
                    if str_eq(name.as_str(), "cli") {
                        Ok(
                            PState {
                                section: Section::Cli,
                                cli_present: true,
                                preferred_editor,
                                default_user,
                                vms,
                                cur,
                            },
                        )
                    } else {
                        Ok(
                            PState {
                                section: Section::Other,
                                cli_present,
                                preferred_editor,
                                default_user,
                                vms,
                                cur,
                            },
                        )
                    }
                },
            }
        },
        Shape::ArrayTable { name } => {
            match close_partial_exec(st) {
                Err(e) => Err(e),
                Ok(st1) => {
                    let PState { section: _, cli_present, preferred_editor, default_user, vms, cur } =
                        st1;
                    if str_eq(name.as_str(), "vms") {
                        Ok(
                            PState {
                                section: Section::Vms,
                                cli_present,
                                preferred_editor,
                                default_user,
                                vms,
                                cur: Some(
                                    PartialVm { name: None, ip: None, user: None, line: line_no },
                                ),
                            },
                        )
                    } else {
                        Ok(
                            PState {
                                section: Section::Other,
                                cli_present,
                                preferred_editor,
                                default_user,
                                vms,
                                cur,
                            },
                        )
                    }
                },
            }
        },
        Shape::KeyVal { key, value } => {
            let PState { section, cli_present, preferred_editor, default_user, vms, cur } = st;
            match section {
                Section::Cli => {
                    if str_eq(key.as_str(), "preferred_editor") {
                        Ok(
                            PState {
                                section,
                                cli_present,
                                preferred_editor: Some(value),
                                default_user,
                                vms,
                                cur,
                            },
                        )
                    } else if str_eq(key.as_str(), "default_user") {
                        Ok(
                            PState {
                                section,
                                cli_present,
                                preferred_editor,
                                default_user: Some(value),
                                vms,
                                cur,
                            },
                        )
                    } else {
                        Ok(
                            PState {
                                section,
                                cli_present,
                                preferred_editor,
                                default_user,
                                vms,
                                cur,
                            },
                        )
                    }
                },
                Section::Vms => {
                    match cur {
                        Some(p) => {
                            let PartialVm { name, ip, user, line } = p;
                            let newp = if str_eq(key.as_str(), "name") {
                                PartialVm { name: Some(value), ip, user, line }
                            } else if str_eq(key.as_str(), "ip") {
                                PartialVm { name, ip: Some(value), user, line }
                            } else if str_eq(key.as_str(), "user") {
                                PartialVm { name, ip, user: Some(value), line }
                            } else {
                                PartialVm { name, ip, user, line }
                            };
                            Ok(
                                PState {
                                    section,
                                    cli_present,
                                    preferred_editor,
                                    default_user,
                                    vms,
                                    cur: Some(newp),
                                },
                            )
                        },
                        None => Ok(
                            PState {
                                section,
                                cli_present,
                                preferred_editor,
                                default_user,
                                vms,
                                cur: None,
                            },
                        ),
                    }
                },
                _ => Ok(
                    PState { section, cli_present, preferred_editor, default_user, vms, cur },
                ),
            }
        },
    }
}

fn finish_exec(st: PState) -> (r: Result<AppConfig, ParseError>)
    ensures
        parse_view(&r) == finish(st@),
{
    match close_partial_exec(st) {
        Err(e) => Err(e),
        Ok(st1) => {
            let PState { section: _, cli_present, preferred_editor, default_user, vms, cur: _ } =
                st1;
            Ok(
                AppConfig {
                    cli: if cli_present {
                        Some(CliSettings { preferred_editor, default_user })
                    } else {
                        None
                    },
                    vms,
                },
            )
        },
    }
}

// ---------------------------------------------------------------------
// The public parser
// ---------------------------------------------------------------------

/// Spec-level image of the parser's result.
pub open spec fn parse_view(r: &Result<AppConfig, ParseError>) -> Result<SpecAppConfig, SpecErr> {
    match r {
        Ok(c) => Ok(c@),
        Err(e) => Err(e@),
    }
}

/// Parses a whole config text. Returns exactly what `spec_parse` says
/// of the text: the typed configuration with hosts in file order, or
/// the first error with its line.
pub fn parse_config(text: &str) -> (r: Result<AppConfig, ParseError>)
    requires
        text@.len() < usize::MAX,
    ensures
        parse_view(&r) == spec_parse(text@),
{
    let n = text.unicode_len();
    let mut pos: usize = 0;
    let mut line_no: usize = 1;
    let mut st = PState {
        section: Section::Top,
        cli_present: false,
        preferred_editor: None,
        default_user: None,
        vms: Vec::new(),
        cur: None,
    };
    let mut done = false;
    proof {
        assert(st.vms@.map_values(|v: Vm| v@) =~= Seq::<SpecVm>::empty());
        assert(text@.subrange(0, text@.len() as int) =~= text@);
    }
    let ghost total = run_lines(init_state(), split_lines(text@), 1);
    loop
        invariant
            n == text@.len(),
            n < usize::MAX,
            total == run_lines(init_state(), split_lines(text@), 1),
            !done ==> pos <= n && line_no <= pos + 1 && total == run_lines(
                st@,
                split_lines(text@.subrange(pos as int, n as int)),
                line_no as int,
            ),
            done ==> total == Ok::<SpecState, SpecErr>(st@),
        ensures
            total == Ok::<SpecState, SpecErr>(st@),
        decreases (if done {
            0int
        } else {
            n - pos + 1
        }),
    {
        if done {
            break ;
        }
        // find the end of the current line
        let mut j = pos;
        while j < n && text.get_char(j) != '\n'
            invariant
                pos <= j <= n,
                n == text@.len(),
                forall|k: int| pos <= k < j ==> text@[k] != '\n',
            decreases n - j,
        {
            j = j + 1;
        }
        proof {
            let sub = text@.subrange(pos as int, n as int);
            assert forall|k: int| 0 <= k < j - pos implies sub[k] != '\n' by {
                assert(sub[k] == text@[k + pos]);
            }
            lemma_find_nl_from(sub, 0, j - pos);
            assert(sub.subrange(0, j - pos) =~= text@.subrange(pos as int, j as int));
            if j < n {
                assert(sub.subrange(j - pos + 1, sub.len() as int) =~= text@.subrange(
                    j as int + 1,
                    n as int,
                ));
            }
        }
        let line = text.substring_char(pos, j);
        let shape = classify_exec(line);
        match step_exec(st, line_no, shape) {
            Err(e) => {
                proof {
                    let ls = split_lines(text@.subrange(pos as int, n as int));
                    assert(ls[0] == text@.subrange(pos as int, j as int));
                    assert(run_lines(st@, ls, line_no as int) == Err::<SpecState, SpecErr>(e@));
                    assert(spec_parse(text@) == Err::<SpecAppConfig, SpecErr>(e@));
                }
                return Err(e);
            },
            Ok(st2) => {
                proof {
                    let sub = text@.subrange(pos as int, n as int);
                    let ls = split_lines(sub);
                    assert(ls[0] == text@.subrange(pos as int, j as int));
                    if j < n {
                        assert(ls.drop_first() =~= split_lines(
                            text@.subrange(j as int + 1, n as int),
                        ));
                    } else {
                        assert(ls =~= seq![sub]);
                        assert(ls.drop_first() =~= Seq::<Seq<char>>::empty());
                        assert(run_lines(st2@, ls.drop_first(), line_no as int + 1) == Ok::<
                            SpecState,
                            SpecErr,
                        >(st2@));
                        assert(total == Ok::<SpecState, SpecErr>(st2@));
                    }
                }
                st = st2;
                if j >= n {
                    done = true;
                } else {
                    pos = j + 1;
                    line_no = line_no + 1;
                }
            },
        }
    }
    finish_exec(st)
}

proof fn lemma_find_nl_from(s: Seq<char>, i: int, j: int)
    requires
        0 <= i <= j <= s.len(),
        forall|k: int| i <= k < j ==> s[k] != '\n',
        j == s.len() || s[j] == '\n',
    ensures
        find_nl(s, i) == j,
    decreases j - i,
{
    if i < j {
        lemma_find_nl_from(s, i + 1, j);
    }
}

} // verus!

//! Eval commands in Haskell source files: `-- $> expr` comments, and `{- $> ... <$ -}` blocks.
use vstd::prelude::*;

use super::lines::{
    lemma_until_newline_at, line_ending_at, scan_line_ending, scan_until_newline,
    until_newline_at,
};
use super::scan::{
    lemma_spaces_end, scan_lit, skip_spaces, spaces_end, starts_with_at, trim, trim_range,
    SyntaxError,
};
use crate::ghci::ghci_command::GhciCommand;
use crate::text::{chars_of, push_char, push_decimal, push_str, string_of_range, decimal_seq};

verus! {

/// A parsed eval command, before it is placed in the file: the command, how it is displayed,
/// and the character range it came from.
pub struct EvalSpan {
    pub command: Seq<char>,
    pub display: Seq<char>,
    pub start: int,
    pub end: int,
}

/// A one-line eval command at `i`: optional spaces, `-- $> `, and the rest of the line (with
/// its line ending, which the span covers but the command does not).
pub open spec fn line_eval_at(s: Seq<char>, i: int) -> Option<(int, EvalSpan)> {
    let a = spaces_end(s, i);
    if starts_with_at(s, a, "-- $> "@) {
        let b = a + "-- $> "@.len();
        match until_newline_at(s, b) {
            Some((j, n)) => Some(
                (n, EvalSpan { command: s.subrange(b, j), display: s.subrange(b, j), start: b, end: n }),
            ),
            None => None,
        }
    } else {
        None
    }
}

/// Optional spaces and the end marker `<$ -}` at `k`.
pub open spec fn eval_end_at(s: Seq<char>, k: int) -> bool {
    starts_with_at(s, spaces_end(s, k), "<$ -}"@)
}

/// The lines of a multi-line command from `k` on, up to the line the end marker starts.
pub open spec fn eval_body_end(s: Seq<char>, k: int) -> Option<int>
    decreases s.len() - k,
{
    if k < 0 || k > s.len() {
        None
    } else if eval_end_at(s, k) {
        Some(k)
    } else {
        match until_newline_at(s, k) {
            Some((_, n)) => if k < n <= s.len() {
                eval_body_end(s, n)
            } else {
                None
            },
            None => None,
        }
    }
}

/// A multi-line eval command at `i`: optional spaces, `{- $>`, optional spaces and an optional
/// line ending (both left out of the command), the command's lines, optional spaces, `<$ -}`,
/// optional spaces and a line ending. The command is wrapped in `:{` and `:}` lines; it is
/// displayed trimmed.
pub open spec fn multiline_eval_at(s: Seq<char>, i: int) -> Option<(int, EvalSpan)> {
    let a = spaces_end(s, i);
    if starts_with_at(s, a, "{- $>"@) {
        let c = spaces_end(s, a + "{- $>"@.len());
        let d = match line_ending_at(s, c) {
            Some(e) => e,
            None => c,
        };
        match eval_body_end(s, d) {
            Some(k) => {
                let f = spaces_end(s, spaces_end(s, k) + "<$ -}"@.len());
                match line_ending_at(s, f) {
                    Some(n) => Some(
                        (
                            n,
                            EvalSpan {
                                command: ":{\n"@ + s.subrange(d, k) + ":}"@,
                                display: trim(s.subrange(d, k)),
                                start: d,
                                end: k,
                            },
                        ),
                    ),
                    None => None,
                }
            },
            None => None,
        }
    } else {
        None
    }
}

/// One step of the eval command parser at `i`: a one-line command, a multi-line command, or any
/// other line (no command).
pub open spec fn eval_item_at(s: Seq<char>, i: int) -> Option<(int, Option<EvalSpan>)> {
    match line_eval_at(s, i) {
        Some((n, c)) => Some((n, Some(c))),
        None => match multiline_eval_at(s, i) {
            Some((n, c)) => Some((n, Some(c))),
            None => match until_newline_at(s, i) {
                Some((_, n)) => Some((n, None)),
                None => None,
            },
        },
    }
}

/// The eval commands from `i` on: steps repeat until none applies, which must happen at the end
/// of the input.
pub open spec fn eval_spans_from(s: Seq<char>, i: int) -> Option<Seq<EvalSpan>>
    decreases s.len() - i,
{
    if i < 0 || i > s.len() {
        None
    } else {
        match eval_item_at(s, i) {
            Some((n, c)) => if i < n <= s.len() {
                match eval_spans_from(s, n) {
                    Some(rest) => match c {
                        Some(c) => Some(seq![c] + rest),
                        None => Some(rest),
                    },
                    None => None,
                }
            } else {
                None
            },
            None => if i == s.len() {
                Some(Seq::empty())
            } else {
                None
            },
        }
    }
}

/// The number of bytes UTF-8 takes for a character.
pub open spec fn utf8_len(c: char) -> nat {
    if (c as u32) < 0x80 {
        1
    } else if (c as u32) < 0x800 {
        2
    } else if (c as u32) < 0x10000 {
        3
    } else {
        4
    }
}

/// The byte offset of character index `p`.
pub open spec fn byte_offset(s: Seq<char>, p: int) -> nat
    decreases p,
{
    if p <= 0 || p > s.len() {
        0
    } else {
        byte_offset(s, p - 1) + utf8_len(s[p - 1])
    }
}

/// The number of `\n` characters before index `p`.
pub open spec fn newlines_before(s: Seq<char>, p: int) -> nat
    decreases p,
{
    if p <= 0 || p > s.len() {
        0
    } else {
        newlines_before(s, p - 1) + if s[p - 1] == '\n' {
            1nat
        } else {
            0nat
        }
    }
}

/// The index where the line holding index `p` starts.
pub open spec fn line_start(s: Seq<char>, p: int) -> int
    decreases p,
{
    if p <= 0 || p > s.len() {
        0
    } else if s[p - 1] == '\n' {
        p
    } else {
        line_start(s, p - 1)
    }
}

/// A command placed in its file.
pub struct EvalCommandView {
    pub command: Seq<char>,
    pub display: Seq<char>,
    pub line: nat,
    pub column: nat,
    pub byte_span: (nat, nat),
}

/// A parsed command placed in the file: the 1-based line and column where it starts, and its
/// byte range.
pub open spec fn place(s: Seq<char>, c: EvalSpan) -> EvalCommandView {
    EvalCommandView {
        command: c.command,
        display: c.display,
        line: newlines_before(s, c.start) + 1,
        column: (c.start - line_start(s, c.start) + 1) as nat,
        byte_span: (byte_offset(s, c.start), byte_offset(s, c.end)),
    }
}

/// The eval commands of a file's contents, placed in the file.
pub open spec fn eval_commands_of(s: Seq<char>) -> Option<Seq<EvalCommandView>> {
    match eval_spans_from(s, 0) {
        Some(cs) => Some(cs.map_values(|c: EvalSpan| place(s, c))),
        None => None,
    }
}

/// A (Haskell) command for `ghciwatch` to evaluate in `ghci`.
#[derive(Debug, Clone, PartialEq, Eq)]
pub struct EvalCommand {
    /// The Haskell code or `ghci` command to evaluate.
    pub command: GhciCommand,
    /// The `command` in a user-friendly format. In particular, multiline commands aren't wrapped
    /// with `:{` and `:}`.
    display_command: String,
    /// The line number this command is from.
    line: usize,
    /// The column number this command is from.
    column: usize,
    /// The byte offset where the span this command is from starts.
    byte_start: usize,
    /// The byte offset where the span this command is from ends.
    byte_end: usize,
}

impl View for EvalCommand {
    type V = EvalCommandView;

    closed spec fn view(&self) -> EvalCommandView {
        EvalCommandView {
            command: self.command@,
            display: self.display_command@,
            line: self.line as nat,
            column: self.column as nat,
            byte_span: (self.byte_start as nat, self.byte_end as nat),
        }
    }
}

impl EvalCommand {
    /// A command with the given display form, position and byte range.
    pub fn new(
        command: GhciCommand,
        display_command: String,
        line: usize,
        column: usize,
        byte_start: usize,
        byte_end: usize,
    ) -> (r: Self)
        ensures
            r@ == (EvalCommandView {
                command: command@,
                display: display_command@,
                line: line as nat,
                column: column as nat,
                byte_span: (byte_start as nat, byte_end as nat),
            }),
    {
        EvalCommand { command, display_command, line, column, byte_start, byte_end }
    }

    /// The command in a user-friendly format.
    pub fn display_command(&self) -> (r: &String)
        ensures
            r@ == self@.display,
    {
        &self.display_command
    }

    /// The line number this command is from.
    pub fn line(&self) -> (r: usize)
        ensures
            r == self@.line,
    {
        self.line
    }

    /// The column number this command is from.
    pub fn column(&self) -> (r: usize)
        ensures
            r == self@.column,
    {
        self.column
    }

    /// The byte offsets of the span this command is from.
    pub fn byte_span(&self) -> (r: (usize, usize))
        ensures
            r.0 == self@.byte_span.0 && r.1 == self@.byte_span.1,
    {
        (self.byte_start, self.byte_end)
    }

    /// `line:column: command`, as the command is shown to users.
    pub fn to_string(&self) -> (r: String)
        ensures
            r@ == decimal_seq(self@.line) + seq![':'] + decimal_seq(self@.column) + ": "@
                + self@.display,
    {
        let mut r = String::new();
        push_decimal(&mut r, self.line);
        push_char(&mut r, ':');
        push_decimal(&mut r, self.column);
        push_str(&mut r, ": ");
        push_str(&mut r, self.display_command.as_str());
        r
    }
}

} // verus!

verus! {

fn scan_line_eval(s: &Vec<char>, i: usize) -> (r: Option<(usize, usize, usize)>)
    requires
        i <= s.len(),
    ensures
        match r {
            Some((n, b, j)) => line_eval_at(s@, i as int) matches Some((m, c)) && m == n && c.start
                == b && c.end == n && c.command == s@.subrange(b as int, j as int) && c.command
                == c.display && i < n <= s.len() && b <= j <= n,
            None => line_eval_at(s@, i as int) is None,
        },
{
    proof {
        lemma_spaces_end(s@, i as int);
    }
    let a = skip_spaces(s, i);
    let b = match scan_lit(s, a, "-- $> ") {
        Some(b) => b,
        None => return None,
    };
    match scan_until_newline(s, b) {
        Some((j, n)) => Some((n, b, j)),
        None => None,
    }
}

fn scan_eval_end(s: &Vec<char>, k: usize) -> (r: Option<usize>)
    requires
        k <= s.len(),
    ensures
        r is Some == eval_end_at(s@, k as int),
        r matches Some(e) ==> e == spaces_end(s@, k as int) + "<$ -}"@.len() && e <= s.len(),
{
    proof {
        lemma_spaces_end(s@, k as int);
    }
    let a = skip_spaces(s, k);
    scan_lit(s, a, "<$ -}")
}

fn scan_eval_body_end(s: &Vec<char>, k: usize) -> (r: Option<usize>)
    requires
        k <= s.len(),
    ensures
        match r {
            Some(e) => eval_body_end(s@, k as int) == Some(e as int) && k <= e <= s.len(),
            None => eval_body_end(s@, k as int) is None,
        },
{
    let mut j = k;
    loop
        invariant
            k <= j <= s.len(),
            eval_body_end(s@, j as int) == eval_body_end(s@, k as int),
        decreases s.len() - j,
    {
        if scan_eval_end(s, j).is_some() {
            return Some(j);
        }
        match scan_until_newline(s, j) {
            Some((_, n)) => {
                j = n;
            },
            None => return None,
        }
    }
}

proof fn lemma_eval_body_end(s: Seq<char>, k: int)
    requires
        0 <= k <= s.len(),
    ensures
        eval_body_end(s, k) matches Some(e) ==> k <= e <= s.len() && eval_end_at(s, e),
    decreases s.len() - k,
{
    if !eval_end_at(s, k) {
        if let Some((_, n)) = until_newline_at(s, k) {
            if k < n <= s.len() {
                lemma_eval_body_end(s, n);
            }
        }
    }
}

fn scan_multiline_eval(s: &Vec<char>, i: usize) -> (r: Option<(usize, usize, usize)>)
    requires
        i <= s.len(),
    ensures
        match r {
            Some((n, d, k)) => multiline_eval_at(s@, i as int) matches Some((m, c)) && m == n
                && c.start == d && c.end == k && c.command == ":{\n"@ + s@.subrange(d as int, k as int)
                + ":}"@ && c.display == trim(s@.subrange(d as int, k as int)) && i < n <= s.len()
                && d <= k <= n,
            None => multiline_eval_at(s@, i as int) is None,
        },
{
    proof {
        lemma_spaces_end(s@, i as int);
    }
    let a = skip_spaces(s, i);
    let b = match scan_lit(s, a, "{- $>") {
        Some(b) => b,
        None => return None,
    };
    proof {
        lemma_spaces_end(s@, b as int);
    }
    let c = skip_spaces(s, b);
    let d = match scan_line_ending(s, c) {
        Some(e) => e,
        None => c,
    };
    proof {
        if line_ending_at(s@, c as int) is Some {
            assert(d <= s.len());
        }
    }
    let k = match scan_eval_body_end(s, d) {
        Some(k) => k,
        None => return None,
    };
    proof {
        lemma_eval_body_end(s@, d as int);
        lemma_spaces_end(s@, k as int);
    }
    let e = match scan_eval_end(s, k) {
        Some(e) => e,
        None => return None,
    };
    proof {
        lemma_spaces_end(s@, e as int);
    }
    let f = skip_spaces(s, e);
    match scan_line_ending(s, f) {
        Some(n) => {
            assert(n <= s.len()) by {
                if s@[f as int] == '\n' {
                } else {
                    assert(f + 2 <= s.len());
                }
            }
            Some((n, d, k))
        },
        None => None,
    }
}

/// A parsed command's kind and character range, as the parser finds it.
struct FoundCommand {
    multiline: bool,
    start: usize,
    text_end: usize,
    end: usize,
}

/// The parsed command a found range stands for.
spec fn found_span(s: Seq<char>, f: FoundCommand) -> EvalSpan {
    if f.multiline {
        EvalSpan {
            command: ":{\n"@ + s.subrange(f.start as int, f.end as int) + ":}"@,
            display: trim(s.subrange(f.start as int, f.end as int)),
            start: f.start as int,
            end: f.end as int,
        }
    } else {
        EvalSpan {
            command: s.subrange(f.start as int, f.text_end as int),
            display: s.subrange(f.start as int, f.text_end as int),
            start: f.start as int,
            end: f.end as int,
        }
    }
}

spec fn found_spans(s: Seq<char>, v: Seq<FoundCommand>) -> Seq<EvalSpan> {
    v.map_values(|f: FoundCommand| found_span(s, f))
}

spec fn found_ok(s: Seq<char>, f: FoundCommand) -> bool {
    if f.multiline {
        f.start <= f.end <= s.len()
    } else {
        f.start <= f.text_end <= f.end <= s.len()
    }
}

/// The command of a found span: the text, wrapped in `:{` and `:}` lines when it spans lines.
fn found_command(s: &Vec<char>, f: &FoundCommand) -> (r: (GhciCommand, String))
    requires
        found_ok(s@, *f),
    ensures
        r.0@ == found_span(s@, *f).command,
        r.1@ == found_span(s@, *f).display,
{
    if f.multiline {
        let mut command = String::new();
        push_str(&mut command, ":{\n");
        let body = string_of_range(s, f.start, f.end);
        push_str(&mut command, body.as_str());
        push_str(&mut command, ":}");
        let (lo, hi) = trim_range(s, f.start, f.end);
        (GhciCommand::new(command), string_of_range(s, lo, hi))
    } else {
        let text = string_of_range(s, f.start, f.text_end);
        let display = text.clone();
        (GhciCommand::new(text), display)
    }
}

} // verus!

verus! {

fn scan_eval_spans(s: &Vec<char>) -> (r: Option<Vec<FoundCommand>>)
    ensures
        match eval_spans_from(s@, 0) {
            Some(cs) => r matches Some(v) && found_spans(s@, v@) == cs && forall|k: int|
                0 <= k < v.len() ==> found_ok(s@, #[trigger] v@[k]),
            None => r is None,
        },
{
    let mut found: Vec<FoundCommand> = Vec::new();
    let mut i: usize = 0;
    loop
        invariant
            i <= s.len(),
            eval_spans_from(s@, 0) == match eval_spans_from(s@, i as int) {
                Some(rest) => Some(found_spans(s@, found@) + rest),
                None => None::<Seq<EvalSpan>>,
            },
            forall|k: int| 0 <= k < found.len() ==> found_ok(s@, #[trigger] found@[k]),
        decreases s.len() - i,
    {
        let ghost before = found_spans(s@, found@);
        let n;
        if let Some((m, b, j)) = scan_line_eval(s, i) {
            found.push(FoundCommand { multiline: false, start: b, text_end: j, end: m });
            n = m;
        } else if let Some((m, d, k)) = scan_multiline_eval(s, i) {
            found.push(FoundCommand { multiline: true, start: d, text_end: k, end: k });
            n = m;
        } else if let Some((_, m)) = scan_until_newline(s, i) {
            n = m;
        } else {
            if i == s.len() {
                assert(found_spans(s@, found@) + Seq::<EvalSpan>::empty() =~= found_spans(s@, found@));
                return Some(found);
            } else {
                return None;
            }
        }
        proof {
            match eval_item_at(s@, i as int) {
                Some((m, c)) => {
                    match c {
                        Some(c) => {
                            assert(found_spans(s@, found@) =~= before.push(c));
                            match eval_spans_from(s@, m) {
                                Some(rest) => {
                                    assert(before + (seq![c] + rest) =~= before.push(c) + rest);
                                },
                                None => {},
                            }
                        },
                        None => {
                            assert(found@ =~= found@);
                        },
                    }
                },
                None => {},
            }
        }
        i = n;
    }
}

proof fn lemma_position_bounds(s: Seq<char>, p: int, q: int)
    requires
        0 <= p <= q <= s.len(),
    ensures
        newlines_before(s, p) <= p,
        0 <= line_start(s, p) <= p,
        byte_offset(s, p) <= byte_offset(s, q),
        p <= byte_offset(s, p),
    decreases q,
{
    if q > p {
        lemma_position_bounds(s, p, q - 1);
    } else if p > 0 {
        lemma_position_bounds(s, p - 1, p - 1);
    }
}

/// The line, column and byte offset of index `p`.
fn position_info(s: &Vec<char>, p: usize) -> (r: (usize, usize, usize))
    requires
        p <= s.len(),
        byte_offset(s@, s.len() as int) < usize::MAX,
    ensures
        r.0 == newlines_before(s@, p as int) + 1,
        r.1 == p - line_start(s@, p as int) + 1,
        r.2 == byte_offset(s@, p as int),
{
    let mut line: usize = 1;
    let mut start: usize = 0;
    let mut bytes: usize = 0;
    let mut k: usize = 0;
    while k < p
        invariant
            k <= p <= s.len(),
            byte_offset(s@, s.len() as int) < usize::MAX,
            line == newlines_before(s@, k as int) + 1,
            start == line_start(s@, k as int),
            bytes == byte_offset(s@, k as int),
        decreases p - k,
    {
        proof {
            lemma_position_bounds(s@, k as int + 1, s.len() as int);
            lemma_position_bounds(s@, k as int, k as int);
            lemma_position_bounds(s@, p as int, s.len() as int);
        }
        let c = s[k];
        if c == '\n' {
            line = line + 1;
            start = k + 1;
        }
        let w: usize = if (c as u32) < 0x80 {
            1
        } else if (c as u32) < 0x800 {
            2
        } else if (c as u32) < 0x10000 {
            3
        } else {
            4
        };
        bytes = bytes + w;
        k += 1;
    }
    proof {
        lemma_position_bounds(s@, p as int, s.len() as int);
    }
    (line, p - start + 1, bytes)
}

/// Parse Haskell source file contents into the eval commands to run on reloads, each with the
/// line and column it starts at and its byte range; see [`eval_commands_of`].
pub fn parse_eval_commands(contents: &str) -> (r: Result<Vec<EvalCommand>, SyntaxError>)
    requires
        byte_offset(contents@, contents@.len() as int) < usize::MAX,
    ensures
        match eval_commands_of(contents@) {
            Some(cs) => r is Ok && r->Ok_0@.map_values(|c: EvalCommand| c@) == cs,
            None => r is Err,
        },
{
    let s = chars_of(contents);
    let found = match scan_eval_spans(&s) {
        Some(f) => f,
        None => return Err(SyntaxError),
    };
    let ghost spans = found_spans(s@, found@);
    let mut out: Vec<EvalCommand> = Vec::new();
    let mut k: usize = 0;
    while k < found.len()
        invariant
            0 <= k <= found.len(),
            s@ == contents@,
            spans == found_spans(s@, found@),
            forall|j: int| 0 <= j < found.len() ==> found_ok(s@, #[trigger] found@[j]),
            byte_offset(s@, s.len() as int) < usize::MAX,
            out@.map_values(|c: EvalCommand| c@) == spans.take(k as int).map_values(
                |c: EvalSpan| place(s@, c),
            ),
        decreases found.len() - k,
    {
        let f = &found[k];
        assert(found_ok(s@, found@[k as int]));
        let (command, display) = found_command(&s, f);
        let (line, column, b0) = position_info(&s, f.start);
        let (_, _, b1) = position_info(&s, f.end);
        let c = EvalCommand::new(command, display, line, column, b0, b1);
        let ghost before = out@.map_values(|c: EvalCommand| c@);
        out.push(c);
        assert(spans[k as int] == found_span(s@, found@[k as int]));
        assert(out@.map_values(|c: EvalCommand| c@) =~= before.push(place(s@, spans[k as int])));
        assert(spans.take(k + 1).map_values(|c: EvalSpan| place(s@, c)) =~= spans.take(
            k as int,
        ).map_values(|c: EvalSpan| place(s@, c)).push(place(s@, spans[k as int])));
        k += 1;
    }
    assert(spans.take(found.len() as int) =~= spans);
    Ok(out)
}

} // verus!

verus! {

/// An eval command with the byte range it came from.
#[derive(Debug, Clone, PartialEq, Eq)]
pub struct ByteSpanCommand {
    /// The command to evaluate.
    pub command: GhciCommand,
    /// The command in a user-friendly format.
    pub display_command: String,
    /// The byte offset where the command's span starts.
    pub span_start: usize,
    /// The byte offset where the command's span ends.
    pub span_end: usize,
}

/// Does the command agree with a parsed command of `s`?
pub open spec fn byte_span_agrees(s: Seq<char>, r: ByteSpanCommand, c: EvalSpan) -> bool {
    &&& r.command@ == c.command
    &&& r.display_command@ == c.display
    &&& r.span_start == byte_offset(s, c.start)
    &&& r.span_end == byte_offset(s, c.end)
}

fn byte_span_command(s: &Vec<char>, f: &FoundCommand) -> (r: ByteSpanCommand)
    requires
        found_ok(s@, *f),
        byte_offset(s@, s.len() as int) < usize::MAX,
    ensures
        byte_span_agrees(s@, r, found_span(s@, *f)),
{
    let (command, display_command) = found_command(s, f);
    let (_, _, span_start) = position_info(s, f.start);
    let (_, _, span_end) = position_info(s, f.end);
    ByteSpanCommand { command, display_command, span_start, span_end }
}

/// Parse a complete input as a one-line eval command; see [`line_eval_at`].
pub fn line_eval_command(input: &str) -> (r: Result<ByteSpanCommand, SyntaxError>)
    requires
        byte_offset(input@, input@.len() as int) < usize::MAX,
    ensures
        match line_eval_at(input@, 0) {
            Some((n, c)) if n == input@.len() => r is Ok && byte_span_agrees(input@, r->Ok_0, c),
            _ => r is Err,
        },
{
    let s = chars_of(input);
    match scan_line_eval(&s, 0) {
        Some((n, b, j)) => if n == s.len() {
            Ok(byte_span_command(&s, &FoundCommand { multiline: false, start: b, text_end: j, end: n }))
        } else {
            Err(SyntaxError)
        },
        None => Err(SyntaxError),
    }
}

/// Parse a complete input as a multi-line eval command; see [`multiline_eval_at`].
pub fn multiline_eval_command(input: &str) -> (r: Result<ByteSpanCommand, SyntaxError>)
    requires
        byte_offset(input@, input@.len() as int) < usize::MAX,
    ensures
        match multiline_eval_at(input@, 0) {
            Some((n, c)) if n == input@.len() => r is Ok && byte_span_agrees(input@, r->Ok_0, c),
            _ => r is Err,
        },
{
    let s = chars_of(input);
    match scan_multiline_eval(&s, 0) {
        Some((n, d, k)) => if n == s.len() {
            Ok(byte_span_command(&s, &FoundCommand { multiline: true, start: d, text_end: k, end: k }))
        } else {
            Err(SyntaxError)
        },
        None => Err(SyntaxError),
    }
}

} // verus!

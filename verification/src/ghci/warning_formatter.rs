//! Warning message formatting with GHC-style coloring.
//!
//! Multi-line messages are colored line by line, following GHC's output patterns.
use vstd::prelude::*;

use owo_colors::OwoColorize;

use super::parse::ghc_message::severity::Severity;
use super::parse::scan::{
    char_is_whitespace, find_from, is_whitespace, lemma_find_from, scan_find, starts_with_at,
    trim, trim_range, trim_start,
};
use crate::text::{chars_of, chars_of_range, push_str, string_of_range};

verus! {

/// `text` in magenta, as `owo_colors` writes it.
pub open spec fn magenta_text(text: Seq<char>) -> Seq<char> {
    "\x1b[35m"@ + text + "\x1b[39m"@
}

/// `text` in red, as `owo_colors` writes it.
pub open spec fn red_text(text: Seq<char>) -> Seq<char> {
    "\x1b[31m"@ + text + "\x1b[39m"@
}

/// `owo_colors`' `magenta`, displayed: the text between the escape that turns the foreground
/// magenta (`ESC[35m`) and the one that resets it (`ESC[39m`).
#[verifier::external_body]
fn magenta(text: &str) -> (r: String)
    ensures
        r@ == magenta_text(text@),
{
    format!("{}", text.magenta())
}

/// `owo_colors`' `red`, displayed: the text between the escape that turns the foreground red
/// (`ESC[31m`) and the one that resets it (`ESC[39m`).
#[verifier::external_body]
fn red(text: &str) -> (r: String)
    ensures
        r@ == red_text(text@),
{
    format!("{}", text.red())
}

/// `supports_color::on_cached` for standard output, as `owo_colors` consults it: whether the
/// terminal supports at least basic colors. The answer depends on the environment and the
/// terminal, so nothing is claimed of it.
#[verifier::external_body]
fn stdout_supports_color() -> (r: bool) {
    supports_color::on_cached(supports_color::Stream::Stdout).map(|level| level.has_basic).unwrap_or(false)
}

/// `text` in magenta when colors are on.
pub open spec fn paint_magenta(colors: bool, text: Seq<char>) -> Seq<char> {
    if colors {
        magenta_text(text)
    } else {
        text
    }
}

/// `text` in the color of the severity (magenta for warnings, red for errors) when colors are on.
pub open spec fn paint_severity(colors: bool, severity: Severity, text: Seq<char>) -> Seq<char> {
    if !colors {
        text
    } else {
        match severity {
            Severity::Warning => magenta_text(text),
            Severity::Error => red_text(text),
        }
    }
}

/// Is the text a non-empty run of ASCII digits?
pub open spec fn all_ascii_digits(t: Seq<char>) -> bool {
    &&& t.len() > 0
    &&& forall|k: int| 0 <= k < t.len() ==> '0' <= #[trigger] t[k] <= '9'
}

/// `s[i..]` with every occurrence of `from` (which is not empty) replaced by `to`, left to right.
pub open spec fn replace_all(s: Seq<char>, i: int, from: Seq<char>, to: Seq<char>) -> Seq<char>
    decreases s.len() - i,
{
    if i < 0 || i > s.len() || from.len() == 0 {
        Seq::empty()
    } else {
        match find_from(s, i, from) {
            Some(q) => if i <= q && q + from.len() <= s.len() {
                s.subrange(i, q) + to + replace_all(s, q + from.len(), from, to)
            } else {
                Seq::empty()
            },
            None => s.subrange(i, s.len() as int),
        }
    }
}

/// A line of a diagnostic, colored as GHC colors it:
/// - a source line with a line number (one or more digits, around which there may be
///   whitespace) before ` | ` (like `  28 | import Data.Coerce`) is magenta, in two parts split
///   at the pipe;
/// - a caret line (after leading whitespace a `|`, and a `^` somewhere) is magenta;
/// - otherwise the first warning flag (from `[-W` to the next `]`) is put in the severity's
///   color wherever it occurs in the line.
pub open spec fn colorized_line(line: Seq<char>, severity: Severity, colors: bool) -> Seq<char> {
    let pipe = find_from(line, 0, " | "@);
    if pipe is Some && all_ascii_digits(trim(line.subrange(0, pipe->0))) {
        paint_magenta(colors, line.subrange(0, pipe->0)) + paint_magenta(
            colors,
            line.subrange(pipe->0, line.len() as int),
        )
    } else if trim_start(line).len() > 0 && trim_start(line)[0] == '|' && find_from(line, 0, "^"@) is Some {
        paint_magenta(colors, line)
    } else {
        match find_from(line, 0, "[-W"@) {
            Some(st) => match find_from(line, st, "]"@) {
                Some(e) => {
                    let flag = line.subrange(st, e + 1);
                    replace_all(line, 0, flag, paint_severity(colors, severity, flag))
                },
                None => line,
            },
            None => line,
        }
    }
}

/// The lines of `s`, as `str::lines` gives them: split at `\n`, each without a trailing `\r`,
/// with no empty line after a final `\n`.
pub open spec fn str_lines(s: Seq<char>, i: int) -> Seq<Seq<char>>
    decreases s.len() - i,
{
    if i < 0 || i >= s.len() {
        Seq::empty()
    } else {
        let line_end = match find_from(s, i, seq!['\n']) {
            Some(q) => q,
            None => s.len() as int,
        };
        let raw = s.subrange(i, line_end);
        let line = if raw.len() > 0 && raw.last() == '\r' {
            raw.drop_last()
        } else {
            raw
        };
        if i <= line_end < s.len() {
            seq![line] + str_lines(s, line_end + 1)
        } else {
            seq![line]
        }
    }
}

/// The lines joined with `\n` between them.
pub open spec fn join_lines(lines: Seq<Seq<char>>) -> Seq<char>
    decreases lines.len(),
{
    if lines.len() == 0 {
        Seq::empty()
    } else if lines.len() == 1 {
        lines[0]
    } else {
        join_lines(lines.drop_last()) + seq!['\n'] + lines.last()
    }
}

/// A diagnostic message colored line by line; see [`colorized_line`].
pub open spec fn colorized_message(message: Seq<char>, severity: Severity, colors: bool) -> Seq<char> {
    join_lines(str_lines(message, 0).map_values(|l: Seq<char>| colorized_line(l, severity, colors)))
}

} // verus!

verus! {

fn paint_magenta_str(colors: bool, text: &str) -> (r: String)
    ensures
        r@ == paint_magenta(colors, text@),
{
    if colors {
        magenta(text)
    } else {
        text.to_owned()
    }
}

fn paint_severity_str(colors: bool, severity: Severity, text: &str) -> (r: String)
    ensures
        r@ == paint_severity(colors, severity, text@),
{
    if !colors {
        text.to_owned()
    } else {
        match severity {
            Severity::Warning => magenta(text),
            Severity::Error => red(text),
        }
    }
}

fn all_digits_in(s: &Vec<char>, lo: usize, hi: usize) -> (r: bool)
    requires
        lo <= hi <= s.len(),
    ensures
        r == all_ascii_digits(s@.subrange(lo as int, hi as int)),
{
    if lo == hi {
        return false;
    }
    let mut k = lo;
    while k < hi
        invariant
            lo < hi,
            lo <= k <= hi <= s.len(),
            forall|j: int| lo <= j < k ==> '0' <= #[trigger] s@[j] <= '9',
        decreases hi - k,
    {
        if !('0' <= s[k] && s[k] <= '9') {
            assert(s@.subrange(lo as int, hi as int)[k - lo] == s@[k as int]);
            return false;
        }
        k += 1;
    }
    assert forall|j: int| 0 <= j < hi - lo implies '0' <= #[trigger] s@.subrange(
        lo as int,
        hi as int,
    )[j] <= '9' by {
        assert(s@.subrange(lo as int, hi as int)[j] == s@[lo + j]);
    }
    true
}

fn leading_whitespace_end(s: &Vec<char>) -> (r: usize)
    ensures
        r <= s.len(),
        s@.subrange(r as int, s.len() as int) == trim_start(s@),
{
    let mut a: usize = 0;
    assert(s@.subrange(0, s.len() as int) =~= s@);
    while a < s.len() && char_is_whitespace(s[a])
        invariant
            a <= s.len(),
            trim_start(s@) == trim_start(s@.subrange(a as int, s.len() as int)),
        decreases s.len() - a,
    {
        assert(s@.subrange(a as int, s.len() as int).drop_first() =~= s@.subrange(a + 1, s.len() as int));
        a += 1;
    }
    a
}

fn replace_all_chars(s: &Vec<char>, from: &Vec<char>, to: &String) -> (r: String)
    requires
        from.len() > 0,
    ensures
        r@ == replace_all(s@, 0, from@, to@),
{
    let mut out = String::new();
    let mut i: usize = 0;
    loop
        invariant
            i <= s.len(),
            from.len() > 0,
            replace_all(s@, 0, from@, to@) == out@ + replace_all(s@, i as int, from@, to@),
        decreases s.len() - i,
    {
        match scan_find(s, i, from) {
            Some(q) => {
                proof {
                    lemma_find_from(s@, i as int, from@);
                }
                let ghost before = out@;
                let piece = string_of_range(s, i, q);
                push_str(&mut out, piece.as_str());
                push_str(&mut out, to.as_str());
                assert(out@ =~= before + s@.subrange(i as int, q as int) + to@);
                assert(before + replace_all(s@, i as int, from@, to@) =~= out@ + replace_all(
                    s@,
                    q + from@.len(),
                    from@,
                    to@,
                ));
                i = q + from.len();
            },
            None => {
                let piece = string_of_range(s, i, s.len());
                let ghost before = out@;
                push_str(&mut out, piece.as_str());
                assert(out@ =~= before + replace_all(s@, i as int, from@, to@));
                assert(replace_all(s@, 0, from@, to@) =~= out@);
                return out;
            },
        }
    }
}

/// Color a line of a diagnostic; see [`colorized_line`].
pub fn colorize_line_with(line: &str, severity: Severity, colors: bool) -> (r: String)
    ensures
        r@ == colorized_line(line@, severity, colors),
{
    let s = chars_of(line);
    proof {
        reveal_strlit(" | ");
        reveal_strlit("^");
        reveal_strlit("[-W");
        reveal_strlit("]");
    }
    let pipe = chars_of(" | ");
    match scan_find(&s, 0, &pipe) {
        Some(p) => {
            proof {
                lemma_find_from(s@, 0, pipe@);
            }
            let (a, b) = trim_range(&s, 0, p);
            if all_digits_in(&s, a, b) {
                let before = string_of_range(&s, 0, p);
                let after = string_of_range(&s, p, s.len());
                let mut r = paint_magenta_str(colors, before.as_str());
                let tail = paint_magenta_str(colors, after.as_str());
                push_str(&mut r, tail.as_str());
                return r;
            }
        },
        None => {},
    }
    let a = leading_whitespace_end(&s);
    let caret = chars_of("^");
    if a < s.len() && s[a] == '|' && scan_find(&s, 0, &caret).is_some() {
        assert(trim_start(s@)[0] == s@[a as int]);
        return paint_magenta_str(colors, line);
    }
    proof {
        if a < s.len() {
            assert(trim_start(s@)[0] == s@[a as int]);
        } else {
            assert(trim_start(s@).len() == 0);
        }
    }
    let open = chars_of("[-W");
    let close = chars_of("]");
    match scan_find(&s, 0, &open) {
        Some(st) => {
            match scan_find(&s, st, &close) {
                Some(e) => {
                    proof {
                        lemma_find_from(s@, st as int, close@);
                    }
                    let flag_chars = chars_of_range(&s, st, e + 1);
                    let flag = string_of_range(&s, st, e + 1);
                    let painted = paint_severity_str(colors, severity, flag.as_str());
                    replace_all_chars(&s, &flag_chars, &painted)
                },
                None => line.to_owned(),
            }
        },
        None => line.to_owned(),
    }
}

/// The lines of `s`, as `str::lines` gives them; see [`str_lines`].
pub fn split_str_lines(s: &Vec<char>) -> (r: Vec<String>)
    ensures
        crate::text::views(r@) == str_lines(s@, 0),
{
    let nl = vec!['\n'];
    let mut out: Vec<String> = Vec::new();
    let mut i: usize = 0;
    loop
        invariant
            i <= s.len(),
            nl@ == seq!['\n'],
            str_lines(s@, 0) == crate::text::views(out@) + str_lines(s@, i as int),
        decreases s.len() - i,
    {
        if i >= s.len() {
            assert(str_lines(s@, i as int) =~= Seq::<Seq<char>>::empty());
            assert(crate::text::views(out@) + Seq::<Seq<char>>::empty() =~= crate::text::views(out@));
            return out;
        }
        proof {
            lemma_find_from(s@, i as int, nl@);
        }
        let line_end = match scan_find(s, i, &nl) {
            Some(q) => q,
            None => s.len(),
        };
        let end = if line_end > i && s[line_end - 1] == '\r' {
            line_end - 1
        } else {
            line_end
        };
        let line = string_of_range(s, i, end);
        let ghost raw = s@.subrange(i as int, line_end as int);
        assert(line@ == (if raw.len() > 0 && raw.last() == '\r' {
            raw.drop_last()
        } else {
            raw
        })) by {
            if line_end > i && s@[line_end - 1] == '\r' {
                assert(raw.drop_last() =~= s@.subrange(i as int, end as int));
            } else {
                assert(raw =~= s@.subrange(i as int, end as int));
            }
        }
        let ghost before = crate::text::views(out@);
        out.push(line);
        assert(crate::text::views(out@) =~= before.push(line@));
        if line_end < s.len() {
            assert(str_lines(s@, i as int) =~= seq![line@] + str_lines(s@, line_end + 1));
            assert(before + str_lines(s@, i as int) =~= crate::text::views(out@) + str_lines(
                s@,
                line_end + 1,
            ));
            i = line_end + 1;
        } else {
            assert(str_lines(s@, i as int) =~= seq![line@]);
            assert(str_lines(s@, s.len() as int) =~= Seq::<Seq<char>>::empty());
            assert(before + str_lines(s@, i as int) =~= crate::text::views(out@) + str_lines(
                s@,
                s.len() as int,
            ));
            i = s.len();
        }
    }
}

/// Color a diagnostic message line by line; see [`colorized_message`].
pub fn colorize_message_with(message: &str, severity: Severity, colors: bool) -> (r: String)
    ensures
        r@ == colorized_message(message@, severity, colors),
{
    let s = chars_of(message);
    let lines = split_str_lines(&s);
    let ghost ls = crate::text::views(lines@);
    let ghost colored = ls.map_values(|l: Seq<char>| colorized_line(l, severity, colors));
    let mut r = String::new();
    let mut k: usize = 0;
    while k < lines.len()
        invariant
            0 <= k <= lines.len(),
            ls == crate::text::views(lines@),
            colored == ls.map_values(|l: Seq<char>| colorized_line(l, severity, colors)),
            r@ == join_lines(colored.take(k as int)),
        decreases lines.len() - k,
    {
        let c = colorize_line_with(lines[k].as_str(), severity, colors);
        assert(colored[k as int] == c@);
        assert(colored.take(k + 1).drop_last() =~= colored.take(k as int));
        if k > 0 {
            push_str(&mut r, "\n");
        }
        push_str(&mut r, c.as_str());
        proof {
            reveal_strlit("\n");
            if k == 0 {
                assert(r@ =~= join_lines(colored.take(1)));
            } else {
                assert(r@ =~= join_lines(colored.take(k + 1)));
            }
        }
        k += 1;
    }
    assert(colored.take(lines.len() as int) =~= colored);
    r
}

/// Apply GHC-style coloring to a complete diagnostic message, when standard output supports
/// colors; see [`colorized_message`].
pub fn colorize_message(message: &str, severity: Severity) -> (r: String)
    ensures
        r@ == colorized_message(message@, severity, true) || r@ == colorized_message(
            message@,
            severity,
            false,
        ),
{
    let colors = stdout_supports_color();
    colorize_message_with(message, severity, colors)
}

/// Apply colors to a single line of a diagnostic message, when standard output supports colors;
/// see [`colorized_line`].
pub fn colorize_line(line: &str, severity: Severity) -> (r: String)
    ensures
        r@ == colorized_line(line@, severity, true) || r@ == colorized_line(line@, severity, false),
{
    let colors = stdout_supports_color();
    colorize_line_with(line, severity, colors)
}

} // verus!

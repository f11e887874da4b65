//! Lines of text: the rest of a line, with or without its line ending.
use vstd::prelude::*;

use super::scan::{starts_with_at, SyntaxError};
use crate::text::{chars_of, string_of_range, views};

verus! {

/// `\n` or `\r`: the characters that end the text of a line.
pub open spec fn is_line_break(c: char) -> bool {
    c == '\n' || c == '\r'
}

/// The first index at or after `i` holding a line-break character, or the length of `s`.
pub open spec fn line_break_at(s: Seq<char>, i: int) -> int
    decreases s.len() - i,
{
    if i < 0 || i >= s.len() || is_line_break(s[i]) {
        i
    } else {
        line_break_at(s, i + 1)
    }
}

pub proof fn lemma_line_break_at(s: Seq<char>, i: int)
    requires
        0 <= i <= s.len(),
    ensures
        i <= line_break_at(s, i) <= s.len(),
        forall|k: int| i <= k < line_break_at(s, i) ==> !is_line_break(s[k]),
        line_break_at(s, i) < s.len() ==> is_line_break(s[line_break_at(s, i)]),
    decreases s.len() - i,
{
    if i < s.len() && !is_line_break(s[i]) {
        lemma_line_break_at(s, i + 1);
    }
}

/// A line ending, `\n` or `\r\n`, at `i`; `Some` of the index after it.
pub open spec fn line_ending_at(s: Seq<char>, i: int) -> Option<int> {
    if 0 <= i < s.len() && s[i] == '\n' {
        Some(i + 1)
    } else if starts_with_at(s, i, seq!['\r', '\n']) {
        Some(i + 2)
    } else {
        None
    }
}

/// A line ending, or the end of the input.
pub open spec fn line_ending_or_eof_at(s: Seq<char>, i: int) -> Option<int> {
    if line_ending_at(s, i) is Some {
        line_ending_at(s, i)
    } else if i == s.len() {
        Some(i)
    } else {
        None
    }
}

/// The rest of the line starting at `i`: `Some((text_end, next))`, where `s[i..text_end]` is the
/// text of the line and `next` is the index after its line ending (or the end of the input).
///
/// Fails at the end of the input, and on a `\r` that is not followed by `\n`.
pub open spec fn until_newline_at(s: Seq<char>, i: int) -> Option<(int, int)> {
    let j = line_break_at(s, i);
    if i < 0 || i > s.len() {
        None
    } else if j == s.len() {
        if j == i {
            None
        } else {
            Some((j, j))
        }
    } else if s[j] == '\n' {
        Some((j, j + 1))
    } else if starts_with_at(s, j, seq!['\r', '\n']) {
        Some((j, j + 2))
    } else {
        None
    }
}

pub proof fn lemma_until_newline_at(s: Seq<char>, i: int)
    requires
        0 <= i <= s.len(),
    ensures
        until_newline_at(s, i) matches Some((j, n)) ==> {
            &&& i <= j <= n <= s.len()
            &&& i < n
            &&& forall|k: int| i <= k < j ==> !is_line_break(s[k])
        },
{
    lemma_line_break_at(s, i);
}

fn find_line_break(s: &Vec<char>, i: usize) -> (j: usize)
    requires
        i <= s.len(),
    ensures
        j == line_break_at(s@, i as int),
        i <= j <= s.len(),
        j < s.len() ==> is_line_break(s@[j as int]),
{
    let mut j = i;
    while j < s.len() && s[j] != '\n' && s[j] != '\r'
        invariant
            i <= j <= s.len(),
            line_break_at(s@, j as int) == line_break_at(s@, i as int),
        decreases s.len() - j,
    {
        j += 1;
    }
    j
}

/// Parse the rest of a line at `i`; see [`until_newline_at`].
pub fn scan_until_newline(s: &Vec<char>, i: usize) -> (r: Option<(usize, usize)>)
    requires
        i <= s.len(),
    ensures
        match r {
            Some((j, n)) => until_newline_at(s@, i as int) == Some((j as int, n as int)),
            None => until_newline_at(s@, i as int) is None,
        },
        r matches Some((j, n)) ==> i <= j <= n <= s.len() && i < n,
{
    proof {
        lemma_until_newline_at(s@, i as int);
    }
    let j = find_line_break(s, i);
    if j == s.len() {
        if j == i {
            None
        } else {
            Some((j, j))
        }
    } else if s[j] == '\n' {
        Some((j, j + 1))
    } else if j + 1 < s.len() && s[j + 1] == '\n' {
        assert(s@[j as int] == '\r');
        assert(s@.subrange(j as int, j + 2) =~= seq!['\r', '\n']);
        Some((j, j + 2))
    } else {
        assert(!starts_with_at(s@, j as int, seq!['\r', '\n'])) by {
            if starts_with_at(s@, j as int, seq!['\r', '\n']) {
                assert(s@.subrange(j as int, j + 2)[1] == s@[j + 1]);
            }
        }
        None
    }
}

/// Parse a line ending at `i`; see [`line_ending_at`].
pub fn scan_line_ending(s: &Vec<char>, i: usize) -> (r: Option<usize>)
    requires
        i <= s.len(),
    ensures
        match r {
            Some(n) => line_ending_at(s@, i as int) == Some(n as int),
            None => line_ending_at(s@, i as int) is None,
        },
{
    if i < s.len() && s[i] == '\n' {
        Some(i + 1)
    } else if i < s.len() && s.len() - i >= 2 && s[i] == '\r' && s[i + 1] == '\n' {
        assert(s@.subrange(i as int, i + 2) =~= seq!['\r', '\n']);
        Some(i + 2)
    } else {
        assert(!starts_with_at(s@, i as int, seq!['\r', '\n'])) by {
            if starts_with_at(s@, i as int, seq!['\r', '\n']) {
                assert(s@.subrange(i as int, i + 2)[0] == s@[i as int]);
                assert(s@.subrange(i as int, i + 2)[1] == s@[i + 1]);
            }
        }
        None
    }
}

/// Parse a line ending or the end of the input at `i`; see [`line_ending_or_eof_at`].
pub fn scan_line_ending_or_eof(s: &Vec<char>, i: usize) -> (r: Option<usize>)
    requires
        i <= s.len(),
    ensures
        match r {
            Some(n) => line_ending_or_eof_at(s@, i as int) == Some(n as int),
            None => line_ending_or_eof_at(s@, i as int) is None,
        },
        r matches Some(n) ==> i <= n <= s.len(),
{
    match scan_line_ending(s, i) {
        Some(n) => Some(n),
        None => if i == s.len() {
            Some(i)
        } else {
            None
        },
    }
}

/// Parse the rest of a line, including its line ending, from a complete input: succeeds when
/// `input` is exactly one line.
pub fn rest_of_line(input: &str) -> (r: Result<String, SyntaxError>)
    ensures
        match until_newline_at(input@, 0) {
            Some((j, n)) if n == input@.len() => r == Ok::<String, SyntaxError>(r->Ok_0) && r->Ok_0@
                == input@,
            _ => r is Err,
        },
{
    let s = chars_of(input);
    match scan_until_newline(&s, 0) {
        Some((_j, n)) if n == s.len() => {
            let out = string_of_range(&s, 0, n);
            assert(s@.subrange(0, n as int) =~= s@);
            Ok(out)
        },
        _ => Err(SyntaxError),
    }
}

/// Parse the rest of a line without its line ending from a complete input: succeeds when
/// `input` is exactly one line, and gives its text.
pub fn until_newline(input: &str) -> (r: Result<String, SyntaxError>)
    ensures
        match until_newline_at(input@, 0) {
            Some((j, n)) if n == input@.len() => r == Ok::<String, SyntaxError>(r->Ok_0) && r->Ok_0@
                == input@.subrange(0, j),
            _ => r is Err,
        },
{
    let s = chars_of(input);
    match scan_until_newline(&s, 0) {
        Some((j, n)) if n == s.len() => Ok(string_of_range(&s, 0, j)),
        _ => Err(SyntaxError),
    }
}

/// Repeatedly parse lines from `i` as long as a line parses: the lines (with their endings when
/// `with_endings`, else without) and the index where the repetition stops.
pub open spec fn lines_from(s: Seq<char>, i: int, with_endings: bool) -> (Seq<Seq<char>>, int)
    decreases s.len() - i,
{
    match until_newline_at(s, i) {
        Some((j, n)) => if 0 <= i < n <= s.len() {
            let rest = lines_from(s, n, with_endings);
            let line = if with_endings {
                s.subrange(i, n)
            } else {
                s.subrange(i, j)
            };
            (seq![line] + rest.0, rest.1)
        } else {
            (Seq::empty(), i)
        },
        None => (Seq::empty(), i),
    }
}

/// Split a complete input into lines (each parsed as by [`until_newline_at`]), keeping the line
/// endings when `with_endings`. Fails when the lines do not cover the whole input.
pub fn split_lines(s: &Vec<char>, with_endings: bool) -> (r: Option<Vec<String>>)
    ensures
        lines_from(s@, 0, with_endings).1 == s@.len() ==> r is Some && views(r->0@) == lines_from(
            s@,
            0,
            with_endings,
        ).0,
        lines_from(s@, 0, with_endings).1 != s@.len() ==> r is None,
{
    let mut out: Vec<String> = Vec::new();
    let mut i: usize = 0;
    loop
        invariant
            i <= s.len(),
            lines_from(s@, 0, with_endings).1 == lines_from(s@, i as int, with_endings).1,
            lines_from(s@, 0, with_endings).0 == views(out@) + lines_from(
                s@,
                i as int,
                with_endings,
            ).0,
        ensures
            i <= s.len(),
            lines_from(s@, 0, with_endings).1 == i,
            lines_from(s@, 0, with_endings).0 == views(out@),
        decreases s.len() - i,
    {
        match scan_until_newline(&s, i) {
            Some((j, n)) => {
                let line = if with_endings {
                    string_of_range(&s, i, n)
                } else {
                    string_of_range(&s, i, j)
                };
                let ghost before = views(out@);
                out.push(line);
                assert(views(out@) =~= before.push(line@));
                assert(lines_from(s@, i as int, with_endings).0 =~= seq![line@] + lines_from(
                    s@,
                    n as int,
                    with_endings,
                ).0);
                assert(before + lines_from(s@, i as int, with_endings).0 =~= before.push(line@)
                    + lines_from(s@, n as int, with_endings).0);
                i = n;
            },
            None => {
                assert(lines_from(s@, i as int, with_endings).1 == i);
                assert(lines_from(s@, 0, with_endings).1 == i);
                assert(lines_from(s@, i as int, with_endings).0 =~= Seq::<Seq<char>>::empty());
                assert(views(out@) + Seq::<Seq<char>>::empty() =~= views(out@));
                break;
            },
        }
    }
    if i == s.len() {
        Some(out)
    } else {
        None
    }
}

/// `repeat(0.., rest_of_line)` over a complete input: the lines of `input`, each with its line
/// ending.
pub fn rest_of_line_repeat(input: &str) -> (r: Result<Vec<String>, SyntaxError>)
    ensures
        lines_from(input@, 0, true).1 == input@.len() ==> r is Ok && views(r->Ok_0@) == lines_from(
            input@,
            0,
            true,
        ).0,
        lines_from(input@, 0, true).1 != input@.len() ==> r is Err,
{
    let s = chars_of(input);
    match split_lines(&s, true) {
        Some(v) => Ok(v),
        None => Err(SyntaxError),
    }
}

} // verus!

//! The body of a diagnostic: the rest of its first line, then every following line that starts
//! with whitespace or digits (continuations, source excerpts and their `|` gutters).
use vstd::prelude::*;

use crate::ghci::parse::lines::{lemma_until_newline_at, scan_until_newline, until_newline_at};
use crate::ghci::parse::scan::{
    digits_end, is_digit, is_space, lemma_digits_end, lemma_spaces_end, skip_spaces, spaces_end,
};

verus! {

/// One continuation line at `i`: one or more spaces or tabs, or one or more digits, then the
/// rest of the line; `Some` of the index after its line ending.
pub open spec fn body_line_at(s: Seq<char>, i: int) -> Option<int> {
    if 0 <= i < s.len() && is_space(s[i]) {
        match until_newline_at(s, spaces_end(s, i)) {
            Some((_, n)) => Some(n),
            None => None,
        }
    } else if 0 <= i < s.len() && is_digit(s[i]) {
        match until_newline_at(s, digits_end(s, i)) {
            Some((_, n)) => Some(n),
            None => None,
        }
    } else {
        None
    }
}

/// Where the run of continuation lines starting at `i` stops.
pub open spec fn body_lines_end(s: Seq<char>, i: int) -> int
    decreases s.len() - i,
{
    match body_line_at(s, i) {
        Some(n) => if i < n <= s.len() {
            body_lines_end(s, n)
        } else {
            i
        },
        None => i,
    }
}

/// A message body at `i`: the rest of the line, then continuation lines; `Some` of its end.
pub open spec fn message_body_at(s: Seq<char>, i: int) -> Option<int> {
    match until_newline_at(s, i) {
        Some((_, n)) => Some(body_lines_end(s, n)),
        None => None,
    }
}

proof fn lemma_body_line_at(s: Seq<char>, i: int)
    requires
        0 <= i <= s.len(),
    ensures
        body_line_at(s, i) matches Some(n) ==> i < n <= s.len(),
{
    if i < s.len() && is_space(s[i]) {
        lemma_spaces_end(s, i);
        lemma_until_newline_at(s, spaces_end(s, i));
    } else if i < s.len() && is_digit(s[i]) {
        lemma_digits_end(s, i);
        lemma_until_newline_at(s, digits_end(s, i));
    }
}

fn scan_body_line(s: &Vec<char>, i: usize) -> (r: Option<usize>)
    requires
        i <= s.len(),
    ensures
        match r {
            Some(n) => body_line_at(s@, i as int) == Some(n as int) && i < n <= s.len(),
            None => body_line_at(s@, i as int) is None,
        },
{
    proof {
        lemma_body_line_at(s@, i as int);
    }
    if i < s.len() && (s[i] == ' ' || s[i] == '\t') {
        proof {
            lemma_spaces_end(s@, i as int);
        }
        let a = skip_spaces(s, i);
        match scan_until_newline(s, a) {
            Some((_, n)) => Some(n),
            None => None,
        }
    } else if i < s.len() && '0' <= s[i] && s[i] <= '9' {
        proof {
            lemma_digits_end(s@, i as int);
        }
        let mut a = i;
        while a < s.len() && '0' <= s[a] && s[a] <= '9'
            invariant
                i <= a <= s.len(),
                digits_end(s@, a as int) == digits_end(s@, i as int),
            decreases s.len() - a,
        {
            a += 1;
        }
        match scan_until_newline(s, a) {
            Some((_, n)) => Some(n),
            None => None,
        }
    } else {
        None
    }
}

/// Parse a message body at `i`; see [`message_body_at`].
pub fn scan_message_body(s: &Vec<char>, i: usize) -> (r: Option<usize>)
    requires
        i <= s.len(),
    ensures
        match r {
            Some(n) => message_body_at(s@, i as int) == Some(n as int) && i < n <= s.len(),
            None => message_body_at(s@, i as int) is None,
        },
{
    let mut n = match scan_until_newline(s, i) {
        Some((_, n)) => n,
        None => return None,
    };
    let ghost n0 = n;
    loop
        invariant
            i < n0 <= n <= s.len(),
            body_lines_end(s@, n as int) == body_lines_end(s@, n0 as int),
        ensures
            i < n <= s.len(),
            body_lines_end(s@, n0 as int) == n,
        decreases s.len() - n,
    {
        match scan_body_line(s, n) {
            Some(m) => {
                n = m;
            },
            None => {
                break;
            },
        }
    }
    Some(n)
}

} // verus!

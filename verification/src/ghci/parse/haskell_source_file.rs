//! Parse a Haskell source file name followed by an ending delimiter.
//!
//! The path ends with a dot and one of the Haskell source extensions, but may otherwise contain
//! quirks up to and including multiple extensions, whitespace, and newlines (GHCi prints paths
//! as it was given them).
use vstd::prelude::*;

use super::scan::{lit_at, starts_with_at, SyntaxError};
use crate::text::{chars_of, string_of_range};

verus! {

/// A Haskell source extension (`hs` or `lhs`) at `i`; `Some` of its length.
pub open spec fn ext_len_at(s: Seq<char>, i: int) -> Option<int> {
    if starts_with_at(s, i, seq!['h', 's']) {
        Some(2)
    } else if starts_with_at(s, i, seq!['l', 'h', 's']) {
        Some(3)
    } else {
        None
    }
}

/// The first dot at or after `i` that is followed by a Haskell source extension.
pub open spec fn next_ext_dot(s: Seq<char>, i: int) -> Option<int>
    decreases s.len() - i,
{
    if i < 0 || i >= s.len() {
        None
    } else if s[i] == '.' && ext_len_at(s, i + 1) is Some {
        Some(i)
    } else {
        next_ext_dot(s, i + 1)
    }
}

pub proof fn lemma_next_ext_dot(s: Seq<char>, i: int)
    requires
        0 <= i,
    ensures
        next_ext_dot(s, i) matches Some(d) ==> i <= d < s.len() && s[d] == '.' && ext_len_at(
            s,
            d + 1,
        ) is Some && d + 1 + ext_len_at(s, d + 1)->0 <= s.len(),
        next_ext_dot(s, i) matches Some(d) ==> forall|k: int|
            i <= k < d ==> !(s[k] == '.' && #[trigger] ext_len_at(s, k + 1) is Some),
        next_ext_dot(s, i) is None ==> forall|k: int|
            i <= k < s.len() ==> !(s[k] == '.' && #[trigger] ext_len_at(s, k + 1) is Some),
    decreases s.len() - i,
{
    if i < s.len() && !(s[i] == '.' && ext_len_at(s, i + 1) is Some) {
        lemma_next_ext_dot(s, i + 1);
    }
}

/// One path chunk at `i`: text through the first dot that is followed by a Haskell source
/// extension, and that extension; `Some` of its end.
pub open spec fn path_chunk_at(s: Seq<char>, i: int) -> Option<int> {
    match next_ext_dot(s, i) {
        Some(d) => Some(d + 1 + ext_len_at(s, d + 1)->0),
        None => None,
    }
}

/// After a chunk ending at `c`: the first chunk end (from `c` on) where `end` follows.
pub open spec fn source_file_rest(s: Seq<char>, c: int, end: Seq<char>) -> Option<int>
    decreases s.len() - c,
{
    if c < 0 || c > s.len() {
        None
    } else if starts_with_at(s, c, end) {
        Some(c)
    } else {
        match path_chunk_at(s, c) {
            Some(c2) => {
                proof {
                    lemma_next_ext_dot(s, c);
                }
                source_file_rest(s, c2, end)
            },
            None => None,
        }
    }
}

/// A Haskell source file name followed by `end`, at `i`: one or more path chunks, stopping at the
/// first chunk after which `end` follows; `Some` of the end of the path (the delimiter `end`
/// follows it).
pub open spec fn haskell_source_file_at(s: Seq<char>, i: int, end: Seq<char>) -> Option<int> {
    match path_chunk_at(s, i) {
        Some(c) => source_file_rest(s, c, end),
        None => None,
    }
}

fn scan_ext_len(s: &Vec<char>, i: usize) -> (r: Option<usize>)
    requires
        i <= s.len(),
    ensures
        match r {
            Some(n) => ext_len_at(s@, i as int) == Some(n as int),
            None => ext_len_at(s@, i as int) is None,
        },
{
    let hs = s.len() - i >= 2 && s[i] == 'h' && s[i + 1] == 's';
    proof {
        if s.len() - i >= 2 {
            let t = s@.subrange(i as int, i + 2);
            assert(t[0] == s@[i as int] && t[1] == s@[i + 1]);
            if hs {
                assert(t =~= seq!['h', 's']);
            }
        }
    }
    if hs {
        return Some(2);
    }
    let lhs = s.len() - i >= 3 && s[i] == 'l' && s[i + 1] == 'h' && s[i + 2] == 's';
    proof {
        if s.len() - i >= 3 {
            let t = s@.subrange(i as int, i + 3);
            assert(t[0] == s@[i as int] && t[1] == s@[i + 1] && t[2] == s@[i + 2]);
            if lhs {
                assert(t =~= seq!['l', 'h', 's']);
            }
        }
    }
    if lhs {
        Some(3)
    } else {
        None
    }
}

/// Parse one path chunk at `i`; see [`path_chunk_at`].
pub fn scan_path_chunk(s: &Vec<char>, i: usize) -> (r: Option<usize>)
    requires
        i <= s.len(),
    ensures
        match r {
            Some(c) => path_chunk_at(s@, i as int) == Some(c as int),
            None => path_chunk_at(s@, i as int) is None,
        },
        r matches Some(c) ==> i < c <= s.len(),
{
    proof {
        lemma_next_ext_dot(s@, i as int);
    }
    let mut j = i;
    while j < s.len()
        invariant
            i <= j <= s.len(),
            next_ext_dot(s@, j as int) == next_ext_dot(s@, i as int),
        decreases s.len() - j,
    {
        if s[j] == '.' && j + 1 <= s.len() {
            match scan_ext_len(s, j + 1) {
                Some(n) => {
                    return Some(j + 1 + n);
                },
                None => {},
            }
        }
        j += 1;
    }
    None
}

/// Parse a Haskell source file name followed by `end` at `i`; see [`haskell_source_file_at`].
pub fn scan_haskell_source_file(s: &Vec<char>, i: usize, end: &Vec<char>) -> (r: Option<usize>)
    requires
        i <= s.len(),
    ensures
        match r {
            Some(p) => haskell_source_file_at(s@, i as int, end@) == Some(p as int),
            None => haskell_source_file_at(s@, i as int, end@) is None,
        },
        r matches Some(p) ==> i < p && p + end@.len() <= s.len() && starts_with_at(s@, p as int, end@),
{
    let mut c = match scan_path_chunk(s, i) {
        Some(c) => c,
        None => return None,
    };
    loop
        invariant
            i < c <= s.len(),
            source_file_rest(s@, c as int, end@) == haskell_source_file_at(s@, i as int, end@),
        decreases s.len() - c,
    {
        if lit_at(s, c, end) {
            return Some(c);
        }
        match scan_path_chunk(s, c) {
            Some(c2) => {
                c = c2;
            },
            None => {
                return None;
            },
        }
    }
}

/// Parse a complete input as a Haskell source file name followed by the delimiter `end`: the
/// path and the delimiter.
pub fn haskell_source_file(input: &str, end: &str) -> (r: Result<(String, String), SyntaxError>)
    ensures
        match haskell_source_file_at(input@, 0, end@) {
            Some(p) if p + end@.len() == input@.len() => r is Ok && r->Ok_0.0@ == input@.subrange(
                0,
                p,
            ) && r->Ok_0.1@ == end@,
            _ => r is Err,
        },
{
    let s = chars_of(input);
    let e = chars_of(end);
    match scan_haskell_source_file(&s, 0, &e) {
        Some(p) => if e.len() == s.len() - p {
            let path = string_of_range(&s, 0, p);
            let delim = string_of_range(&e, 0, e.len());
            assert(e@.subrange(0, e.len() as int) =~= e@);
            Ok((path, delim))
        } else {
            Err(SyntaxError)
        },
        None => Err(SyntaxError),
    }
}

} // verus!

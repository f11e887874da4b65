//! A path followed by a colon, as diagnostics start.
use vstd::prelude::*;

verus! {

/// The first index at or after `i` that holds a colon or a newline, or the length of `s`.
pub open spec fn colon_or_newline_from(s: Seq<char>, i: int) -> int
    decreases s.len() - i,
{
    if i < 0 || i >= s.len() || s[i] == ':' || s[i] == '\n' {
        i
    } else {
        colon_or_newline_from(s, i + 1)
    }
}

/// A path and a colon at `i`: `Some((p, e))` where the path `s[i..p]` is one or more characters
/// other than a colon or a newline, and the colon ends at `e`.
pub open spec fn path_colon_at(s: Seq<char>, i: int) -> Option<(int, int)> {
    let p = colon_or_newline_from(s, i);
    if i < p < s.len() && s[p] == ':' {
        Some((p, p + 1))
    } else {
        None
    }
}

/// Parse a path and a colon at `i`; see [`path_colon_at`].
pub fn scan_path_colon(s: &Vec<char>, i: usize) -> (r: Option<(usize, usize)>)
    requires
        i <= s.len(),
    ensures
        match r {
            Some((p, e)) => path_colon_at(s@, i as int) == Some((p as int, e as int)) && i < p
                && e <= s.len(),
            None => path_colon_at(s@, i as int) is None,
        },
{
    let mut p = i;
    while p < s.len() && s[p] != ':' && s[p] != '\n'
        invariant
            i <= p <= s.len(),
            colon_or_newline_from(s@, p as int) == colon_or_newline_from(s@, i as int),
        decreases s.len() - p,
    {
        p += 1;
    }
    if i < p && p < s.len() && s[p] == ':' {
        Some((p, p + 1))
    } else {
        None
    }
}

} // verus!

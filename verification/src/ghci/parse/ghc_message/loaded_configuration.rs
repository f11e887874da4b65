//! The line GHCi prints when it loads a configuration file:
//!
//! ```text
//! Loaded GHCi configuration from /home/wiggles/.ghci
//! ```
use vstd::prelude::*;

use crate::ghci::parse::lines::{scan_until_newline, until_newline_at};
use crate::ghci::parse::scan::{scan_lit, starts_with_at};
use crate::text::string_of_range;

verus! {

/// A configuration line at `i`: `Some((a, j, n))` where the path is `s[a..j]` and the line ends
/// at `n`.
pub open spec fn loaded_configuration_at(s: Seq<char>, i: int) -> Option<(int, int, int)> {
    let prefix = "Loaded GHCi configuration from "@;
    if starts_with_at(s, i, prefix) {
        match until_newline_at(s, i + prefix.len()) {
            Some((j, n)) => Some((i + prefix.len(), j, n)),
            None => None,
        }
    } else {
        None
    }
}

/// Parse a configuration line at `i`: the path and the end of the line.
pub fn scan_loaded_configuration(s: &Vec<char>, i: usize) -> (r: Option<(usize, String)>)
    requires
        i <= s.len(),
    ensures
        match r {
            Some((n, path)) => loaded_configuration_at(s@, i as int) matches Some((a, j, m)) && m
                == n && path@ == s@.subrange(a, j) && i < n <= s.len(),
            None => loaded_configuration_at(s@, i as int) is None,
        },
{
    let a = match scan_lit(s, i, "Loaded GHCi configuration from ") {
        Some(a) => a,
        None => return None,
    };
    match scan_until_newline(s, a) {
        Some((j, n)) => Some((n, string_of_range(s, a, j))),
        None => None,
    }
}

} // verus!

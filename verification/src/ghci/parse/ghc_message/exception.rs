//! An exception reported by GHCi:
//!
//! ```text
//! *** Exception: /Users/.../ghc_tmp_34657.h: withFile: does not exist (No such file or directory)
//! ```
use vstd::prelude::*;

use super::{GhcMessage, GhcMessageView};
use crate::ghci::parse::lines::{scan_until_newline, until_newline_at};
use crate::ghci::parse::scan::{scan_lit, starts_with_at, SyntaxError};
use crate::text::{chars_of, string_of_range};

verus! {

/// An exception line at `i`: `*** Exception: ` and the rest of the line, whose text is the
/// message; `Some` of the end of the line and the message.
pub open spec fn exception_at(s: Seq<char>, i: int) -> Option<(int, GhcMessageView)> {
    let prefix = "*** Exception: "@;
    if starts_with_at(s, i, prefix) {
        match until_newline_at(s, i + prefix.len()) {
            Some((j, n)) => Some((n, GhcMessageView::Exception(s.subrange(i + prefix.len(), j)))),
            None => None,
        }
    } else {
        None
    }
}

/// Parse an exception line at the start of `input`; what follows the line is left alone.
pub fn exception(input: &str) -> (r: Result<GhcMessage, SyntaxError>)
    ensures
        match exception_at(input@, 0) {
            Some((_, m)) => r is Ok && r->Ok_0@ == m,
            None => r is Err,
        },
{
    let s = chars_of(input);
    let a = match scan_lit(&s, 0, "*** Exception: ") {
        Some(a) => a,
        None => return Err(SyntaxError),
    };
    match scan_until_newline(&s, a) {
        Some((j, _)) => Ok(GhcMessage::Exception(string_of_range(&s, a, j))),
        None => Err(SyntaxError),
    }
}

} // verus!

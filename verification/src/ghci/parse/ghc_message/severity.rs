//! The severity of a compiler message.
use vstd::prelude::*;

use crate::ghci::parse::scan::{starts_with_at, str_at, SyntaxError};
use crate::text::chars_of;

verus! {

/// The severity of a compiler message.
#[derive(Debug, Clone, Copy, PartialEq, Eq, Structural)]
pub enum Severity {
    /// Warning-level; non-fatal.
    Warning,
    /// Error-level; fatal.
    Error,
}

/// A severity followed by a colon at `i`: `warning:`, `Warning:`, `error:` or `Error:`; `Some`
/// of the index after the colon and the severity.
pub open spec fn severity_colon_at(s: Seq<char>, i: int) -> Option<(int, Severity)> {
    if starts_with_at(s, i, "warning:"@) || starts_with_at(s, i, "Warning:"@) {
        Some((i + "warning:"@.len(), Severity::Warning))
    } else if starts_with_at(s, i, "error:"@) || starts_with_at(s, i, "Error:"@) {
        Some((i + "error:"@.len(), Severity::Error))
    } else {
        None
    }
}

/// Parse a severity and its colon at `i`; see [`severity_colon_at`].
pub fn scan_severity_colon(s: &Vec<char>, i: usize) -> (r: Option<(usize, Severity)>)
    requires
        i <= s.len(),
    ensures
        match r {
            Some((e, sev)) => severity_colon_at(s@, i as int) == Some((e as int, sev)),
            None => severity_colon_at(s@, i as int) is None,
        },
        r matches Some((e, _)) ==> i < e <= s.len(),
{
    let w = chars_of("warning:");
    if str_at(s, i, "warning:") || str_at(s, i, "Warning:") {
        proof {
            reveal_strlit("warning:");
            reveal_strlit("Warning:");
        }
        Some((i + w.len(), Severity::Warning))
    } else if str_at(s, i, "error:") || str_at(s, i, "Error:") {
        proof {
            reveal_strlit("error:");
            reveal_strlit("Error:");
        }
        let e = chars_of("error:");
        Some((i + e.len(), Severity::Error))
    } else {
        None
    }
}

/// Parse a complete input as a severity followed by a colon.
pub fn parse_severity_colon(input: &str) -> (r: Result<Severity, SyntaxError>)
    ensures
        match severity_colon_at(input@, 0) {
            Some((e, sev)) if e == input@.len() => r == Ok::<Severity, SyntaxError>(sev),
            _ => r is Err,
        },
{
    let s = chars_of(input);
    match scan_severity_colon(&s, 0) {
        Some((e, sev)) if e == s.len() => Ok(sev),
        _ => Err(SyntaxError),
    }
}

} // verus!

//! A "can't find file" message:
//!
//! ```text
//! <no location info>: error: can't find file: Why.hs
//! ```
use vstd::prelude::*;

use super::position::{scan_unhelpful_position, unhelpful_position_at, PositionRange};
use super::severity::{scan_severity_colon, severity_colon_at};
use super::{GhcDiagnostic, GhcDiagnosticView};
use crate::ghci::parse::lines::{scan_until_newline, until_newline_at};
use crate::ghci::parse::scan::{
    opt_agrees, scan_lit, scan_space1, space1_at, starts_with_at, SyntaxError,
};
use crate::text::{chars_of, push_str, string_of_range};

verus! {

/// A "can't find file" message at `i`: an unhelpful position, spaces, a severity, spaces,
/// `can't find file: ` and the path on the rest of the line.
pub open spec fn cant_find_file_at(s: Seq<char>, i: int) -> Option<(int, GhcDiagnosticView)> {
    match unhelpful_position_at(s, i) {
        Some(a) => match space1_at(s, a) {
            Some(b) => match severity_colon_at(s, b) {
                Some((c, severity)) => match space1_at(s, c) {
                    Some(d) => if starts_with_at(s, d, "can't find file: "@) {
                        let e = d + "can't find file: "@.len();
                        match until_newline_at(s, e) {
                            Some((j, n)) => Some(
                                (
                                    n,
                                    GhcDiagnosticView {
                                        severity,
                                        path: Some(s.subrange(e, j)),
                                        span: (0usize, 0usize, 0usize, 0usize),
                                        message: "can't find file"@,
                                    },
                                ),
                            ),
                            None => None,
                        }
                    } else {
                        None
                    },
                    None => None,
                },
                None => None,
            },
            None => None,
        },
        None => None,
    }
}

/// Parse a "can't find file" message at `i`; see [`cant_find_file_at`].
pub fn scan_cant_find_file(s: &Vec<char>, i: usize) -> (r: Option<(usize, GhcDiagnostic)>)
    requires
        i <= s.len(),
    ensures
        opt_agrees(r, cant_find_file_at(s@, i as int)),
        r matches Some((n, _)) ==> i < n <= s.len(),
{
    let a = match scan_unhelpful_position(s, i) {
        Some(a) => a,
        None => return None,
    };
    let b = match scan_space1(s, a) {
        Some(b) => b,
        None => return None,
    };
    let (c, severity) = match scan_severity_colon(s, b) {
        Some(x) => x,
        None => return None,
    };
    let d = match scan_space1(s, c) {
        Some(d) => d,
        None => return None,
    };
    let e = match scan_lit(s, d, "can't find file: ") {
        Some(e) => e,
        None => return None,
    };
    match scan_until_newline(s, e) {
        Some((j, n)) => {
            let mut message = String::new();
            push_str(&mut message, "can't find file");
            Some(
                (
                    n,
                    GhcDiagnostic {
                        severity,
                        path: Some(string_of_range(s, e, j)),
                        span: PositionRange::zero(),
                        message,
                    },
                ),
            )
        },
        None => None,
    }
}

/// Parse a complete input as a "can't find file" message.
pub fn cant_find_file_diagnostic(input: &str) -> (r: Result<GhcDiagnostic, SyntaxError>)
    ensures
        match cant_find_file_at(input@, 0) {
            Some((e, d)) if e == input@.len() => r is Ok && r->Ok_0@ == d,
            _ => r is Err,
        },
{
    let s = chars_of(input);
    match scan_cant_find_file(&s, 0) {
        Some((e, d)) => if e == s.len() {
            Ok(d)
        } else {
            Err(SyntaxError)
        },
        None => Err(SyntaxError),
    }
}

} // verus!

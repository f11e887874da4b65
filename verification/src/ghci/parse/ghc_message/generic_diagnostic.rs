//! A warning or error with a location:
//!
//! ```text
//! NotStockDeriveable.hs:6:12: error: [GHC-00158]
//!     • Can't make a derived instance of ‘MyClass MyType’:
//!   |
//! 6 |   deriving MyClass
//!   |            ^^^^^^^
//! ```
use vstd::prelude::*;

use super::message_body::{message_body_at, scan_message_body};
use super::path_colon::{path_colon_at, scan_path_colon};
use super::position::{position_range_at, scan_position_range};
use super::severity::{scan_severity_colon, severity_colon_at};
use super::{GhcDiagnostic, GhcDiagnosticView, GhcMessage, GhcMessageView};
use crate::ghci::parse::scan::{
    lemma_spaces_end, opt_agrees, scan_space1, skip_spaces, space1_at, spaces_end, SyntaxError,
};
use crate::text::{chars_of, string_of_range};

verus! {

/// A diagnostic with a location at `i`: a source path and colon, a span, spaces, a severity,
/// optional spaces, and a message body.
pub open spec fn generic_diagnostic_at(s: Seq<char>, i: int) -> Option<(int, GhcDiagnosticView)> {
    match path_colon_at(s, i) {
        Some((p, a)) => match position_range_at(s, a) {
            Some((b, span)) => match space1_at(s, b) {
                Some(c) => match severity_colon_at(s, c) {
                    Some((d, severity)) => {
                        let e = spaces_end(s, d);
                        match message_body_at(s, e) {
                            Some(n) => Some(
                                (
                                    n,
                                    GhcDiagnosticView {
                                        severity,
                                        path: Some(s.subrange(i, p)),
                                        span,
                                        message: s.subrange(e, n),
                                    },
                                ),
                            ),
                            None => None,
                        }
                    },
                    None => None,
                },
                None => None,
            },
            None => None,
        },
        None => None,
    }
}

/// Parse a diagnostic with a location at `i`; see [`generic_diagnostic_at`].
pub fn scan_generic_diagnostic(s: &Vec<char>, i: usize) -> (r: Option<(usize, GhcDiagnostic)>)
    requires
        i <= s.len(),
    ensures
        opt_agrees(r, generic_diagnostic_at(s@, i as int)),
        r matches Some((n, _)) ==> i < n <= s.len(),
{
    let (p, a) = match scan_path_colon(s, i) {
        Some(x) => x,
        None => return None,
    };
    let (b, span) = match scan_position_range(s, a) {
        Some(x) => x,
        None => return None,
    };
    let c = match scan_space1(s, b) {
        Some(c) => c,
        None => return None,
    };
    let (d, severity) = match scan_severity_colon(s, c) {
        Some(x) => x,
        None => return None,
    };
    proof {
        lemma_spaces_end(s@, d as int);
    }
    let e = skip_spaces(s, d);
    match scan_message_body(s, e) {
        Some(n) => Some(
            (
                n,
                GhcDiagnostic {
                    severity,
                    path: Some(string_of_range(s, i, p)),
                    span,
                    message: string_of_range(s, e, n),
                },
            ),
        ),
        None => None,
    }
}

/// Parse a complete input as a diagnostic with a location.
pub fn generic_diagnostic(input: &str) -> (r: Result<GhcMessage, SyntaxError>)
    ensures
        match generic_diagnostic_at(input@, 0) {
            Some((e, d)) if e == input@.len() => r is Ok && r->Ok_0@ == GhcMessageView::Diagnostic(d),
            _ => r is Err,
        },
{
    let s = chars_of(input);
    match scan_generic_diagnostic(&s, 0) {
        Some((e, d)) => if e == s.len() {
            Ok(GhcMessage::Diagnostic(d))
        } else {
            Err(SyntaxError)
        },
        None => Err(SyntaxError),
    }
}

} // verus!

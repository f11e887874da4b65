//! A diagnostic without a location:
//!
//! ```text
//! <no location info>: error:
//!     Could not find module ‘Example’
//!     It is not a module in the current program, or in any known package.
//! ```
use vstd::prelude::*;

use super::message_body::{message_body_at, scan_message_body};
use super::position::{scan_unhelpful_position, unhelpful_position_at, PositionRange};
use super::severity::{scan_severity_colon, severity_colon_at};
use super::{GhcDiagnostic, GhcDiagnosticView, GhcMessage, GhcMessageView};
use crate::ghci::parse::scan::{
    lemma_spaces_end, opt_agrees, scan_space1, skip_spaces, space1_at, spaces_end, SyntaxError,
};
use crate::text::{chars_of, string_of_range};

verus! {

/// A diagnostic without a location at `i`: an unhelpful position, spaces, a severity, optional
/// spaces, and a message body.
pub open spec fn no_location_info_at(s: Seq<char>, i: int) -> Option<(int, GhcDiagnosticView)> {
    match unhelpful_position_at(s, i) {
        Some(a) => match space1_at(s, a) {
            Some(b) => match severity_colon_at(s, b) {
                Some((c, severity)) => {
                    let d = spaces_end(s, c);
                    match message_body_at(s, d) {
                        Some(n) => Some(
                            (
                                n,
                                GhcDiagnosticView {
                                    severity,
                                    path: None,
                                    span: (0usize, 0usize, 0usize, 0usize),
                                    message: s.subrange(d, n),
                                },
                            ),
                        ),
                        None => None,
                    }
                },
                None => None,
            },
            None => None,
        },
        None => None,
    }
}

/// Parse a diagnostic without a location at `i`; see [`no_location_info_at`].
pub fn scan_no_location_info(s: &Vec<char>, i: usize) -> (r: Option<(usize, GhcDiagnostic)>)
    requires
        i <= s.len(),
    ensures
        opt_agrees(r, no_location_info_at(s@, i as int)),
        r matches Some((n, _)) ==> i < n <= s.len(),
{
    let a = match scan_unhelpful_position(s, i) {
        Some(a) => a,
        None => return None,
    };
    let b = match scan_space1(s, a) {
        Some(b) => b,
        None => return None,
    };
    let (c, severity) = match scan_severity_colon(s, b) {
        Some(x) => x,
        None => return None,
    };
    proof {
        lemma_spaces_end(s@, c as int);
    }
    let d = skip_spaces(s, c);
    match scan_message_body(s, d) {
        Some(n) => Some(
            (
                n,
                GhcDiagnostic {
                    severity,
                    path: None,
                    span: PositionRange::zero(),
                    message: string_of_range(s, d, n),
                },
            ),
        ),
        None => None,
    }
}

/// Parse a complete input as a diagnostic without a location.
pub fn no_location_info_diagnostic(input: &str) -> (r: Result<GhcMessage, SyntaxError>)
    ensures
        match no_location_info_at(input@, 0) {
            Some((e, d)) if e == input@.len() => r is Ok && r->Ok_0@ == GhcMessageView::Diagnostic(d),
            _ => r is Err,
        },
{
    let s = chars_of(input);
    match scan_no_location_info(&s, 0) {
        Some((e, d)) => if e == s.len() {
            Ok(GhcMessage::Diagnostic(d))
        } else {
            Err(SyntaxError)
        },
        None => Err(SyntaxError),
    }
}

} // verus!

//! A module import cycle, reported as one error per module in the cycle:
//!
//! ```text
//! Module graph contains a cycle:
//!         module ‘C’ (./C.hs)
//!         imports module ‘A’ (A.hs)
//!   which imports module ‘B’ (./B.hs)
//!   which imports module ‘C’ (./C.hs)
//! ```
//!
//! Or:
//!
//! ```text
//! Module graph contains a cycle:
//!   module ‘A’ (A.hs) imports itself
//! ```
use vstd::prelude::*;

use super::position::PositionRange;
use super::severity::Severity;
use super::{message_views, GhcDiagnostic, GhcDiagnosticView, GhcMessage, GhcMessageView};
use crate::ghci::parse::haskell_grammar::{module_name_at, scan_module_name};
use crate::ghci::parse::lines::{
    lemma_until_newline_at, line_ending_at, scan_line_ending, scan_until_newline,
    until_newline_at,
};
use crate::ghci::parse::scan::{
    find_from, lemma_find_from, scan_find, scan_lit, scan_space1, space1_at, starts_with_at,
    SyntaxError,
};
use crate::text::{chars_of, string_of_range, unique_seq, unique_strings, views};

verus! {

/// A quote GHC may put around a module name: `` ` ``, `'`, `‘` or `’`.
pub open spec fn is_single_quote(c: char) -> bool {
    c == '`' || c == '\'' || c == '‘' || c == '’'
}

/// One line of the cycle at `i`: spaces, optional `which `, optional `imports `, `module `, a
/// quoted module name, spaces, and a parenthesized path of at least one character, then the rest
/// of the line; `Some` of the end of the line and the path.
pub open spec fn cycle_line_at(s: Seq<char>, i: int) -> Option<(int, Seq<char>)> {
    match space1_at(s, i) {
        Some(a) => {
            let b = if starts_with_at(s, a, "which "@) {
                a + "which "@.len()
            } else {
                a
            };
            let c = if starts_with_at(s, b, "imports "@) {
                b + "imports "@.len()
            } else {
                b
            };
            let d = c + "module "@.len();
            if starts_with_at(s, c, "module "@) && d < s.len() && is_single_quote(s[d]) {
                match module_name_at(s, d + 1) {
                    Some(e) => if e < s.len() && is_single_quote(s[e]) {
                        match space1_at(s, e + 1) {
                            Some(f) => if starts_with_at(s, f, "("@) {
                                let g = f + "("@.len();
                                match find_from(s, g, ")"@) {
                                    Some(q) => if q > g {
                                        match until_newline_at(s, q + ")"@.len()) {
                                            Some((_, n)) => Some((n, s.subrange(g, q))),
                                            None => None,
                                        }
                                    } else {
                                        None
                                    },
                                    None => None,
                                }
                            } else {
                                None
                            },
                            None => None,
                        }
                    } else {
                        None
                    },
                    None => None,
                }
            } else {
                None
            }
        },
        None => None,
    }
}

/// The cycle lines starting at `i`: their paths and where they stop.
pub open spec fn cycle_lines(s: Seq<char>, i: int) -> (Seq<Seq<char>>, int)
    decreases s.len() - i,
{
    match cycle_line_at(s, i) {
        Some((n, path)) => if i < n <= s.len() {
            let rest = cycle_lines(s, n);
            (seq![path] + rest.0, rest.1)
        } else {
            (Seq::empty(), i)
        },
        None => (Seq::empty(), i),
    }
}

/// The error for one module of a cycle: the whole cycle text is its message.
pub open spec fn cycle_diagnostic(path: Seq<char>, message: Seq<char>) -> GhcMessageView {
    GhcMessageView::Diagnostic(
        GhcDiagnosticView {
            severity: Severity::Error,
            path: Some(path),
            span: (0usize, 0usize, 0usize, 0usize),
            message,
        },
    )
}

/// An import cycle at `i`: a header line and one or more cycle lines. Gives one error per
/// distinct path, in order of first appearance, each with the whole cycle text as its message.
pub open spec fn module_import_cycle_at(s: Seq<char>, i: int) -> Option<(int, Seq<GhcMessageView>)> {
    let a = if starts_with_at(s, i, "Module imports form a cycle:"@) {
        Some(i + "Module imports form a cycle:"@.len())
    } else if starts_with_at(s, i, "Module graph contains a cycle:"@) {
        Some(i + "Module graph contains a cycle:"@.len())
    } else {
        None
    };
    match a {
        Some(a) => match line_ending_at(s, a) {
            Some(b) => {
                let (paths, e) = cycle_lines(s, b);
                if paths.len() > 0 {
                    Some(
                        (
                            e,
                            unique_seq(paths).map_values(
                                |p: Seq<char>| cycle_diagnostic(p, s.subrange(i, e)),
                            ),
                        ),
                    )
                } else {
                    None
                }
            },
            None => None,
        },
        None => None,
    }
}

fn is_single_quote_char(c: char) -> (r: bool)
    ensures
        r == is_single_quote(c),
{
    c == '`' || c == '\'' || c == '‘' || c == '’'
}

fn scan_cycle_line(s: &Vec<char>, i: usize) -> (r: Option<(usize, String)>)
    requires
        i <= s.len(),
    ensures
        match r {
            Some((n, p)) => cycle_line_at(s@, i as int) == Some((n as int, p@)) && i < n <= s.len(),
            None => cycle_line_at(s@, i as int) is None,
        },
{
    let a = match scan_space1(s, i) {
        Some(a) => a,
        None => return None,
    };
    let b = match scan_lit(s, a, "which ") {
        Some(b) => b,
        None => a,
    };
    let c = match scan_lit(s, b, "imports ") {
        Some(c) => c,
        None => b,
    };
    let d = match scan_lit(s, c, "module ") {
        Some(d) => d,
        None => return None,
    };
    if d >= s.len() || !is_single_quote_char(s[d]) {
        return None;
    }
    let e = match scan_module_name(s, d + 1) {
        Some(e) => e,
        None => return None,
    };
    if e >= s.len() || !is_single_quote_char(s[e]) {
        return None;
    }
    let f = match scan_space1(s, e + 1) {
        Some(f) => f,
        None => return None,
    };
    let g = match scan_lit(s, f, "(") {
        Some(g) => g,
        None => return None,
    };
    let close = chars_of(")");
    let q = match scan_find(s, g, &close) {
        Some(q) => q,
        None => return None,
    };
    if q == g {
        return None;
    }
    proof {
        lemma_find_from(s@, g as int, close@);
    }
    match scan_until_newline(s, q + close.len()) {
        Some((_, n)) => Some((n, string_of_range(s, g, q))),
        None => None,
    }
}

/// Parse an import cycle at `i`; see [`module_import_cycle_at`].
pub fn scan_module_import_cycle(s: &Vec<char>, i: usize) -> (r: Option<(usize, Vec<GhcMessage>)>)
    requires
        i <= s.len(),
    ensures
        match r {
            Some((e, v)) => module_import_cycle_at(s@, i as int) == Some((e as int, message_views(v@)))
                && i < e <= s.len(),
            None => module_import_cycle_at(s@, i as int) is None,
        },
{
    let a = if let Some(a) = scan_lit(s, i, "Module imports form a cycle:") {
        a
    } else if let Some(a) = scan_lit(s, i, "Module graph contains a cycle:") {
        a
    } else {
        return None;
    };
    let b = match scan_line_ending(s, a) {
        Some(b) => b,
        None => return None,
    };
    let mut paths: Vec<String> = Vec::new();
    let mut c = b;
    loop
        invariant
            i < b <= c <= s.len(),
            cycle_lines(s@, b as int).1 == cycle_lines(s@, c as int).1,
            cycle_lines(s@, b as int).0 == views(paths@) + cycle_lines(s@, c as int).0,
            c > b ==> paths.len() > 0,
        ensures
            i < b <= c <= s.len(),
            cycle_lines(s@, b as int).1 == c,
            cycle_lines(s@, b as int).0 == views(paths@),
        decreases s.len() - c,
    {
        match scan_cycle_line(s, c) {
            Some((n, p)) => {
                let ghost before = views(paths@);
                paths.push(p);
                assert(views(paths@) =~= before.push(p@));
                assert(cycle_lines(s@, c as int).0 =~= seq![p@] + cycle_lines(s@, n as int).0);
                assert(before + cycle_lines(s@, c as int).0 =~= before.push(p@) + cycle_lines(
                    s@,
                    n as int,
                ).0);
                c = n;
            },
            None => {
                assert(cycle_lines(s@, c as int).0 =~= Seq::<Seq<char>>::empty());
                assert(views(paths@) + Seq::<Seq<char>>::empty() =~= views(paths@));
                break;
            },
        }
    }
    if paths.len() == 0 {
        return None;
    }
    let distinct = unique_strings(&paths);
    let message = string_of_range(s, i, c);
    let mut out: Vec<GhcMessage> = Vec::new();
    let mut k: usize = 0;
    while k < distinct.len()
        invariant
            0 <= k <= distinct.len(),
            message@ == s@.subrange(i as int, c as int),
            message_views(out@) == views(distinct@).take(k as int).map_values(
                |p: Seq<char>| cycle_diagnostic(p, s@.subrange(i as int, c as int)),
            ),
        decreases distinct.len() - k,
    {
        let d = GhcDiagnostic {
            severity: Severity::Error,
            path: Some(distinct[k].clone()),
            span: PositionRange::zero(),
            message: message.clone(),
        };
        let ghost before = message_views(out@);
        out.push(GhcMessage::Diagnostic(d));
        assert(message_views(out@) =~= before.push(
            cycle_diagnostic(distinct@[k as int]@, s@.subrange(i as int, c as int)),
        ));
        assert(views(distinct@).take(k + 1) =~= views(distinct@).take(k as int).push(
            distinct@[k as int]@,
        ));
        k += 1;
    }
    assert(views(distinct@).take(distinct.len() as int) =~= views(distinct@));
    Some((c, out))
}

/// Parse a complete input as an import cycle.
pub fn module_import_cycle_diagnostic(input: &str) -> (r: Result<Vec<GhcMessage>, SyntaxError>)
    ensures
        match module_import_cycle_at(input@, 0) {
            Some((e, v)) if e == input@.len() => r is Ok && message_views(r->Ok_0@) == v,
            _ => r is Err,
        },
{
    let s = chars_of(input);
    match scan_module_import_cycle(&s, 0) {
        Some((e, v)) => if e == s.len() {
            Ok(v)
        } else {
            Err(SyntaxError)
        },
        None => Err(SyntaxError),
    }
}

} // verus!

//! A module or file that was not found.
use vstd::prelude::*;

use super::single_quoted::{scan_single_quoted, single_quoted_at};
use crate::ghci::parse::haskell_grammar::{module_name_at, scan_module_name};
use crate::ghci::parse::haskell_source_file::{haskell_source_file_at, scan_haskell_source_file};
use crate::ghci::parse::lines::{line_ending_or_eof_at, scan_line_ending_or_eof};
use crate::ghci::parse::scan::{scan_lit, starts_with_at, SyntaxError, Step};
use crate::ghci::parse::transform_till::{LineEndingOrEofParser, LiteralParser, RestParser, Then};
use crate::text::{chars_of, string_of_range};

verus! {

/// A module or file was not found.
#[derive(Debug, Clone, PartialEq, Eq)]
pub enum NotFound {
    /// A file for import was not found.
    ///
    /// ```text
    /// File src/Foo.hs not found
    /// ```
    File(String),
    /// A module for import was not found.
    ///
    /// ```text
    /// Module Foo not found
    /// ```
    Module(String),
    /// A target was not found as a source file or recognized as a module name.
    ///
    /// ```text
    /// target ‘src/Puppy’ is not a module name or a source file
    /// ```
    Unrecognized(String),
}

/// The contents of a [`NotFound`].
pub enum NotFoundView {
    File(Seq<char>),
    Module(Seq<char>),
    Unrecognized(Seq<char>),
}

impl View for NotFound {
    type V = NotFoundView;

    open spec fn view(&self) -> NotFoundView {
        match self {
            NotFound::File(p) => NotFoundView::File(p@),
            NotFound::Module(m) => NotFoundView::Module(m@),
            NotFound::Unrecognized(t) => NotFoundView::Unrecognized(t@),
        }
    }
}

/// `File `, a Haskell source path followed by ` not found`, and a line ending or the end of the
/// input.
pub open spec fn file_not_found_at(s: Seq<char>, i: int) -> Option<(int, NotFoundView)> {
    let a = i + "File "@.len();
    if starts_with_at(s, i, "File "@) {
        match haskell_source_file_at(s, a, " not found"@) {
            Some(p) => match line_ending_or_eof_at(s, p + " not found"@.len()) {
                Some(n) => Some((n, NotFoundView::File(s.subrange(a, p)))),
                None => None,
            },
            None => None,
        }
    } else {
        None
    }
}

/// `Module `, a module name, ` not found`, and a line ending or the end of the input.
pub open spec fn module_not_found_at(s: Seq<char>, i: int) -> Option<(int, NotFoundView)> {
    let a = i + "Module "@.len();
    if starts_with_at(s, i, "Module "@) {
        match module_name_at(s, a) {
            Some(b) => if starts_with_at(s, b, " not found"@) {
                match line_ending_or_eof_at(s, b + " not found"@.len()) {
                    Some(n) => Some((n, NotFoundView::Module(s.subrange(a, b)))),
                    None => None,
                }
            } else {
                None
            },
            None => None,
        }
    } else {
        None
    }
}

/// The text that follows the target in an "unrecognized" message.
pub open spec fn unrecognized_end() -> Then<LiteralParser, LineEndingOrEofParser> {
    Then(
        LiteralParser(" is not a module name or a source file"),
        LineEndingOrEofParser,
    )
}

/// `target `, then the target single-quoted and followed by
/// ` is not a module name or a source file` and a line ending or the end of the input.
pub open spec fn unrecognized_at(s: Seq<char>, i: int) -> Step<int, NotFoundView> {
    if starts_with_at(s, i, "target "@) {
        match single_quoted_at(RestParser, unrecognized_end(), s, i + "target "@.len()) {
            Step::Done(n, (name, _)) => Step::Done(n, NotFoundView::Unrecognized(name)),
            Step::Backtrack => Step::Backtrack,
            Step::Cut => Step::Cut,
        }
    } else {
        Step::Backtrack
    }
}

/// A "not found" message at `i`: a file, a module, or an unrecognized target, tried in that
/// order.
pub open spec fn not_found_at(s: Seq<char>, i: int) -> Step<int, NotFoundView> {
    match file_not_found_at(s, i) {
        Some((n, v)) => Step::Done(n, v),
        None => match module_not_found_at(s, i) {
            Some((n, v)) => Step::Done(n, v),
            None => unrecognized_at(s, i),
        },
    }
}

} // verus!

verus! {

fn scan_file_not_found(s: &Vec<char>, i: usize) -> (r: Option<(usize, NotFound)>)
    requires
        i <= s.len(),
    ensures
        match r {
            Some((n, v)) => file_not_found_at(s@, i as int) == Some((n as int, v@)) && n <= s.len(),
            None => file_not_found_at(s@, i as int) is None,
        },
{
    let a = match scan_lit(s, i, "File ") {
        Some(a) => a,
        None => return None,
    };
    let end = chars_of(" not found");
    let p = match scan_haskell_source_file(s, a, &end) {
        Some(p) => p,
        None => return None,
    };
    match scan_line_ending_or_eof(s, p + end.len()) {
        Some(n) => Some((n, NotFound::File(string_of_range(s, a, p)))),
        None => None,
    }
}

fn scan_module_not_found(s: &Vec<char>, i: usize) -> (r: Option<(usize, NotFound)>)
    requires
        i <= s.len(),
    ensures
        match r {
            Some((n, v)) => module_not_found_at(s@, i as int) == Some((n as int, v@)) && n <= s.len(),
            None => module_not_found_at(s@, i as int) is None,
        },
{
    let a = match scan_lit(s, i, "Module ") {
        Some(a) => a,
        None => return None,
    };
    let b = match scan_module_name(s, a) {
        Some(b) => b,
        None => return None,
    };
    let c = match scan_lit(s, b, " not found") {
        Some(c) => c,
        None => return None,
    };
    match scan_line_ending_or_eof(s, c) {
        Some(n) => Some((n, NotFound::Module(string_of_range(s, a, b)))),
        None => None,
    }
}

/// Parse a "not found" message at `i`; see [`not_found_at`].
pub fn scan_not_found(s: &Vec<char>, i: usize) -> (r: Step<usize, NotFound>)
    requires
        i <= s.len(),
    ensures
        match r {
            Step::Done(n, v) => not_found_at(s@, i as int) == Step::<int, NotFoundView>::Done(
                n as int,
                v@,
            ) && n <= s.len(),
            Step::Backtrack => not_found_at(s@, i as int) is Backtrack,
            Step::Cut => not_found_at(s@, i as int) is Cut,
        },
{
    if let Some((n, v)) = scan_file_not_found(s, i) {
        return Step::Done(n, v);
    }
    if let Some((n, v)) = scan_module_not_found(s, i) {
        return Step::Done(n, v);
    }
    let a = match scan_lit(s, i, "target ") {
        Some(a) => a,
        None => return Step::Backtrack,
    };
    let end = Then(LiteralParser(" is not a module name or a source file"), LineEndingOrEofParser);
    assert(end == unrecognized_end());
    match scan_single_quoted(&RestParser, &end, s, a) {
        Step::Done(n, (name, _)) => Step::Done(n, NotFound::Unrecognized(name)),
        Step::Backtrack => Step::Backtrack,
        Step::Cut => Step::Cut,
    }
}

/// Parse a complete input as a "not found" message.
pub fn not_found(input: &str) -> (r: Result<NotFound, SyntaxError>)
    ensures
        match not_found_at(input@, 0) {
            Step::Done(n, v) if n == input@.len() => r is Ok && r->Ok_0@ == v,
            _ => r is Err,
        },
{
    let s = chars_of(input);
    match scan_not_found(&s, 0) {
        Step::Done(n, v) => if n == s.len() {
            Ok(v)
        } else {
            Err(SyntaxError)
        },
        _ => Err(SyntaxError),
    }
}

impl NotFound {
    /// Parse a complete input as a "not found" message; see [`not_found`].
    pub fn from_str(s: &str) -> (r: Result<NotFound, SyntaxError>)
        ensures
            match not_found_at(s@, 0) {
                Step::Done(n, v) if n == s@.len() => r is Ok && r->Ok_0@ == v,
                _ => r is Err,
            },
    {
        not_found(s)
    }
}

} // verus!

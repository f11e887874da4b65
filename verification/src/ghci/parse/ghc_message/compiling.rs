//! The progress line GHC prints for each module it compiles:
//!
//! ```text
//! [1 of 3] Compiling Foo ( Foo.hs, Foo.o, interpreted )
//! ```
use vstd::prelude::*;

use crate::ghci::parse::lines::{scan_until_newline, until_newline_at};
use crate::ghci::parse::module_and_files::{
    module_and_files_at, scan_module_and_files, step_agrees, CompilingModule, ModuleView,
};
use crate::ghci::parse::scan::{
    lemma_spaces_end, parse_usize, skip_spaces, spaces_end, starts_with_at, str_at, trim,
    trim_range, usize_at, SyntaxError, Step,
};
use crate::text::{chars_of, opt_view, string_of_range};

verus! {

/// Parsed result of a `[N of M] Compiling ...` line, carrying both the module info and progress.
#[derive(Debug, Clone, PartialEq, Eq)]
pub struct CompilingProgress {
    /// The module being compiled.
    pub module: CompilingModule,
    /// 1-based index of this module in the compilation batch.
    pub current: usize,
    /// Total modules in the compilation batch.
    pub total: usize,
    /// Optional recompilation reason, e.g. `[Source file changed]`.
    pub reason: Option<String>,
}

/// The contents of a [`CompilingProgress`].
pub struct CompilingProgressView {
    pub module: ModuleView,
    pub current: usize,
    pub total: usize,
    pub reason: Option<Seq<char>>,
}

impl View for CompilingProgress {
    type V = CompilingProgressView;

    open spec fn view(&self) -> CompilingProgressView {
        CompilingProgressView {
            module: self.module@,
            current: self.current,
            total: self.total,
            reason: opt_view(self.reason),
        }
    }
}

/// The recompilation reason in the rest of a progress line: the trimmed text, if any is left.
pub open spec fn reason_of(rest: Seq<char>) -> Option<Seq<char>> {
    if trim(rest).len() == 0 {
        None
    } else {
        Some(trim(rest))
    }
}

/// A progress line at `i`: `[`, optional spaces, the index, ` of `, the total, `] Compiling `, a
/// module and its files, and the rest of the line (its trimmed text is the reason). A cut in the
/// module's file list cuts this parse.
pub open spec fn compiling_at(s: Seq<char>, i: int) -> Step<int, CompilingProgressView> {
    if !starts_with_at(s, i, "["@) {
        Step::Backtrack
    } else {
        match usize_at(s, spaces_end(s, i + "["@.len())) {
            None => Step::Backtrack,
            Some((a, current)) => if !starts_with_at(s, a, " of "@) {
                Step::Backtrack
            } else {
                match usize_at(s, a + " of "@.len()) {
                    None => Step::Backtrack,
                    Some((b, total)) => if !starts_with_at(s, b, "] Compiling "@) {
                        Step::Backtrack
                    } else {
                        match module_and_files_at(s, b + "] Compiling "@.len()) {
                            Step::Done(c, module) => match until_newline_at(s, c) {
                                Some((_, n)) => Step::Done(
                                    n,
                                    CompilingProgressView {
                                        module,
                                        current: current as usize,
                                        total: total as usize,
                                        reason: reason_of(s.subrange(c, n)),
                                    },
                                ),
                                None => Step::Backtrack,
                            },
                            Step::Backtrack => Step::Backtrack,
                            Step::Cut => Step::Cut,
                        }
                    }
                }
            }
        }
    }
}

/// Parse a progress line at `i`; see [`compiling_at`].
pub fn scan_compiling(s: &Vec<char>, i: usize) -> (r: Step<usize, CompilingProgress>)
    requires
        i <= s.len(),
    ensures
        step_agrees(r, compiling_at(s@, i as int)),
        r matches Step::Done(e, _) ==> i < e <= s.len(),
{
    if !str_at(s, i, "[") {
        return Step::Backtrack;
    }
    let one = chars_of("[").len();
    proof {
        lemma_spaces_end(s@, i + one);
    }
    let a0 = skip_spaces(s, i + one);
    let (a, current) = match parse_usize(s, a0) {
        Some(x) => x,
        None => return Step::Backtrack,
    };
    if !str_at(s, a, " of ") {
        return Step::Backtrack;
    }
    let b0 = a + chars_of(" of ").len();
    let (b, total) = match parse_usize(s, b0) {
        Some(x) => x,
        None => return Step::Backtrack,
    };
    if !str_at(s, b, "] Compiling ") {
        return Step::Backtrack;
    }
    let c0 = b + chars_of("] Compiling ").len();
    let (c, module) = match scan_module_and_files(s, c0) {
        Step::Done(c, m) => (c, m),
        Step::Backtrack => return Step::Backtrack,
        Step::Cut => return Step::Cut,
    };
    let n = match scan_until_newline(s, c) {
        Some((_, n)) => n,
        None => return Step::Backtrack,
    };
    let (lo, hi) = trim_range(s, c, n);
    let reason = if lo == hi {
        None
    } else {
        Some(string_of_range(s, lo, hi))
    };
    Step::Done(n, CompilingProgress { module, current, total, reason })
}

/// Parse a complete input as a progress line.
pub fn compiling(input: &str) -> (r: Result<CompilingProgress, SyntaxError>)
    ensures
        match compiling_at(input@, 0) {
            Step::Done(e, p) if e == input@.len() => r is Ok && r->Ok_0@ == p,
            _ => r is Err,
        },
{
    let s = chars_of(input);
    match scan_compiling(&s, 0) {
        Step::Done(e, p) => if e == s.len() {
            Ok(p)
        } else {
            Err(SyntaxError)
        },
        _ => Err(SyntaxError),
    }
}

} // verus!

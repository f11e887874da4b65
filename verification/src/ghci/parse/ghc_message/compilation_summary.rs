//! The compilation summary GHCi prints when compilation finishes:
//!
//! ```text
//! Ok, 123 modules loaded.
//! Failed, 58 modules loaded.
//! ```
use vstd::prelude::*;

use crate::ghci::parse::lines::{line_ending_or_eof_at, scan_line_ending_or_eof};
use crate::ghci::parse::scan::{parse_usize, scan_lit, starts_with_at, usize_at, lemma_digits_end, SyntaxError};
use crate::text::{chars_of, push_decimal, push_str, decimal_seq};
use crate::ghci::parse::scan::{digits_end, digits_value, is_digit};
use super::position::lemma_decimal_round_trip;

verus! {

/// The result of compiling modules in `ghci`.
#[derive(Debug, Clone, Copy, PartialEq, Eq, Structural)]
pub enum CompilationResult {
    /// All the modules compiled successfully.
    Succeeded,
    /// Some modules failed to compile/load.
    Failed,
}

/// How many modules were loaded.
#[derive(Debug, Clone, Copy, PartialEq, Eq, Structural)]
pub enum ModulesLoaded {
    /// The count of modules loaded.
    Count(usize),
    /// All modules were loaded, unknown count.
    All,
}

impl ModulesLoaded {
    /// The count in words, as written into error logs: the number, or `all`.
    pub fn to_string(&self) -> (r: String)
        ensures
            r@ == modules_loaded_text(*self),
    {
        let mut r = String::new();
        match self {
            ModulesLoaded::Count(n) => push_decimal(&mut r, *n),
            ModulesLoaded::All => push_str(&mut r, "all"),
        }
        r
    }
}

/// The text of a [`ModulesLoaded`]: the decimal count, or `all`.
pub open spec fn modules_loaded_text(m: ModulesLoaded) -> Seq<char> {
    match m {
        ModulesLoaded::Count(n) => decimal_seq(n as nat),
        ModulesLoaded::All => "all"@,
    }
}

/// Compilation finished.
#[derive(Debug, Clone, Copy, PartialEq, Eq, Structural)]
pub struct CompilationSummary {
    /// The compilation result; whether compilation succeeded or failed.
    pub result: CompilationResult,
    /// The count of modules loaded.
    pub modules_loaded: ModulesLoaded,
}

/// A module count at `i`: decimal digits (fitting a `usize`), or one of the words `no`, `one`,
/// ..., `six` that GHC uses for small counts.
pub open spec fn module_count_at(s: Seq<char>, i: int) -> Option<(int, nat)> {
    if usize_at(s, i) is Some {
        usize_at(s, i)
    } else if starts_with_at(s, i, "no"@) {
        Some((i + "no"@.len(), 0))
    } else if starts_with_at(s, i, "one"@) {
        Some((i + "one"@.len(), 1))
    } else if starts_with_at(s, i, "two"@) {
        Some((i + "two"@.len(), 2))
    } else if starts_with_at(s, i, "three"@) {
        Some((i + "three"@.len(), 3))
    } else if starts_with_at(s, i, "four"@) {
        Some((i + "four"@.len(), 4))
    } else if starts_with_at(s, i, "five"@) {
        Some((i + "five"@.len(), 5))
    } else if starts_with_at(s, i, "six"@) {
        Some((i + "six"@.len(), 6))
    } else {
        None
    }
}

/// The word GHC writes for a small module count: `no` for none, then `one` to `six`.
pub open spec fn count_word(n: nat) -> Seq<char> {
    if n == 0 {
        "no"@
    } else if n == 1 {
        "one"@
    } else if n == 2 {
        "two"@
    } else if n == 3 {
        "three"@
    } else if n == 4 {
        "four"@
    } else if n == 5 {
        "five"@
    } else {
        "six"@
    }
}

proof fn lemma_lit_differs(s: Seq<char>, i: int, lit: Seq<char>, k: int)
    requires
        0 <= k < lit.len(),
        0 <= i,
        i + k < s.len(),
        s[i + k] != lit[k],
    ensures
        !starts_with_at(s, i, lit),
{
    if starts_with_at(s, i, lit) {
        assert(s.subrange(i, i + lit.len())[k] == s[i + k]);
    }
}

proof fn lemma_lit_here(pre: Seq<char>, w: Seq<char>, rest: Seq<char>)
    ensures
        starts_with_at(pre + w + rest, pre.len() as int, w),
{
    assert((pre + w + rest).subrange(pre.len() as int, (pre.len() + w.len()) as int) =~= w);
}

/// A module count written as a word reads as the same number as when written in decimal:
/// wherever it stands and whatever non-digit follows, the word for `n` (up to six) and the
/// decimal digits of `n` both parse as a count, to the same number, which is `n`; so, for
/// instance, `Ok, five modules loaded.` and `Ok, 5 modules loaded.` give the same summary.
pub proof fn lemma_count_words_match_decimals(pre: Seq<char>, n: nat, rest: Seq<char>)
    requires
        n <= 6,
        rest.len() == 0 || !is_digit(rest[0]),
    ensures
        ({
            let word = module_count_at(pre + count_word(n) + rest, pre.len() as int);
            let decimal = module_count_at(pre + decimal_seq(n) + rest, pre.len() as int);
            &&& word is Some
            &&& decimal is Some
            &&& word.unwrap().1 == decimal.unwrap().1
            &&& decimal.unwrap().1 == n
            &&& word.unwrap().0 == pre.len() + count_word(n).len()
            &&& decimal.unwrap().0 == pre.len() + decimal_seq(n).len()
        }),
{
    reveal_strlit("no");
    reveal_strlit("one");
    reveal_strlit("two");
    reveal_strlit("three");
    reveal_strlit("four");
    reveal_strlit("five");
    reveal_strlit("six");
    let i = pre.len() as int;
    // The word form.
    let w = count_word(n);
    let s = pre + w + rest;
    lemma_lit_here(pre, w, rest);
    assert(s[i] == w[0]);
    assert(!is_digit(s[i]));
    assert(digits_end(s, i) == i);
    assert(usize_at(s, i) is None);
    if n != 0 {
        lemma_lit_differs(s, i, "no"@, 0);
    }
    if n > 1 {
        lemma_lit_differs(s, i, "one"@, 0);
    }
    if n == 3 {
        assert(s[i + 1] == w[1]);
        lemma_lit_differs(s, i, "two"@, 1);
    } else if n > 3 {
        lemma_lit_differs(s, i, "two"@, 0);
    }
    if n > 3 {
        lemma_lit_differs(s, i, "three"@, 0);
    }
    if n == 5 {
        assert(s[i + 1] == w[1]);
        lemma_lit_differs(s, i, "four"@, 1);
    } else if n > 5 {
        lemma_lit_differs(s, i, "four"@, 0);
    }
    if n > 5 {
        lemma_lit_differs(s, i, "five"@, 0);
    }
    // The decimal form: one digit, then no more digits.
    let d = decimal_seq(n);
    let t = pre + d + rest;
    lemma_decimal_round_trip(n);
    assert(d.len() == 1);
    assert(t[i] == d[0]);
    assert(is_digit(t[i]));
    if rest.len() > 0 {
        assert(t[i + 1] == rest[0]);
    }
    assert(digits_end(t, i + 1) == i + 1);
    assert(digits_end(t, i) == i + 1);
    assert(t.subrange(i, i + 1) =~= d);
}

/// The verb after `module(s) `: `loaded`, `reloaded`, `added`, `unadded` or `checked`.
pub open spec fn summary_verb_at(s: Seq<char>, i: int) -> Option<int> {
    if starts_with_at(s, i, "loaded"@) {
        Some(i + "loaded"@.len())
    } else if starts_with_at(s, i, "reloaded"@) {
        Some(i + "reloaded"@.len())
    } else if starts_with_at(s, i, "added"@) {
        Some(i + "added"@.len())
    } else if starts_with_at(s, i, "unadded"@) {
        Some(i + "unadded"@.len())
    } else if starts_with_at(s, i, "checked"@) {
        Some(i + "checked"@.len())
    } else {
        None
    }
}

/// `<count> module[s] <verb>` at `i`.
pub open spec fn summary_count_at(s: Seq<char>, i: int) -> Option<(int, ModulesLoaded)> {
    match module_count_at(s, i) {
        Some((a, n)) => if starts_with_at(s, a, " module"@) {
            let b = a + " module"@.len();
            let c = if starts_with_at(s, b, "s"@) {
                b + "s"@.len()
            } else {
                b
            };
            if starts_with_at(s, c, " "@) {
                match summary_verb_at(s, c + " "@.len()) {
                    Some(d) => Some((d, ModulesLoaded::Count(n as usize))),
                    None => None,
                }
            } else {
                None
            }
        } else {
            None
        },
        None => None,
    }
}

/// What was loaded, at `i`: `no modules to be reloaded` (none), `unloaded all modules` (all) or a
/// count.
pub open spec fn modules_loaded_at(s: Seq<char>, i: int) -> Option<(int, ModulesLoaded)> {
    if starts_with_at(s, i, "no modules to be reloaded"@) {
        Some((i + "no modules to be reloaded"@.len(), ModulesLoaded::Count(0)))
    } else if starts_with_at(s, i, "unloaded all modules"@) {
        Some((i + "unloaded all modules"@.len(), ModulesLoaded::All))
    } else {
        summary_count_at(s, i)
    }
}

/// A compilation summary at `i`: `Ok` or `Failed`, `", "`, what was loaded, `.`, and a line
/// ending or the end of the input.
pub open spec fn compilation_summary_at(s: Seq<char>, i: int) -> Option<(int, CompilationSummary)> {
    let r = if starts_with_at(s, i, "Ok"@) {
        Some((i + "Ok"@.len(), CompilationResult::Succeeded))
    } else if starts_with_at(s, i, "Failed"@) {
        Some((i + "Failed"@.len(), CompilationResult::Failed))
    } else {
        None
    };
    match r {
        Some((a, result)) => if starts_with_at(s, a, ", "@) {
            match modules_loaded_at(s, a + ", "@.len()) {
                Some((b, modules_loaded)) => if starts_with_at(s, b, "."@) {
                    match line_ending_or_eof_at(s, b + "."@.len()) {
                        Some(e) => Some((e, CompilationSummary { result, modules_loaded })),
                        None => None,
                    }
                } else {
                    None
                },
                None => None,
            }
        } else {
            None
        },
        None => None,
    }
}

fn scan_module_count(s: &Vec<char>, i: usize) -> (r: Option<(usize, usize)>)
    requires
        i <= s.len(),
    ensures
        match r {
            Some((e, n)) => module_count_at(s@, i as int) == Some((e as int, n as nat)) && e <= s.len(),
            None => module_count_at(s@, i as int) is None,
        },
{
    proof {
        lemma_digits_end(s@, i as int);
    }
    match parse_usize(s, i) {
        Some((e, n)) => return Some((e, n)),
        None => {},
    }
    if let Some(e) = scan_lit(s, i, "no") {
        return Some((e, 0));
    }
    if let Some(e) = scan_lit(s, i, "one") {
        return Some((e, 1));
    }
    if let Some(e) = scan_lit(s, i, "two") {
        return Some((e, 2));
    }
    if let Some(e) = scan_lit(s, i, "three") {
        return Some((e, 3));
    }
    if let Some(e) = scan_lit(s, i, "four") {
        return Some((e, 4));
    }
    if let Some(e) = scan_lit(s, i, "five") {
        return Some((e, 5));
    }
    if let Some(e) = scan_lit(s, i, "six") {
        return Some((e, 6));
    }
    None
}

fn scan_summary_verb(s: &Vec<char>, i: usize) -> (r: Option<usize>)
    requires
        i <= s.len(),
    ensures
        match r {
            Some(e) => summary_verb_at(s@, i as int) == Some(e as int) && e <= s.len(),
            None => summary_verb_at(s@, i as int) is None,
        },
{
    if let Some(e) = scan_lit(s, i, "loaded") {
        return Some(e);
    }
    if let Some(e) = scan_lit(s, i, "reloaded") {
        return Some(e);
    }
    if let Some(e) = scan_lit(s, i, "added") {
        return Some(e);
    }
    if let Some(e) = scan_lit(s, i, "unadded") {
        return Some(e);
    }
    if let Some(e) = scan_lit(s, i, "checked") {
        return Some(e);
    }
    None
}

fn scan_modules_loaded(s: &Vec<char>, i: usize) -> (r: Option<(usize, ModulesLoaded)>)
    requires
        i <= s.len(),
    ensures
        match r {
            Some((e, m)) => modules_loaded_at(s@, i as int) == Some((e as int, m)) && e <= s.len(),
            None => modules_loaded_at(s@, i as int) is None,
        },
{
    if let Some(e) = scan_lit(s, i, "no modules to be reloaded") {
        return Some((e, ModulesLoaded::Count(0)));
    }
    if let Some(e) = scan_lit(s, i, "unloaded all modules") {
        return Some((e, ModulesLoaded::All));
    }
    let (a, n) = match scan_module_count(s, i) {
        Some(x) => x,
        None => return None,
    };
    let b = match scan_lit(s, a, " module") {
        Some(b) => b,
        None => return None,
    };
    let c = match scan_lit(s, b, "s") {
        Some(c) => c,
        None => b,
    };
    let d = match scan_lit(s, c, " ") {
        Some(d) => d,
        None => return None,
    };
    match scan_summary_verb(s, d) {
        Some(e) => Some((e, ModulesLoaded::Count(n))),
        None => None,
    }
}

/// Parse a compilation summary at `i`; see [`compilation_summary_at`].
pub fn scan_compilation_summary(s: &Vec<char>, i: usize) -> (r: Option<(usize, CompilationSummary)>)
    requires
        i <= s.len(),
    ensures
        match r {
            Some((e, m)) => compilation_summary_at(s@, i as int) == Some((e as int, m)) && e <= s.len(),
            None => compilation_summary_at(s@, i as int) is None,
        },
{
    let (a, result) = if let Some(a) = scan_lit(s, i, "Ok") {
        (a, CompilationResult::Succeeded)
    } else if let Some(a) = scan_lit(s, i, "Failed") {
        (a, CompilationResult::Failed)
    } else {
        return None;
    };
    let b = match scan_lit(s, a, ", ") {
        Some(b) => b,
        None => return None,
    };
    let (c, modules_loaded) = match scan_modules_loaded(s, b) {
        Some(x) => x,
        None => return None,
    };
    let d = match scan_lit(s, c, ".") {
        Some(d) => d,
        None => return None,
    };
    match scan_line_ending_or_eof(s, d) {
        Some(e) => Some((e, CompilationSummary { result, modules_loaded })),
        None => None,
    }
}

/// Parse a complete input as a compilation summary.
pub fn compilation_summary(input: &str) -> (r: Result<CompilationSummary, SyntaxError>)
    ensures
        match compilation_summary_at(input@, 0) {
            Some((e, m)) if e == input@.len() => r == Ok::<CompilationSummary, SyntaxError>(m),
            _ => r is Err,
        },
{
    let s = chars_of(input);
    match scan_compilation_summary(&s, 0) {
        Some((e, m)) if e == s.len() => Ok(m),
        _ => Err(SyntaxError),
    }
}

} // verus!

//! Single-quoted portions of GHC output.
//!
//! If Unicode is supported and `GHC_NO_UNICODE` is unset, the output will be surrounded with
//! Unicode single quotes, like `‘puppy’`. Otherwise, the output will be surrounded with
//! "GNU-style" quotes, like `` `puppy' ``. However, if the quoted string starts or ends with an
//! ASCII single quote (`'`) and Unicode output is disabled, the quotes will be omitted entirely:
//!
//! ```text
//! puppy   -> `puppy'
//! puppy'  -> puppy'
//! 'puppy  -> 'puppy
//! 'puppy' -> 'puppy'
//! `puppy' -> `puppy'
//! ```
//!
//! The quoted output for the first and last examples is the same, so the output is ambiguous in
//! this case.
use vstd::prelude::*;

use crate::ghci::parse::scan::{SyntaxError, Step};
use crate::ghci::parse::transform_till::TextParser;
use crate::text::{chars_of, chars_of_range};

verus! {

/// The first index at or after `j` holding `q`, or the length of `s`.
pub open spec fn till_char(s: Seq<char>, j: int, q: char) -> int
    decreases s.len() - j,
{
    if j < 0 || j >= s.len() || s[j] == q {
        j
    } else {
        till_char(s, j + 1, q)
    }
}

pub proof fn lemma_till_char(s: Seq<char>, j: int, q: char)
    requires
        0 <= j <= s.len(),
    ensures
        j <= till_char(s, j, q) <= s.len(),
    decreases s.len() - j,
{
    if j < s.len() && s[j] != q {
        lemma_till_char(s, j + 1, q);
    }
}

/// One step over quoted text at `k`: a closing quote `q` and the text up to the next one, or one
/// or more characters up to the next `q`.
pub open spec fn quote_step(s: Seq<char>, k: int, q: char) -> Option<int> {
    if 0 <= k < s.len() {
        if s[k] == q {
            Some(till_char(s, k + 1, q))
        } else {
            Some(till_char(s, k, q))
        }
    } else {
        None
    }
}

/// The end of a quoted part: `inner` must consume all of `s[start..k]`, or the parse is cut.
pub open spec fn finish_quoted<I: TextParser>(
    inner: I,
    s: Seq<char>,
    start: int,
    k: int,
    e: int,
    end_out: Seq<char>,
) -> Step<int, (Seq<char>, Seq<char>)> {
    let slice = s.subrange(start, k);
    match inner.spec_parse(slice, 0) {
        Some((n, out)) => if n == slice.len() {
            Step::Done(e, (out, end_out))
        } else {
            Step::Cut
        },
        None => Step::Cut,
    }
}

/// Quoted text from `start`, now at `k`: it ends at the first closing quote `q` that `end`
/// follows.
pub open spec fn quoted_till<I: TextParser, E: TextParser>(
    inner: I,
    end: E,
    s: Seq<char>,
    start: int,
    k: int,
    q: char,
) -> Step<int, (Seq<char>, Seq<char>)>
    decreases s.len() - k,
{
    if k < start || k > s.len() {
        Step::Backtrack
    } else if k < s.len() && s[k] == q && end.spec_parse(s, k + 1) is Some {
        let (e, end_out) = end.spec_parse(s, k + 1)->0;
        finish_quoted(inner, s, start, k, e, end_out)
    } else {
        match quote_step(s, k, q) {
            Some(k2) => if k < k2 <= s.len() {
                quoted_till(inner, end, s, start, k2, q)
            } else {
                Step::Backtrack
            },
            None => Step::Backtrack,
        }
    }
}

/// Unquoted text from `start`, now at `k`: it ends at the first position where `end` applies.
pub open spec fn plain_till<I: TextParser, E: TextParser>(
    inner: I,
    end: E,
    s: Seq<char>,
    start: int,
    k: int,
) -> Step<int, (Seq<char>, Seq<char>)>
    decreases s.len() - k,
{
    if k < start || k > s.len() {
        Step::Backtrack
    } else {
        match end.spec_parse(s, k) {
            Some((e, end_out)) => finish_quoted(inner, s, start, k, e, end_out),
            None => if k < s.len() {
                plain_till(inner, end, s, start, k + 1)
            } else {
                Step::Backtrack
            },
        }
    }
}

/// A single-quoted part at `i` followed by `end`: after `‘`, the text up to a `’` that `end`
/// follows; after `` ` ``, the text up to a `'` that `end` follows; otherwise the unquoted text
/// up to where `end` applies. `inner` must take the whole text, or the parse is cut. Gives both
/// outputs.
pub open spec fn single_quoted_at<I: TextParser, E: TextParser>(
    inner: I,
    end: E,
    s: Seq<char>,
    i: int,
) -> Step<int, (Seq<char>, Seq<char>)> {
    if !(0 <= i < s.len()) {
        Step::Backtrack
    } else if s[i] == '‘' {
        quoted_till(inner, end, s, i + 1, i + 1, '’')
    } else if s[i] == '`' {
        quoted_till(inner, end, s, i + 1, i + 1, '\'')
    } else {
        plain_till(inner, end, s, i, i)
    }
}

fn scan_till_char(s: &Vec<char>, j: usize, q: char) -> (r: usize)
    requires
        j <= s.len(),
    ensures
        r == till_char(s@, j as int, q),
        j <= r <= s.len(),
{
    let mut k = j;
    while k < s.len() && s[k] != q
        invariant
            j <= k <= s.len(),
            till_char(s@, k as int, q) == till_char(s@, j as int, q),
        decreases s.len() - k,
    {
        k += 1;
    }
    k
}

fn scan_finish<I: TextParser>(
    inner: &I,
    s: &Vec<char>,
    start: usize,
    k: usize,
    e: usize,
    end_out: String,
) -> (r: Step<usize, (String, String)>)
    requires
        start <= k <= s.len(),
    ensures
        match r {
            Step::Done(n, (a, b)) => finish_quoted(*inner, s@, start as int, k as int, e as int, end_out@)
                == Step::<int, (Seq<char>, Seq<char>)>::Done(n as int, (a@, b@)) && n == e,
            Step::Backtrack => false,
            Step::Cut => finish_quoted(*inner, s@, start as int, k as int, e as int, end_out@) is Cut,
        },
{
    let slice = chars_of_range(s, start, k);
    match inner.parse(&slice, 0) {
        Some((n, out)) => if n == slice.len() {
            Step::Done(e, (out, end_out))
        } else {
            Step::Cut
        },
        None => Step::Cut,
    }
}

/// Parse a single-quoted part at `i` followed by `end`; see [`single_quoted_at`].
pub fn scan_single_quoted<I: TextParser, E: TextParser>(
    inner: &I,
    end: &E,
    s: &Vec<char>,
    i: usize,
) -> (r: Step<usize, (String, String)>)
    requires
        i <= s.len(),
    ensures
        match r {
            Step::Done(n, (a, b)) => single_quoted_at(*inner, *end, s@, i as int)
                == Step::<int, (Seq<char>, Seq<char>)>::Done(n as int, (a@, b@)) && n <= s.len(),
            Step::Backtrack => single_quoted_at(*inner, *end, s@, i as int) is Backtrack,
            Step::Cut => single_quoted_at(*inner, *end, s@, i as int) is Cut,
        },
{
    if i >= s.len() {
        return Step::Backtrack;
    }
    let first = s[i];
    if first == '‘' || first == '`' {
        let q = if first == '‘' {
            '’'
        } else {
            '\''
        };
        let start = i + 1;
        let mut k = start;
        loop
            invariant
                start <= k <= s.len(),
                start == i + 1,
                i < s.len(),
                q == (if s@[i as int] == '‘' {
                    '’'
                } else {
                    '\''
                }),
                s@[i as int] == '‘' || s@[i as int] == '`',
                single_quoted_at(*inner, *end, s@, i as int) == quoted_till(
                    *inner,
                    *end,
                    s@,
                    start as int,
                    k as int,
                    q,
                ),
            decreases s.len() - k,
        {
            if k < s.len() && s[k] == q {
                match end.parse(s, k + 1) {
                    Some((e, end_out)) => return scan_finish(inner, s, start, k, e, end_out),
                    None => {},
                }
            }
            if k >= s.len() {
                return Step::Backtrack;
            }
            let k2 = if s[k] == q {
                scan_till_char(s, k + 1, q)
            } else {
                scan_till_char(s, k, q)
            };
            assert(k < k2) by {
                if s@[k as int] != q {
                    assert(till_char(s@, k as int, q) == till_char(s@, k + 1, q));
                    lemma_till_char(s@, k + 1, q);
                }
            }
            k = k2;
        }
    } else {
        let mut k = i;
        loop
            invariant
                i <= k <= s.len(),
                i < s.len(),
                s@[i as int] != '‘' && s@[i as int] != '`',
                single_quoted_at(*inner, *end, s@, i as int) == plain_till(
                    *inner,
                    *end,
                    s@,
                    i as int,
                    k as int,
                ),
            decreases s.len() - k,
        {
            match end.parse(s, k) {
                Some((e, end_out)) => return scan_finish(inner, s, i, k, e, end_out),
                None => {},
            }
            if k >= s.len() {
                return Step::Backtrack;
            }
            k += 1;
        }
    }
}

/// Parse a complete input as a single-quoted part followed by `end`: both outputs.
pub fn single_quoted<I: TextParser, E: TextParser>(inner: &I, end: &E, input: &str) -> (r: Result<
    (String, String),
    SyntaxError,
>)
    ensures
        match single_quoted_at(*inner, *end, input@, 0) {
            Step::Done(n, (a, b)) if n == input@.len() => r matches Ok((x, y)) && x@ == a && y@ == b,
            _ => r is Err,
        },
{
    let s = chars_of(input);
    match scan_single_quoted(inner, end, &s, 0) {
        Step::Done(n, out) => if n == s.len() {
            Ok(out)
        } else {
            Err(SyntaxError)
        },
        _ => Err(SyntaxError),
    }
}

} // verus!

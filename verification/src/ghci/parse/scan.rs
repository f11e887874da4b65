//! Character-level building blocks for the parsers.
use vstd::prelude::*;

verus! {

/// `lit` occurs in `s` starting at index `i`.
pub open spec fn starts_with_at(s: Seq<char>, i: int, lit: Seq<char>) -> bool {
    0 <= i && i + lit.len() <= s.len() && s.subrange(i, i + lit.len()) == lit
}

/// An error from parsing a complete input.
#[derive(Debug, Clone, Copy, PartialEq, Eq)]
pub struct SyntaxError;

/// Does `lit` occur in `s` at index `i`?
pub fn lit_at(s: &Vec<char>, i: usize, lit: &Vec<char>) -> (r: bool)
    ensures
        r == starts_with_at(s@, i as int, lit@),
{
    if i > s.len() || lit.len() > s.len() - i {
        return false;
    }
    let mut k: usize = 0;
    while k < lit.len()
        invariant
            i + lit.len() <= s.len(),
            0 <= k <= lit.len(),
            forall|j: int| 0 <= j < k ==> s@[i + j] == lit@[j],
        decreases lit.len() - k,
    {
        if s[i + k] != lit[k] {
            assert(s@.subrange(i as int, i + lit.len())[k as int] != lit@[k as int]);
            return false;
        }
        k += 1;
    }
    assert(s@.subrange(i as int, i + lit.len()) =~= lit@);
    true
}

/// Does the string literal `lit` occur in `s` at index `i`?
pub fn str_at(s: &Vec<char>, i: usize, lit: &str) -> (r: bool)
    ensures
        r == starts_with_at(s@, i as int, lit@),
{
    let l = crate::text::chars_of(lit);
    lit_at(s, i, &l)
}

/// Space or tab, as in `space0`/`space1`.
pub open spec fn is_space(c: char) -> bool {
    c == ' ' || c == '\t'
}

/// The end of the run of spaces and tabs starting at `i`.
pub open spec fn spaces_end(s: Seq<char>, i: int) -> int
    decreases s.len() - i,
{
    if i < 0 || i >= s.len() || !is_space(s[i]) {
        i
    } else {
        spaces_end(s, i + 1)
    }
}

pub proof fn lemma_spaces_end(s: Seq<char>, i: int)
    requires
        0 <= i <= s.len(),
    ensures
        i <= spaces_end(s, i) <= s.len(),
        forall|k: int| i <= k < spaces_end(s, i) ==> is_space(s[k]),
        spaces_end(s, i) < s.len() ==> !is_space(s[spaces_end(s, i)]),
    decreases s.len() - i,
{
    if i < s.len() && is_space(s[i]) {
        lemma_spaces_end(s, i + 1);
    }
}

/// Skip spaces and tabs (`space0`).
pub fn skip_spaces(s: &Vec<char>, i: usize) -> (r: usize)
    requires
        i <= s.len(),
    ensures
        r == spaces_end(s@, i as int),
        i <= r <= s.len(),
{
    let mut j = i;
    while j < s.len() && (s[j] == ' ' || s[j] == '\t')
        invariant
            i <= j <= s.len(),
            spaces_end(s@, j as int) == spaces_end(s@, i as int),
        decreases s.len() - j,
    {
        j += 1;
    }
    j
}

/// One or more spaces or tabs (`space1`).
pub open spec fn space1_at(s: Seq<char>, i: int) -> Option<int> {
    if spaces_end(s, i) > i {
        Some(spaces_end(s, i))
    } else {
        None
    }
}

/// Decimal digit.
pub open spec fn is_digit(c: char) -> bool {
    '0' <= c && c <= '9'
}

/// Numeric value of a decimal digit character.
pub open spec fn digit_value(c: char) -> nat {
    (c as nat - '0' as nat) as nat
}

/// The end of the run of decimal digits starting at `i`.
pub open spec fn digits_end(s: Seq<char>, i: int) -> int
    decreases s.len() - i,
{
    if i < 0 || i >= s.len() || !is_digit(s[i]) {
        i
    } else {
        digits_end(s, i + 1)
    }
}

/// The number written by the decimal digits `t`.
pub open spec fn digits_value(t: Seq<char>) -> nat
    decreases t.len(),
{
    if t.len() == 0 {
        0
    } else {
        digits_value(t.drop_last()) * 10 + digit_value(t.last())
    }
}

pub proof fn lemma_digits_end(s: Seq<char>, i: int)
    requires
        0 <= i <= s.len(),
    ensures
        i <= digits_end(s, i) <= s.len(),
        forall|k: int| i <= k < digits_end(s, i) ==> is_digit(s[k]),
        digits_end(s, i) < s.len() ==> !is_digit(s[digits_end(s, i)]),
    decreases s.len() - i,
{
    if i < s.len() && is_digit(s[i]) {
        lemma_digits_end(s, i + 1);
    }
}

/// One or more decimal digits read as a `usize` (`digit1` parsed to `usize`): fails when there
/// is no digit or the value does not fit.
pub open spec fn usize_at(s: Seq<char>, i: int) -> Option<(int, nat)> {
    let e = digits_end(s, i);
    let v = digits_value(s.subrange(i, e));
    if e > i && v <= usize::MAX {
        Some((e, v))
    } else {
        None
    }
}

/// Parse one or more decimal digits into a `usize`.
pub fn parse_usize(s: &Vec<char>, i: usize) -> (r: Option<(usize, usize)>)
    requires
        i <= s.len(),
    ensures
        match r {
            Some((e, v)) => usize_at(s@, i as int) == Some((e as int, v as nat)),
            None => usize_at(s@, i as int) is None,
        },
{
    proof {
        lemma_digits_end(s@, i as int);
    }
    let ghost e = digits_end(s@, i as int);
    let mut j = i;
    let mut v: usize = 0;
    let mut overflow = false;
    while j < s.len() && '0' <= s[j] && s[j] <= '9'
        invariant
            i <= j <= e <= s.len(),
            e == digits_end(s@, i as int),
            e == digits_end(s@, j as int),
            forall|k: int| i <= k < e ==> is_digit(s@[k]),
            !overflow ==> v as nat == digits_value(s@.subrange(i as int, j as int)),
            overflow ==> digits_value(s@.subrange(i as int, j as int)) > usize::MAX,
        decreases s.len() - j,
    {
        let d = (s[j] as u32 - '0' as u32) as usize;
        proof {
            assert(s@.subrange(i as int, j + 1).drop_last() =~= s@.subrange(i as int, j as int));
        }
        if !overflow {
            if v > (usize::MAX - d) / 10 {
                overflow = true;
                assert(v * 10 + d > usize::MAX) by (nonlinear_arith)
                    requires
                        v > (usize::MAX - d) / 10,
                        d <= 9,
                ;
            } else {
                assert(v * 10 + d <= usize::MAX) by (nonlinear_arith)
                    requires
                        v <= (usize::MAX - d) / 10,
                        d <= 9,
                ;
                v = v * 10 + d;
            }
        } else {
            proof {
                let t = s@.subrange(i as int, j as int);
                let u = s@.subrange(i as int, j + 1);
                assert(digits_value(u) == digits_value(t) * 10 + digit_value(u.last()));
            }
        }
        proof {
            lemma_digits_end(s@, j + 1);
        }
        j += 1;
    }
    if j == i || overflow {
        None
    } else {
        Some((j, v))
    }
}

} // verus!

verus! {

/// The first index at or after `i` where `lit` occurs in `s`.
pub open spec fn find_from(s: Seq<char>, i: int, lit: Seq<char>) -> Option<int>
    decreases s.len() - i,
{
    if i < 0 || i > s.len() {
        None
    } else if starts_with_at(s, i, lit) {
        Some(i)
    } else if i == s.len() {
        None
    } else {
        find_from(s, i + 1, lit)
    }
}

pub proof fn lemma_find_from(s: Seq<char>, i: int, lit: Seq<char>)
    requires
        0 <= i <= s.len(),
    ensures
        find_from(s, i, lit) matches Some(q) ==> i <= q <= s.len() && starts_with_at(s, q, lit),
    decreases s.len() - i,
{
    if !starts_with_at(s, i, lit) && i < s.len() {
        lemma_find_from(s, i + 1, lit);
    }
}

/// Find the first occurrence of `lit` at or after `i`; see [`find_from`].
pub fn scan_find(s: &Vec<char>, i: usize, lit: &Vec<char>) -> (r: Option<usize>)
    requires
        i <= s.len(),
    ensures
        match r {
            Some(q) => find_from(s@, i as int, lit@) == Some(q as int) && i <= q <= s.len(),
            None => find_from(s@, i as int, lit@) is None,
        },
{
    let mut j = i;
    loop
        invariant
            i <= j <= s.len(),
            find_from(s@, j as int, lit@) == find_from(s@, i as int, lit@),
        decreases s.len() - j,
    {
        if lit_at(s, j, lit) {
            return Some(j);
        }
        if j == s.len() {
            return None;
        }
        j += 1;
    }
}

/// A Unicode `White_Space` character, as `char::is_whitespace` tests.
pub open spec fn is_whitespace(c: char) -> bool {
    ||| c == ' '
    ||| ('\u{9}' <= c && c <= '\u{d}')
    ||| c == '\u{85}'
    ||| c == '\u{a0}'
    ||| c == '\u{1680}'
    ||| ('\u{2000}' <= c && c <= '\u{200a}')
    ||| c == '\u{2028}'
    ||| c == '\u{2029}'
    ||| c == '\u{202f}'
    ||| c == '\u{205f}'
    ||| c == '\u{3000}'
}

/// Test [`is_whitespace`].
pub fn char_is_whitespace(c: char) -> (r: bool)
    ensures
        r == is_whitespace(c),
{
    c == ' ' || ('\u{9}' <= c && c <= '\u{d}') || c == '\u{85}' || c == '\u{a0}' || c
        == '\u{1680}' || ('\u{2000}' <= c && c <= '\u{200a}') || c == '\u{2028}' || c == '\u{2029}'
        || c == '\u{202f}' || c == '\u{205f}' || c == '\u{3000}'
}

/// `t` without leading whitespace.
pub open spec fn trim_start(t: Seq<char>) -> Seq<char>
    decreases t.len(),
{
    if t.len() > 0 && is_whitespace(t[0]) {
        trim_start(t.drop_first())
    } else {
        t
    }
}

/// `t` without trailing whitespace.
pub open spec fn trim_end(t: Seq<char>) -> Seq<char>
    decreases t.len(),
{
    if t.len() > 0 && is_whitespace(t.last()) {
        trim_end(t.drop_last())
    } else {
        t
    }
}

/// `t` without leading and trailing whitespace, as `str::trim` gives it.
pub open spec fn trim(t: Seq<char>) -> Seq<char> {
    trim_end(trim_start(t))
}

/// The range of `s[lo..hi]` left after trimming whitespace at both ends.
pub fn trim_range(s: &Vec<char>, lo: usize, hi: usize) -> (r: (usize, usize))
    requires
        lo <= hi <= s.len(),
    ensures
        lo <= r.0 <= r.1 <= hi,
        s@.subrange(r.0 as int, r.1 as int) == trim(s@.subrange(lo as int, hi as int)),
{
    let mut a = lo;
    while a < hi && char_is_whitespace(s[a])
        invariant
            lo <= a <= hi <= s.len(),
            trim_start(s@.subrange(lo as int, hi as int)) == trim_start(
                s@.subrange(a as int, hi as int),
            ),
        decreases hi - a,
    {
        assert(s@.subrange(a as int, hi as int).drop_first() =~= s@.subrange(a + 1, hi as int));
        a += 1;
    }
    let mut b = hi;
    while b > a && char_is_whitespace(s[b - 1])
        invariant
            lo <= a <= b <= hi <= s.len(),
            trim_start(s@.subrange(lo as int, hi as int)) == s@.subrange(a as int, hi as int),
            trim(s@.subrange(lo as int, hi as int)) == trim_end(s@.subrange(a as int, b as int)),
        decreases b - a,
    {
        assert(s@.subrange(a as int, b as int).drop_last() =~= s@.subrange(a as int, b - 1));
        b -= 1;
    }
    (a, b)
}

} // verus!

verus! {

/// The outcome of a parser that can fail in two ways: `Backtrack` lets an enclosing alternative
/// try something else, `Cut` aborts the enclosing parse.
pub enum Step<P, T> {
    /// Parsed, up to the position, giving the value.
    Done(P, T),
    /// This parser does not apply here.
    Backtrack,
    /// The input is malformed beyond recovery.
    Cut,
}

} // verus!

verus! {

/// Does an executable parse outcome agree with the grammar's outcome?
pub open spec fn opt_agrees<T: View>(r: Option<(usize, T)>, g: Option<(int, T::V)>) -> bool {
    match r {
        Some((e, v)) => g == Some((e as int, v@)),
        None => g is None,
    }
}

/// Parse `lit` at `i`, giving the index after it.
pub fn scan_lit(s: &Vec<char>, i: usize, lit: &str) -> (r: Option<usize>)
    requires
        i <= s.len(),
    ensures
        match r {
            Some(e) => starts_with_at(s@, i as int, lit@) && e == i + lit@.len() && e <= s.len(),
            None => !starts_with_at(s@, i as int, lit@),
        },
{
    if str_at(s, i, lit) {
        Some(i + crate::text::chars_of(lit).len())
    } else {
        None
    }
}

/// Parse one or more spaces or tabs at `i`; see [`space1_at`].
pub fn scan_space1(s: &Vec<char>, i: usize) -> (r: Option<usize>)
    requires
        i <= s.len(),
    ensures
        match r {
            Some(e) => space1_at(s@, i as int) == Some(e as int) && i < e <= s.len(),
            None => space1_at(s@, i as int) is None,
        },
{
    let e = skip_spaces(s, i);
    if e > i {
        Some(e)
    } else {
        None
    }
}

} // verus!

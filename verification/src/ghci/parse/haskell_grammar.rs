//! Elements of the Haskell grammar: module names.
//!
//! See "Lexical Structure" in "The Haskell 2010 Language".
use vstd::prelude::*;

use super::scan::SyntaxError;
use crate::text::{chars_of, string_of_range};

verus! {

/// An ASCII upper-case letter.
pub open spec fn is_upper(c: char) -> bool {
    'A' <= c && c <= 'Z'
}

/// A character allowed after the first letter of a constructor name.
pub open spec fn is_conid_char(c: char) -> bool {
    ('A' <= c && c <= 'Z') || ('a' <= c && c <= 'z') || ('0' <= c && c <= '9') || c == '\''
        || c == '_'
}

/// The end of the run of constructor-name characters starting at `i`.
pub open spec fn conid_end(s: Seq<char>, i: int) -> int
    decreases s.len() - i,
{
    if i < 0 || i >= s.len() || !is_conid_char(s[i]) {
        i
    } else {
        conid_end(s, i + 1)
    }
}

pub proof fn lemma_conid_end(s: Seq<char>, i: int)
    requires
        0 <= i <= s.len(),
    ensures
        i <= conid_end(s, i) <= s.len(),
        forall|k: int| i <= k < conid_end(s, i) ==> is_conid_char(s[k]),
        conid_end(s, i) < s.len() ==> !is_conid_char(s[conid_end(s, i)]),
    decreases s.len() - i,
{
    if i < s.len() && is_conid_char(s[i]) {
        lemma_conid_end(s, i + 1);
    }
}

/// After a constructor name ending at `e`: further `.`-separated constructor names.
pub open spec fn module_name_tail(s: Seq<char>, e: int) -> int
    decreases s.len() - e,
{
    if 0 <= e && e + 1 < s.len() && s[e] == '.' && is_upper(s[e + 1]) {
        proof {
            lemma_conid_end(s, e + 2);
        }
        module_name_tail(s, conid_end(s, e + 2))
    } else {
        e
    }
}

/// A module name (`modid`: constructor names separated by dots) at `i`; `Some` of its end.
///
/// The name extends as far as it can: a dot ends it unless an upper-case letter follows.
pub open spec fn module_name_at(s: Seq<char>, i: int) -> Option<int> {
    if 0 <= i < s.len() && is_upper(s[i]) {
        Some(module_name_tail(s, conid_end(s, i + 1)))
    } else {
        None
    }
}

/// `t` is a module name: constructor names, each starting with an upper-case letter, separated
/// by single dots.
pub open spec fn is_module_name(t: Seq<char>) -> bool {
    &&& t.len() > 0
    &&& is_upper(t[0])
    &&& forall|k: int| 0 <= k < t.len() ==> is_conid_char(#[trigger] t[k]) || t[k] == '.'
    &&& forall|k: int|
        0 <= k < t.len() && #[trigger] t[k] == '.' ==> k + 1 < t.len() && is_upper(t[k + 1])
}

pub proof fn lemma_module_name_tail(s: Seq<char>, start: int, e: int)
    requires
        0 <= start < e <= s.len(),
        is_module_name(s.subrange(start, e)),
        e < s.len() ==> !is_conid_char(s[e]),
    ensures
        e <= module_name_tail(s, e) <= s.len(),
        is_module_name(s.subrange(start, module_name_tail(s, e))),
        forall|e2: int|
            module_name_tail(s, e) < e2 <= s.len() ==> !is_module_name(
                #[trigger] s.subrange(start, e2),
            ),
    decreases s.len() - e,
{
    let t = s.subrange(start, e);
    if e + 1 < s.len() && s[e] == '.' && is_upper(s[e + 1]) {
        lemma_conid_end(s, e + 2);
        let e3 = conid_end(s, e + 2);
        let t3 = s.subrange(start, e3);
        assert forall|k: int| 0 <= k < t3.len() implies is_conid_char(#[trigger] t3[k])
            || t3[k] == '.' by {
            if k < t.len() {
                assert(t3[k] == t[k]);
            }
        }
        assert forall|k: int| 0 <= k < t3.len() && #[trigger] t3[k] == '.' implies k + 1
            < t3.len() && is_upper(t3[k + 1]) by {
            if k < t.len() {
                assert(t3[k] == t[k]);
                if k + 1 < t.len() {
                    assert(t3[k + 1] == t[k + 1]);
                }
            }
        }
        lemma_module_name_tail(s, start, e3);
    } else {
        assert forall|e2: int| e < e2 <= s.len() implies !is_module_name(
            #[trigger] s.subrange(start, e2),
        ) by {
            let t2 = s.subrange(start, e2);
            let k = e - start;
            assert(t2[k] == s[e]);
            if s[e] == '.' {
                if k + 1 < t2.len() {
                    assert(t2[k + 1] == s[e + 1]);
                }
            }
        }
    }
}

/// Module-name parsing gives the longest prefix that is a module name.
pub proof fn lemma_module_name_at_longest(s: Seq<char>, i: int)
    requires
        0 <= i <= s.len(),
    ensures
        module_name_at(s, i) matches Some(e) ==> {
            &&& i < e <= s.len()
            &&& is_module_name(s.subrange(i, e))
            &&& forall|e2: int| e < e2 <= s.len() ==> !is_module_name(#[trigger] s.subrange(i, e2))
        },
        module_name_at(s, i) is None ==> forall|e2: int|
            i < e2 <= s.len() ==> !is_module_name(#[trigger] s.subrange(i, e2)),
{
    if i < s.len() && is_upper(s[i]) {
        lemma_conid_end(s, i + 1);
        let e = conid_end(s, i + 1);
        let t = s.subrange(i, e);
        assert forall|k: int| 0 <= k < t.len() implies is_conid_char(#[trigger] t[k]) || t[k]
            == '.' by {
            assert(t[k] == s[i + k]);
        }
        assert forall|k: int| 0 <= k < t.len() && #[trigger] t[k] == '.' implies k + 1 < t.len()
            && is_upper(t[k + 1]) by {
            assert(t[k] == s[i + k]);
        }
        lemma_module_name_tail(s, i, e);
    } else {
        assert forall|e2: int| i < e2 <= s.len() implies !is_module_name(
            #[trigger] s.subrange(i, e2),
        ) by {
            assert(s.subrange(i, e2)[0] == s[i]);
        }
    }
}

fn scan_conid_end(s: &Vec<char>, i: usize) -> (r: usize)
    requires
        i <= s.len(),
    ensures
        r == conid_end(s@, i as int),
        i <= r <= s.len(),
{
    proof {
        lemma_conid_end(s@, i as int);
    }
    let mut j = i;
    while j < s.len() && (('A' <= s[j] && s[j] <= 'Z') || ('a' <= s[j] && s[j] <= 'z') || ('0'
        <= s[j] && s[j] <= '9') || s[j] == '\'' || s[j] == '_')
        invariant
            i <= j <= s.len(),
            conid_end(s@, j as int) == conid_end(s@, i as int),
        decreases s.len() - j,
    {
        j += 1;
    }
    j
}

/// Parse a module name at `i`; see [`module_name_at`].
pub fn scan_module_name(s: &Vec<char>, i: usize) -> (r: Option<usize>)
    requires
        i <= s.len(),
    ensures
        match r {
            Some(e) => module_name_at(s@, i as int) == Some(e as int),
            None => module_name_at(s@, i as int) is None,
        },
        r matches Some(e) ==> i < e <= s.len(),
{
    if i < s.len() && 'A' <= s[i] && s[i] <= 'Z' {
        let mut e = scan_conid_end(s, i + 1);
        while e < s.len() && s.len() - e > 1 && s[e] == '.' && 'A' <= s[e + 1] && s[e + 1] <= 'Z'
            invariant
                i < e <= s.len(),
                module_name_tail(s@, e as int) == module_name_tail(
                    s@,
                    conid_end(s@, i + 1),
                ),
            decreases s.len() - e,
        {
            e = scan_conid_end(s, e + 2);
        }
        Some(e)
    } else {
        None
    }
}

/// Parse a complete input as a Haskell module name.
pub fn module_name(input: &str) -> (r: Result<String, SyntaxError>)
    ensures
        module_name_at(input@, 0) == Some(input@.len() as int) ==> r is Ok && r->Ok_0@ == input@,
        module_name_at(input@, 0) != Some(input@.len() as int) ==> r is Err,
{
    let s = chars_of(input);
    match scan_module_name(&s, 0) {
        Some(e) if e == s.len() => {
            assert(s@.subrange(0, e as int) =~= s@);
            Ok(string_of_range(&s, 0, e))
        },
        _ => Err(SyntaxError),
    }
}

} // verus!

//! Haskell source file paths: file names, extensions and the Haskell source extensions.
//!
//! Paths are `/`-separated character sequences; file names and extensions follow the rules of
//! `std::path::Path`.
use vstd::prelude::*;

use crate::text::{chars_of, string_of_range};

verus! {

/// The largest index below `e` holding `/`, or `-1`.
pub open spec fn last_slash_before(p: Seq<char>, e: int) -> int
    decreases e,
{
    if e <= 0 || e > p.len() {
        -1
    } else if p[e - 1] == '/' {
        e - 1
    } else {
        last_slash_before(p, e - 1)
    }
}

pub proof fn lemma_last_slash_before(p: Seq<char>, e: int)
    requires
        0 <= e <= p.len(),
    ensures
        -1 <= last_slash_before(p, e) < e,
        last_slash_before(p, e) >= 0 ==> p[last_slash_before(p, e)] == '/',
        forall|k: int| last_slash_before(p, e) < k < e ==> p[k] != '/',
    decreases e,
{
    if e > 0 && p[e - 1] != '/' {
        lemma_last_slash_before(p, e - 1);
    }
}

/// The range of the file name within `p[..e]`: the last component that is neither empty nor
/// `.`; `None` when there is none or it is `..`.
pub open spec fn file_name_range(p: Seq<char>, e: int) -> Option<(int, int)>
    decreases e,
{
    if e <= 0 || e > p.len() {
        None
    } else {
        let k = last_slash_before(p, e);
        proof {
            lemma_last_slash_before(p, e);
        }
        let comp = p.subrange(k + 1, e);
        if comp.len() == 0 || comp == seq!['.'] {
            if k < 0 {
                None
            } else {
                file_name_range(p, k)
            }
        } else if comp == seq!['.', '.'] {
            None
        } else {
            Some((k + 1, e))
        }
    }
}

/// The final component of the path, as `Path::file_name` gives it.
pub open spec fn file_name(p: Seq<char>) -> Option<Seq<char>> {
    match file_name_range(p, p.len() as int) {
        Some((a, b)) => Some(p.subrange(a, b)),
        None => None,
    }
}

/// The largest index of `.` in `f`, or `-1`.
pub open spec fn last_dot(f: Seq<char>, e: int) -> int
    decreases e,
{
    if e <= 0 || e > f.len() {
        -1
    } else if f[e - 1] == '.' {
        e - 1
    } else {
        last_dot(f, e - 1)
    }
}

pub proof fn lemma_last_dot(f: Seq<char>, e: int)
    requires
        0 <= e <= f.len(),
    ensures
        -1 <= last_dot(f, e) < e,
        last_dot(f, e) >= 0 ==> f[last_dot(f, e)] == '.',
        forall|k: int| last_dot(f, e) < k < e ==> f[k] != '.',
    decreases e,
{
    if e > 0 && f[e - 1] != '.' {
        lemma_last_dot(f, e - 1);
    }
}

/// The extension of the path, as `Path::extension` gives it: the part of the file name after
/// its last dot, unless there is no dot or the only dot leads the name.
pub open spec fn extension(p: Seq<char>) -> Option<Seq<char>> {
    match file_name(p) {
        Some(f) => {
            let d = last_dot(f, f.len() as int);
            if d <= 0 {
                None
            } else {
                Some(f.subrange(d + 1, f.len() as int))
            }
        },
        None => None,
    }
}

/// Is `p` a Haskell source file, with extension `hs` or `lhs`?
pub open spec fn is_haskell_source_path(p: Seq<char>) -> bool {
    extension(p) == Some(seq!['h', 's']) || extension(p) == Some(seq!['l', 'h', 's'])
}

fn scan_last_slash_before(p: &Vec<char>, e: usize) -> (k: Option<usize>)
    requires
        e <= p.len(),
    ensures
        match k {
            Some(k) => k == last_slash_before(p@, e as int),
            None => last_slash_before(p@, e as int) == -1,
        },
{
    let mut j = e;
    while j > 0 && p[j - 1] != '/'
        invariant
            j <= e <= p.len(),
            last_slash_before(p@, j as int) == last_slash_before(p@, e as int),
        decreases j,
    {
        j -= 1;
    }
    if j == 0 {
        None
    } else {
        Some(j - 1)
    }
}

fn scan_file_name_range(p: &Vec<char>) -> (r: Option<(usize, usize)>)
    ensures
        match r {
            Some((a, b)) => file_name_range(p@, p@.len() as int) == Some((a as int, b as int)),
            None => file_name_range(p@, p@.len() as int) is None,
        },
        r matches Some((a, b)) ==> a <= b <= p.len(),
{
    let mut e = p.len();
    loop
        invariant
            e <= p.len(),
            file_name_range(p@, e as int) == file_name_range(p@, p@.len() as int),
        decreases e,
    {
        if e == 0 {
            return None;
        }
        let k = scan_last_slash_before(p, e);
        proof {
            lemma_last_slash_before(p@, e as int);
        }
        let st = match k {
            Some(k) => k + 1,
            None => 0,
        };
        let len = e - st;
        let ghost comp = p@.subrange(st as int, e as int);
        let is_dot = len == 1 && p[st] == '.';
        let is_dotdot = len == 2 && p[st] == '.' && p[st + 1] == '.';
        proof {
            if len == 1 {
                assert(is_dot <==> comp == seq!['.']) by {
                    if comp == seq!['.'] {
                        assert(comp[0] == p@[st as int]);
                    }
                    if is_dot {
                        assert(comp =~= seq!['.']);
                    }
                }
            } else {
                assert(comp != seq!['.']) by {
                    assert(comp.len() != 1);
                }
            }
            if len == 2 {
                assert(is_dotdot <==> comp == seq!['.', '.']) by {
                    if comp == seq!['.', '.'] {
                        assert(comp[0] == p@[st as int] && comp[1] == p@[st + 1]);
                    }
                    if is_dotdot {
                        assert(comp =~= seq!['.', '.']);
                    }
                }
            } else {
                assert(comp != seq!['.', '.']) by {
                    assert(comp.len() != 2);
                }
            }
        }
        if len == 0 || is_dot {
            match k {
                Some(k) => {
                    e = k;
                },
                None => {
                    return None;
                },
            }
        } else if is_dotdot {
            return None;
        } else {
            return Some((st, e));
        }
    }
}

fn scan_last_dot(f: &Vec<char>, lo: usize, hi: usize) -> (d: Option<usize>)
    requires
        lo <= hi <= f.len(),
    ensures
        match d {
            Some(d) => d == last_dot(f@.subrange(lo as int, hi as int), (hi - lo) as int),
            None => last_dot(f@.subrange(lo as int, hi as int), (hi - lo) as int) == -1,
        },
{
    let ghost g = f@.subrange(lo as int, hi as int);
    let mut j = hi;
    while j > lo && f[j - 1] != '.'
        invariant
            lo <= j <= hi <= f.len(),
            g == f@.subrange(lo as int, hi as int),
            last_dot(g, (j - lo) as int) == last_dot(g, (hi - lo) as int),
        decreases j,
    {
        assert(g[j - 1 - lo] == f@[j - 1]);
        j -= 1;
    }
    if j == lo {
        None
    } else {
        assert(g[j - 1 - lo] == f@[j - 1]);
        Some(j - 1 - lo)
    }
}

/// Is `path` a Haskell source file (extension `hs` or `lhs`)?
pub fn is_haskell_source_file(path: &str) -> (r: bool)
    ensures
        r == is_haskell_source_path(path@),
{
    let p = chars_of(path);
    is_haskell_source_chars(&p)
}

/// Is the path `p` a Haskell source file (extension `hs` or `lhs`)?
pub fn is_haskell_source_chars(p: &Vec<char>) -> (r: bool)
    ensures
        r == is_haskell_source_path(p@),
{
    match extension_range(p) {
        Some((a, b)) => {
            let ghost x = p@.subrange(a as int, b as int);
            let hs = b - a == 2 && p[a] == 'h' && p[a + 1] == 's';
            let lhs = b - a == 3 && p[a] == 'l' && p[a + 1] == 'h' && p[a + 2] == 's';
            proof {
                if b - a == 2 {
                    assert(hs <==> x == seq!['h', 's']) by {
                        if x == seq!['h', 's'] {
                            assert(x[0] == p@[a as int] && x[1] == p@[a + 1]);
                        }
                        if hs {
                            assert(x =~= seq!['h', 's']);
                        }
                    }
                } else {
                    assert(x != seq!['h', 's']) by {
                        assert(x.len() != 2);
                    }
                }
                if b - a == 3 {
                    assert(lhs <==> x == seq!['l', 'h', 's']) by {
                        if x == seq!['l', 'h', 's'] {
                            assert(x[0] == p@[a as int] && x[1] == p@[a + 1] && x[2] == p@[a + 2]);
                        }
                        if lhs {
                            assert(x =~= seq!['l', 'h', 's']);
                        }
                    }
                } else {
                    assert(x != seq!['l', 'h', 's']) by {
                        assert(x.len() != 3);
                    }
                }
            }
            hs || lhs
        },
        None => false,
    }
}

/// The range of the extension of `p`; see [`extension`].
pub fn extension_range(p: &Vec<char>) -> (r: Option<(usize, usize)>)
    ensures
        match r {
            Some((a, b)) => a <= b <= p.len() && extension(p@) == Some(p@.subrange(a as int, b as int))
                && (file_name_range(p@, p@.len() as int) matches Some((x, y)) && b == y && x + 1 < a),
            None => extension(p@) is None,
        },
{
    match scan_file_name_range(p) {
        Some((a, b)) => {
            let d = scan_last_dot(p, a, b);
            proof {
                lemma_last_dot(p@.subrange(a as int, b as int), (b - a) as int);
            }
            let d = match d {
                Some(d) => d,
                None => return None,
            };
            if d == 0 {
                None
            } else {
                let st = a + d + 1;
                assert(p@.subrange(a as int, b as int).subrange(d + 1, (b - a) as int) =~= p@.subrange(st as int, b as int));
                Some((st, b))
            }
        },
        None => None,
    }
}

/// The file name of `path`, if any; see [`file_name`].
pub fn file_name_of(path: &str) -> (r: Option<String>)
    ensures
        match file_name(path@) {
            Some(f) => r is Some && r->0@ == f,
            None => r is None,
        },
{
    let p = chars_of(path);
    match scan_file_name_range(&p) {
        Some((a, b)) => Some(string_of_range(&p, a, b)),
        None => None,
    }
}

} // verus!

verus! {

/// The path with its extension removed, as `Path::with_extension("")` gives it: cut right after
/// the file stem; unchanged when there is no file name.
pub open spec fn stem_path(p: Seq<char>) -> Seq<char> {
    match file_name_range(p, p.len() as int) {
        Some((a, b)) => match extension(p) {
            Some(e) => p.subrange(0, b - e.len() - 1),
            None => p.subrange(0, b),
        },
        None => p,
    }
}

/// Remove the path's extension; see [`stem_path`].
pub fn strip_extension(p: &Vec<char>) -> (r: Vec<char>)
    ensures
        r@ == stem_path(p@),
{
    match scan_file_name_range(p) {
        Some((a, b)) => match extension_range(p) {
            Some((st, b2)) => {
                crate::text::chars_of_range(p, 0, st - 1)
            },
            None => crate::text::chars_of_range(p, 0, b),
        },
        None => crate::text::chars_of_range(p, 0, p.len()),
    }
}

} // verus!

//! `:show paths` output: the working directory and the module import search paths.
use vstd::prelude::*;

use super::lines::{scan_until_newline, until_newline_at};
use super::scan::{
    lemma_spaces_end, scan_lit, scan_space1, skip_spaces, space1_at, spaces_end, starts_with_at,
    SyntaxError,
};
use crate::haskell_source_file::{stem_path, strip_extension};
use crate::path_order::{relative_path_to, relative_to};
use crate::text::{chars_of, push_char, push_str, string_of_range, unique_seq, unique_strings, views};

verus! {

/// Is the path relative (not starting at the root)?
pub open spec fn is_relative(p: Seq<char>) -> bool {
    !(p.len() > 0 && p[0] == '/')
}

/// `base` joined with `p`, as `Path::join` does it: an absolute `p` replaces `base`; otherwise
/// a `/` separates them unless `base` is empty or already ends with one.
pub open spec fn path_join(base: Seq<char>, p: Seq<char>) -> Seq<char> {
    if !is_relative(p) || base.len() == 0 {
        p
    } else if base.last() == '/' {
        base + p
    } else {
        base + seq!['/'] + p
    }
}

/// Join two paths; see [`path_join`].
pub fn join_path(base: &str, p: &str) -> (r: String)
    ensures
        r@ == path_join(base@, p@),
{
    let b = chars_of(base);
    let q = chars_of(p);
    let mut r = String::new();
    if (q.len() > 0 && q[0] == '/') || b.len() == 0 {
        push_str(&mut r, p);
        return r;
    }
    push_str(&mut r, base);
    if b[b.len() - 1] != '/' {
        push_char(&mut r, '/');
    }
    push_str(&mut r, p);
    r
}

/// Parsed `:show paths` output.
#[derive(Debug, Clone, PartialEq, Eq)]
pub struct ShowPaths {
    /// The current working directory.
    pub cwd: String,
    /// Module import search paths.
    pub search_paths: Vec<String>,
}

/// The contents of a [`ShowPaths`].
pub struct ShowPathsView {
    pub cwd: Seq<char>,
    pub search_paths: Seq<Seq<char>>,
}

impl View for ShowPaths {
    type V = ShowPathsView;

    open spec fn view(&self) -> ShowPathsView {
        ShowPathsView { cwd: self.cwd@, search_paths: views(self.search_paths@) }
    }
}

/// The search path lines from `i` on: each is spaces and then the path on the rest of the line; a
/// relative path is joined to `cwd`. Gives the paths and where the lines stop.
pub open spec fn search_path_lines(s: Seq<char>, i: int, cwd: Seq<char>) -> (Seq<Seq<char>>, int)
    decreases s.len() - i,
{
    match space1_at(s, i) {
        Some(a) => match until_newline_at(s, a) {
            Some((j, n)) => if 0 <= i < n <= s.len() {
                let p = s.subrange(a, j);
                let path = if is_relative(p) {
                    path_join(cwd, p)
                } else {
                    p
                };
                let rest = search_path_lines(s, n, cwd);
                (seq![path] + rest.0, rest.1)
            } else {
                (Seq::empty(), i)
            },
            None => (Seq::empty(), i),
        },
        None => (Seq::empty(), i),
    }
}

/// `:show paths` output at the start of `s`: `current working directory:`, optional spaces, a
/// newline, optional spaces, the working directory on the rest of the line,
/// `module import search paths:`, and then either ` none` and a newline, or a newline and the
/// search path lines.
pub open spec fn show_paths_at(s: Seq<char>) -> Option<(int, ShowPathsView)> {
    let h1 = "current working directory:"@;
    let h2 = "module import search paths:"@;
    if !starts_with_at(s, 0, h1) {
        None
    } else {
        let b = spaces_end(s, h1.len() as int);
        if !(b < s.len() && s[b] == '\n') {
            None
        } else {
            let d = spaces_end(s, b + 1);
            match until_newline_at(s, d) {
                Some((j, n)) => {
                    let cwd = s.subrange(d, j);
                    if !starts_with_at(s, n, h2) {
                        None
                    } else {
                        let e = n + h2.len();
                        if starts_with_at(s, e, " none\n"@) {
                            Some((e + " none\n"@.len(), ShowPathsView { cwd, search_paths: Seq::empty() }))
                        } else if e < s.len() && s[e] == '\n' {
                            let (paths, g) = search_path_lines(s, e + 1, cwd);
                            Some((g, ShowPathsView { cwd, search_paths: paths }))
                        } else {
                            None
                        }
                    }
                },
                None => None,
            }
        }
    }
}

/// Parse a complete `:show paths` output; see [`show_paths_at`].
pub fn show_paths(input: &str) -> (r: Result<ShowPaths, SyntaxError>)
    ensures
        match show_paths_at(input@) {
            Some((e, v)) if e == input@.len() => r is Ok && r->Ok_0@ == v,
            _ => r is Err,
        },
{
    let s = chars_of(input);
    let a = match scan_lit(&s, 0, "current working directory:") {
        Some(a) => a,
        None => return Err(SyntaxError),
    };
    proof {
        lemma_spaces_end(s@, a as int);
    }
    let b = skip_spaces(&s, a);
    if !(b < s.len() && s[b] == '\n') {
        return Err(SyntaxError);
    }
    proof {
        lemma_spaces_end(s@, b + 1);
    }
    let d = skip_spaces(&s, b + 1);
    let (j, n) = match scan_until_newline(&s, d) {
        Some(x) => x,
        None => return Err(SyntaxError),
    };
    let cwd = string_of_range(&s, d, j);
    let e = match scan_lit(&s, n, "module import search paths:") {
        Some(e) => e,
        None => return Err(SyntaxError),
    };
    if let Some(g) = scan_lit(&s, e, " none\n") {
        if g == s.len() {
            let search_paths: Vec<String> = Vec::new();
            assert(views(search_paths@) =~= Seq::<Seq<char>>::empty());
            return Ok(ShowPaths { cwd, search_paths });
        } else {
            return Err(SyntaxError);
        }
    }
    if !(e < s.len() && s[e] == '\n') {
        return Err(SyntaxError);
    }
    let mut paths: Vec<String> = Vec::new();
    let c0 = e + 1;
    let mut c = c0;
    loop
        invariant
            c0 <= c <= s.len(),
            cwd@ == s@.subrange(d as int, j as int),
            search_path_lines(s@, c0 as int, cwd@).1 == search_path_lines(s@, c as int, cwd@).1,
            search_path_lines(s@, c0 as int, cwd@).0 == views(paths@) + search_path_lines(
                s@,
                c as int,
                cwd@,
            ).0,
        ensures
            c0 <= c <= s.len(),
            search_path_lines(s@, c0 as int, cwd@).1 == c,
            search_path_lines(s@, c0 as int, cwd@).0 == views(paths@),
        decreases s.len() - c,
    {
        let a = match scan_space1(&s, c) {
            Some(a) => a,
            None => {
                assert(search_path_lines(s@, c as int, cwd@).0 =~= Seq::<Seq<char>>::empty());
                assert(views(paths@) + Seq::<Seq<char>>::empty() =~= views(paths@));
                break;
            },
        };
        let (j2, n2) = match scan_until_newline(&s, a) {
            Some(x) => x,
            None => {
                assert(search_path_lines(s@, c as int, cwd@).0 =~= Seq::<Seq<char>>::empty());
                assert(views(paths@) + Seq::<Seq<char>>::empty() =~= views(paths@));
                break;
            },
        };
        let p = string_of_range(&s, a, j2);
        let is_rel = !(a < j2 && s[a] == '/');
        assert(is_rel == crate::ghci::parse::show_paths::is_relative(p@)) by {
            if a < j2 {
                assert(p@[0] == s@[a as int]);
            }
        }
        let path = if is_rel {
            join_path(cwd.as_str(), p.as_str())
        } else {
            p
        };
        let ghost before = views(paths@);
        paths.push(path);
        assert(views(paths@) =~= before.push(path@));
        assert(search_path_lines(s@, c as int, cwd@).0 =~= seq![path@] + search_path_lines(
            s@,
            n2 as int,
            cwd@,
        ).0);
        assert(before + search_path_lines(s@, c as int, cwd@).0 =~= views(paths@)
            + search_path_lines(s@, n2 as int, cwd@).0);
        c = n2;
    }
    if c == s.len() {
        Ok(ShowPaths { cwd, search_paths: paths })
    } else {
        Err(SyntaxError)
    }
}

/// Parse `:show paths` output into the working directory and the search paths, each search path
/// once (in order of first appearance).
pub fn parse_show_paths(input: &str) -> (r: Result<ShowPaths, SyntaxError>)
    ensures
        match show_paths_at(input@) {
            Some((e, v)) if e == input@.len() => r is Ok && r->Ok_0@ == (ShowPathsView {
                cwd: v.cwd,
                search_paths: unique_seq(v.search_paths),
            }),
            _ => r is Err,
        },
{
    let parsed = show_paths(input)?;
    let search_paths = unique_strings(&parsed.search_paths);
    Ok(ShowPaths { cwd: parsed.cwd, search_paths })
}

} // verus!

verus! {

/// Why a path could not be resolved.
#[derive(Debug, Clone, Copy, PartialEq, Eq, Structural)]
pub enum PathError {
    /// No source file was found for a target.
    SourceNotFound,
    /// The path is under none of the search paths.
    NotUnderSearchPath,
}

/// The search paths, then the working directory: where module paths are looked for.
pub open spec fn search_order(sp: ShowPathsView) -> Seq<Seq<char>> {
    sp.search_paths.push(sp.cwd)
}

/// `p` without the prefix `prefix`, if it starts with it.
pub open spec fn strip_prefix(p: Seq<char>, prefix: Seq<char>) -> Option<Seq<char>> {
    if starts_with_at(p, 0, prefix) {
        Some(p.subrange(prefix.len() as int, p.len() as int))
    } else {
        None
    }
}

/// The rest of `p` after the first of `prefixes` (from index `k` on) that it starts with.
pub open spec fn first_strip(prefixes: Seq<Seq<char>>, k: int, p: Seq<char>) -> Option<Seq<char>>
    decreases prefixes.len() - k,
{
    if k < 0 || k >= prefixes.len() {
        None
    } else {
        match strip_prefix(p, prefixes[k]) {
            Some(rest) => Some(rest),
            None => first_strip(prefixes, k + 1, p),
        }
    }
}

/// The normal components of the path `t[i..]`: the pieces between `/`s that are not empty, `.`
/// or `..`.
pub open spec fn normal_parts(t: Seq<char>, i: int) -> Seq<Seq<char>>
    decreases t.len() - i,
{
    if i < 0 || i > t.len() {
        Seq::empty()
    } else {
        let q = match super::scan::find_from(t, i, "/"@) {
            Some(q) => q,
            None => t.len() as int,
        };
        proof {
            super::scan::lemma_find_from(t, i, "/"@);
        }
        let piece = t.subrange(i, q);
        let rest = if q < t.len() {
            normal_parts(t, q + 1)
        } else {
            Seq::empty()
        };
        if piece.len() == 0 || piece == "."@ || piece == ".."@ {
            rest
        } else {
            seq![piece] + rest
        }
    }
}

/// The pieces joined with `sep` between them.
pub open spec fn join_with(parts: Seq<Seq<char>>, sep: char) -> Seq<char>
    decreases parts.len(),
{
    if parts.len() == 0 {
        Seq::empty()
    } else if parts.len() == 1 {
        parts[0]
    } else {
        join_with(parts.drop_last(), sep) + seq![sep] + parts.last()
    }
}

/// The module name of a Haskell source path: without its extension and the first search path
/// (or else the working directory) it starts with, its normal components joined with dots.
pub open spec fn module_of_path(sp: ShowPathsView, path: Seq<char>) -> Option<Seq<char>> {
    match first_strip(search_order(sp), 0, stem_path(path)) {
        Some(rest) => Some(join_with(normal_parts(rest, 0), '.')),
        None => None,
    }
}

fn strip_prefix_chars(p: &Vec<char>, prefix: &str) -> (r: Option<usize>)
    ensures
        match r {
            Some(k) => strip_prefix(p@, prefix@) == Some(p@.subrange(k as int, p.len() as int))
                && k <= p.len(),
            None => strip_prefix(p@, prefix@) is None,
        },
{
    if super::scan::str_at(p, 0, prefix) {
        Some(chars_of(prefix).len())
    } else {
        None
    }
}

fn normal_parts_of(t: &Vec<char>) -> (r: Vec<String>)
    ensures
        views(r@) == normal_parts(t@, 0),
{
    let slash = chars_of("/");
    proof {
        reveal_strlit("/");
        reveal_strlit(".");
        reveal_strlit("..");
    }
    let mut out: Vec<String> = Vec::new();
    let mut i: usize = 0;
    loop
        invariant
            i <= t.len(),
            slash@ == "/"@,
            normal_parts(t@, 0) == views(out@) + normal_parts(t@, i as int),
        decreases t.len() - i,
    {
        proof {
            super::scan::lemma_find_from(t@, i as int, slash@);
        }
        let q = match super::scan::scan_find(t, i, &slash) {
            Some(q) => q,
            None => t.len(),
        };
        let piece = crate::text::chars_of_range(t, i, q);
        let skip = piece.len() == 0 || (piece.len() == 1 && piece[0] == '.') || (piece.len() == 2
            && piece[0] == '.' && piece[1] == '.');
        assert(skip == (piece@.len() == 0 || piece@ == "."@ || piece@ == ".."@)) by {
            reveal_strlit(".");
            reveal_strlit("..");
            if piece@ == "."@ {
                assert(piece@[0] == "."@[0]);
            }
            if piece@ == ".."@ {
                assert(piece@[0] == ".."@[0] && piece@[1] == ".."@[1]);
            }
            if piece.len() == 1 && piece@[0] == '.' {
                assert(piece@ =~= "."@);
            }
            if piece.len() == 2 && piece@[0] == '.' && piece@[1] == '.' {
                assert(piece@ =~= ".."@);
            }
        }
        let ghost before = views(out@);
        if !skip {
            let s = string_of_range(&piece, 0, piece.len());
            assert(piece@.subrange(0, piece.len() as int) =~= piece@);
            out.push(s);
            assert(views(out@) =~= before.push(piece@));
        }
        if q < t.len() {
            assert(before + normal_parts(t@, i as int) =~= views(out@) + normal_parts(t@, q + 1));
            i = q + 1;
        } else {
            assert(normal_parts(t@, i as int) =~= (if skip {
                Seq::<Seq<char>>::empty()
            } else {
                seq![piece@]
            }));
            assert(before + normal_parts(t@, i as int) =~= views(out@));
            return out;
        }
    }
}

fn join_strings(parts: &Vec<String>, sep: char) -> (r: String)
    ensures
        r@ == join_with(views(parts@), sep),
{
    let ghost ps = views(parts@);
    let mut r = String::new();
    let mut k: usize = 0;
    while k < parts.len()
        invariant
            0 <= k <= parts.len(),
            ps == views(parts@),
            r@ == join_with(ps.take(k as int), sep),
        decreases parts.len() - k,
    {
        assert(ps.take(k + 1).drop_last() =~= ps.take(k as int));
        assert(ps[k as int] == parts@[k as int]@);
        if k > 0 {
            push_char(&mut r, sep);
        }
        push_str(&mut r, parts[k].as_str());
        proof {
            if k == 0 {
                assert(r@ =~= join_with(ps.take(1), sep));
            } else {
                assert(r@ =~= join_with(ps.take(k + 1), sep));
            }
        }
        k += 1;
    }
    assert(ps.take(parts.len() as int) =~= ps);
    r
}

impl ShowPaths {
    /// The places modules are looked for: the search paths, then the working directory.
    pub fn paths(&self) -> (r: Vec<String>)
        ensures
            views(r@) == search_order(self@),
    {
        let mut r: Vec<String> = Vec::new();
        let mut k: usize = 0;
        while k < self.search_paths.len()
            invariant
                0 <= k <= self.search_paths.len(),
                views(r@) == views(self.search_paths@).take(k as int),
            decreases self.search_paths.len() - k,
        {
            let ghost before = views(r@);
            r.push(self.search_paths[k].clone());
            assert(views(r@) =~= before.push(self.search_paths@[k as int]@));
            assert(views(self.search_paths@).take(k + 1) =~= views(self.search_paths@).take(
                k as int,
            ).push(self.search_paths@[k as int]@));
            k += 1;
        }
        assert(views(self.search_paths@).take(k as int) =~= views(self.search_paths@));
        let ghost before = views(r@);
        r.push(self.cwd.clone());
        assert(views(r@) =~= before.push(self.cwd@));
        r
    }

    /// Convert a Haskell source path to a module name; see [`module_of_path`].
    pub fn path_to_module(&self, path: &str) -> (r: Result<String, PathError>)
        ensures
            match module_of_path(self@, path@) {
                Some(m) => r is Ok && r->Ok_0@ == m,
                None => r == Err::<String, PathError>(PathError::NotUnderSearchPath),
            },
    {
        let p = chars_of(path);
        let stem = strip_extension(&p);
        let ghost order = search_order(self@);
        let mut k: usize = 0;
        while k < self.search_paths.len()
            invariant
                0 <= k <= self.search_paths.len(),
                order == search_order(self@),
                stem@ == stem_path(path@),
                first_strip(order, 0, stem@) == first_strip(order, k as int, stem@),
            decreases self.search_paths.len() - k,
        {
            let prefix = self.search_paths[k].as_str();
            assert(prefix@ == order[k as int]);
            match strip_prefix_chars(&stem, prefix) {
                Some(start) => {
                    let rest = crate::text::chars_of_range(&stem, start, stem.len());
                    let parts = normal_parts_of(&rest);
                    return Ok(join_strings(&parts, '.'));
                },
                None => {},
            }
            k += 1;
        }
        assert(order[k as int] == self.cwd@);
        match strip_prefix_chars(&stem, self.cwd.as_str()) {
            Some(start) => {
                let rest = crate::text::chars_of_range(&stem, start, stem.len());
                let parts = normal_parts_of(&rest);
                return Ok(join_strings(&parts, '.'));
            },
            None => {},
        }
        assert(first_strip(order, k + 1, stem@) is None);
        Err(PathError::NotUnderSearchPath)
    }
}

} // verus!

verus! {

/// `std::path::Path::exists`: whether something is at the path. It depends on the filesystem at
/// the time of the call, so nothing is claimed of it.
#[verifier::external_body]
fn path_exists(path: &str) -> (r: bool) {
    std::path::Path::new(path).exists()
}

/// The pieces of `t[i..]` between dots, pushed one by one onto `acc` as path components.
pub open spec fn dots_to_path(t: Seq<char>, i: int, acc: Seq<char>) -> Seq<char>
    decreases t.len() - i,
{
    if i < 0 || i > t.len() {
        acc
    } else {
        let q = match super::scan::find_from(t, i, "."@) {
            Some(q) => q,
            None => t.len() as int,
        };
        proof {
            super::scan::lemma_find_from(t, i, "."@);
        }
        let next = path_join(acc, t.subrange(i, q));
        if q < t.len() {
            dots_to_path(t, q + 1, next)
        } else {
            next
        }
    }
}

/// The path with its extension set to `ext`, as `PathBuf::set_extension` does it: unchanged when
/// the path has no file name.
pub open spec fn with_extension(p: Seq<char>, ext: Seq<char>) -> Seq<char> {
    if crate::haskell_source_file::file_name(p) is Some {
        stem_path(p) + seq!['.'] + ext
    } else {
        p
    }
}

/// The paths a target may be found at, in the order they are tried: a Haskell source path under
/// each search path (then the working directory); a module name turned into a path, with the
/// `hs` and then the `lhs` extension, likewise.
pub open spec fn target_candidates(sp: ShowPathsView, target: Seq<char>) -> Seq<Seq<char>> {
    let order = search_order(sp);
    if crate::haskell_source_file::is_haskell_source_path(target) {
        order.map_values(|b: Seq<char>| path_join(b, target))
    } else {
        let p = dots_to_path(target, 0, Seq::empty());
        order.map_values(|b: Seq<char>| path_join(b, with_extension(p, "hs"@))) + order.map_values(
            |b: Seq<char>| path_join(b, with_extension(p, "lhs"@)),
        )
    }
}

fn dotted_path(t: &Vec<char>) -> (r: String)
    ensures
        r@ == dots_to_path(t@, 0, Seq::empty()),
{
    let dot = chars_of(".");
    proof {
        reveal_strlit(".");
    }
    let mut acc = String::new();
    let mut i: usize = 0;
    loop
        invariant
            i <= t.len(),
            dot@ == "."@,
            dots_to_path(t@, 0, Seq::empty()) == dots_to_path(t@, i as int, acc@),
        decreases t.len() - i,
    {
        proof {
            super::scan::lemma_find_from(t@, i as int, dot@);
        }
        let q = match super::scan::scan_find(t, i, &dot) {
            Some(q) => q,
            None => t.len(),
        };
        let piece = string_of_range(t, i, q);
        acc = join_path(acc.as_str(), piece.as_str());
        if q < t.len() {
            i = q + 1;
        } else {
            return acc;
        }
    }
}

fn set_extension(p: &String, ext: &str) -> (r: String)
    ensures
        r@ == with_extension(p@, ext@),
{
    match crate::haskell_source_file::file_name_of(p.as_str()) {
        Some(_) => {
            let c = chars_of(p.as_str());
            let stem = strip_extension(&c);
            let mut r = string_of_range(&stem, 0, stem.len());
            assert(stem@.subrange(0, stem.len() as int) =~= stem@);
            push_char(&mut r, '.');
            push_str(&mut r, ext);
            r
        },
        None => p.clone(),
    }
}

/// The index of the first `true`, if any.
pub open spec fn first_true(e: Seq<bool>) -> Option<int>
    decreases e.len(),
{
    if e.len() == 0 {
        None
    } else {
        match first_true(e.drop_last()) {
            Some(k) => Some(k),
            None => if e.last() {
                Some(e.len() - 1)
            } else {
                None
            },
        }
    }
}

/// The first candidate that exists, given whether each exists; `SourceNotFound` when none does.
pub open spec fn first_existing_path(cands: Seq<Seq<char>>, exists: Seq<bool>) -> Result<
    Seq<char>,
    PathError,
> {
    match first_true(exists) {
        Some(k) => Ok(cands[k]),
        None => Err(PathError::SourceNotFound),
    }
}

/// What looking a target up can give: the first of its candidates that exists, for some answer
/// to whether each candidate exists.
pub open spec fn possible_target_path(sp: ShowPathsView, target: Seq<char>, r: Result<
    Seq<char>,
    PathError,
>) -> bool {
    exists|e: Seq<bool>|
        #![trigger first_existing_path(target_candidates(sp, target), e)]
        e.len() == target_candidates(sp, target).len() && first_existing_path(
            target_candidates(sp, target),
            e,
        ) == r
}

/// The view of a path result.
pub open spec fn path_result_view(r: Result<String, PathError>) -> Result<Seq<char>, PathError> {
    match r {
        Ok(p) => Ok(p@),
        Err(e) => Err(e),
    }
}

/// The first candidate that exists, given whether each candidate exists (`exists[k]` for
/// `cands[k]`); `SourceNotFound` when none does.
pub fn first_existing(cands: &Vec<String>, exists: &Vec<bool>) -> (r: Result<String, PathError>)
    requires
        cands.len() == exists.len(),
    ensures
        path_result_view(r) == first_existing_path(views(cands@), exists@),
{
    let mut k: usize = 0;
    while k < exists.len()
        invariant
            0 <= k <= exists.len(),
            cands.len() == exists.len(),
            first_true(exists@.take(k as int)) is None,
        decreases exists.len() - k,
    {
        assert(exists@.take(k + 1).drop_last() =~= exists@.take(k as int));
        if exists[k] {
            proof {
                lemma_first_true_prefix(exists@, k as int);
            }
            return Ok(cands[k].clone());
        }
        k += 1;
    }
    assert(exists@.take(k as int) =~= exists@);
    Err(PathError::SourceNotFound)
}

/// When no `true` comes before `k` and `e[k]` is `true`, the first `true` is at `k`.
proof fn lemma_first_true_prefix(e: Seq<bool>, k: int)
    requires
        0 <= k < e.len(),
        e[k],
        first_true(e.take(k)) is None,
    ensures
        first_true(e) == Some(k),
    decreases e.len(),
{
    if k < e.len() - 1 {
        assert(e.drop_last().take(k) =~= e.take(k));
        lemma_first_true_prefix(e.drop_last(), k);
    } else {
        assert(e.drop_last() =~= e.take(k));
    }
}

impl ShowPaths {
    /// Make a path relative to the working directory; see [`relative_to`].
    pub fn make_relative(&self, path: &str) -> (r: String)
        ensures
            r@ == relative_to(path@, self@.cwd),
    {
        relative_path_to(path, self.cwd.as_str())
    }

    /// The paths a target may be found at, in the order they are tried; see
    /// [`target_candidates`].
    pub fn candidate_paths(&self, target: &str) -> (r: Vec<String>)
        ensures
            views(r@) == target_candidates(self@, target@),
    {
        let order = self.paths();
        let ghost ov = views(order@);
        if crate::haskell_source_file::is_haskell_source_file(target) {
            let r = join_all(&order, target);
            assert(views(r@) =~= target_candidates(self@, target@));
            r
        } else {
            let t = chars_of(target);
            let dotted = dotted_path(&t);
            let hs = set_extension(&dotted, "hs");
            let lhs = set_extension(&dotted, "lhs");
            let mut r = join_all(&order, hs.as_str());
            let mut l = join_all(&order, lhs.as_str());
            let ghost a = views(r@);
            let ghost b = views(l@);
            r.append(&mut l);
            assert(views(r@) =~= a + b);
            proof {
                reveal_strlit("hs");
                reveal_strlit("lhs");
            }
            assert(views(r@) =~= target_candidates(self@, target@));
            r
        }
    }

    /// Convert a target (from `:show targets` output) to a module source path: the first of
    /// [`target_candidates`] where something exists, each asked of the file system in turn.
    pub fn target_to_path(&self, target: &str) -> (r: Result<String, PathError>)
        ensures
            possible_target_path(self@, target@, path_result_view(r)),
    {
        let cands = self.candidate_paths(target);
        let mut exists: Vec<bool> = Vec::new();
        let mut found = false;
        let mut k: usize = 0;
        while k < cands.len()
            invariant
                0 <= k <= cands.len(),
                exists.len() == k,
            decreases cands.len() - k,
        {
            // Stop asking once a candidate exists: later answers do not matter.
            let here = if found {
                false
            } else {
                path_exists(cands[k].as_str())
            };
            found = found || here;
            exists.push(here);
            k += 1;
        }
        let r = first_existing(&cands, &exists);
        assert(first_existing_path(target_candidates(self@, target@), exists@) == path_result_view(r));
        r
    }
}

/// Each base joined with `p`.
fn join_all(bases: &Vec<String>, p: &str) -> (r: Vec<String>)
    ensures
        views(r@) == views(bases@).map_values(|b: Seq<char>| path_join(b, p@)),
{
    let ghost want = views(bases@).map_values(|b: Seq<char>| path_join(b, p@));
    let mut r: Vec<String> = Vec::new();
    let mut k: usize = 0;
    while k < bases.len()
        invariant
            0 <= k <= bases.len(),
            want == views(bases@).map_values(|b: Seq<char>| path_join(b, p@)),
            views(r@) == want.take(k as int),
        decreases bases.len() - k,
    {
        let ghost before = views(r@);
        let joined = join_path(bases[k].as_str(), p);
        assert(views(bases@)[k as int] == bases@[k as int]@);
        assert(want[k as int] == joined@);
        r.push(joined);
        assert(views(r@) =~= before.push(joined@));
        assert(want.take(k + 1) =~= want.take(k as int).push(want[k as int]));
        k += 1;
    }
    assert(want.take(k as int) =~= want);
    r
}

} // verus!

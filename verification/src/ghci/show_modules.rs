//! `:show modules` output: one line per loaded module, like
//!
//! ```text
//! A.MercuryPrelude ( src/A/MercuryPrelude.hs, /Users/wiggles/mwb4/.../A/MercuryPrelude.dyn_o )
//! ```
use vstd::prelude::*;

use crate::text::{chars_of, string_of_range, views};

verus! {

/// ASCII whitespace, as `u8::is_ascii_whitespace` tests it.
pub open spec fn is_ascii_whitespace(c: char) -> bool {
    c == ' ' || c == '\t' || c == '\n' || c == '\u{c}' || c == '\r'
}

/// The end of the run of non-whitespace characters starting at `i`.
pub open spec fn token_end(s: Seq<char>, i: int) -> int
    decreases s.len() - i,
{
    if i < 0 || i >= s.len() || is_ascii_whitespace(s[i]) {
        i
    } else {
        token_end(s, i + 1)
    }
}

/// The end of the run of whitespace characters starting at `i`.
pub open spec fn blank_end(s: Seq<char>, i: int) -> int
    decreases s.len() - i,
{
    if i < 0 || i >= s.len() || !is_ascii_whitespace(s[i]) {
        i
    } else {
        blank_end(s, i + 1)
    }
}

pub proof fn lemma_token_end(s: Seq<char>, i: int)
    requires
        0 <= i <= s.len(),
    ensures
        i <= token_end(s, i) <= s.len(),
    decreases s.len() - i,
{
    if i < s.len() && !is_ascii_whitespace(s[i]) {
        lemma_token_end(s, i + 1);
    }
}

pub proof fn lemma_blank_end(s: Seq<char>, i: int)
    requires
        0 <= i <= s.len(),
    ensures
        i <= blank_end(s, i) <= s.len(),
    decreases s.len() - i,
{
    if i < s.len() && is_ascii_whitespace(s[i]) {
        lemma_blank_end(s, i + 1);
    }
}

/// The whitespace-separated tokens of `s` from `i` on, as `str::split_ascii_whitespace` gives
/// them.
pub open spec fn tokens_from(s: Seq<char>, i: int) -> Seq<Seq<char>>
    decreases s.len() - i,
{
    let a = blank_end(s, i);
    if i < 0 || a >= s.len() {
        Seq::empty()
    } else {
        let b = token_end(s, a);
        proof {
            lemma_blank_end(s, i);
        }
        if a < b <= s.len() {
            seq![s.subrange(a, b)] + tokens_from(s, b)
        } else {
            Seq::empty()
        }
    }
}

/// The whitespace-separated tokens of `s`.
pub open spec fn ascii_tokens(s: Seq<char>) -> Seq<Seq<char>> {
    tokens_from(s, 0)
}

fn is_ascii_ws(c: char) -> (r: bool)
    ensures
        r == is_ascii_whitespace(c),
{
    c == ' ' || c == '\t' || c == '\n' || c == '\u{c}' || c == '\r'
}

/// Split `s` into its whitespace-separated tokens; see [`ascii_tokens`].
pub fn split_ascii_whitespace(s: &str) -> (r: Vec<String>)
    ensures
        views(r@) == ascii_tokens(s@),
{
    let c = chars_of(s);
    let mut out: Vec<String> = Vec::new();
    let mut i: usize = 0;
    loop
        invariant
            i <= c.len(),
            c@ == s@,
            ascii_tokens(c@) == views(out@) + tokens_from(c@, i as int),
        decreases c.len() - i,
    {
        proof {
            lemma_blank_end(c@, i as int);
        }
        let mut a = i;
        while a < c.len() && is_ascii_ws(c[a])
            invariant
                i <= a <= c.len(),
                blank_end(c@, a as int) == blank_end(c@, i as int),
            decreases c.len() - a,
        {
            a += 1;
        }
        if a >= c.len() {
            assert(tokens_from(c@, i as int) =~= Seq::<Seq<char>>::empty());
            assert(views(out@) + Seq::<Seq<char>>::empty() =~= views(out@));
            return out;
        }
        proof {
            lemma_token_end(c@, a as int);
        }
        let mut b = a;
        while b < c.len() && !is_ascii_ws(c[b])
            invariant
                a <= b <= c.len(),
                token_end(c@, b as int) == token_end(c@, a as int),
            decreases c.len() - b,
        {
            b += 1;
        }
        let t = string_of_range(&c, a, b);
        let ghost before = views(out@);
        out.push(t);
        assert(views(out@) =~= before.push(t@));
        assert(tokens_from(c@, i as int) =~= seq![t@] + tokens_from(c@, b as int));
        assert(before + tokens_from(c@, i as int) =~= views(out@) + tokens_from(c@, b as int));
        i = b;
    }
}

/// Does `t` end with `suffix`?
pub open spec fn ends_with(t: Seq<char>, suffix: Seq<char>) -> bool {
    suffix.len() <= t.len() && t.subrange(t.len() - suffix.len(), t.len() as int) == suffix
}

/// `t` without one trailing comma, if it has one.
pub open spec fn strip_comma(t: Seq<char>) -> Seq<char> {
    if t.len() > 0 && t.last() == ',' {
        t.drop_last()
    } else {
        t
    }
}

/// Does the path end with `.hs` or `.lhs`?
pub open spec fn has_source_suffix(p: Seq<char>) -> bool {
    ends_with(p, ".hs"@) || ends_with(p, ".lhs"@)
}

/// Why a `:show modules` line could not be parsed.
#[derive(Debug, Clone, Copy, PartialEq, Eq, Structural)]
pub enum ShowModulesError {
    /// The line doesn't include a module name.
    MissingName,
    /// The line doesn't include a list of files.
    MissingFiles,
    /// The second token is not `(`.
    ExpectedParen,
    /// There are tokens after the closing parenthesis.
    TrailingTokens,
    /// None of the files is a Haskell source file.
    NoSourceFile,
}

/// Information about a Haskell module loaded in a `ghci` session, parsed from a line of `:show
/// modules` output.
#[derive(Debug, Clone, PartialEq, Eq)]
pub struct Module {
    /// The module's fully-qualified name.
    pub name: String,
    /// The path to the module's source file, typically a `.hs` file.
    pub source: String,
    /// Paths of the module's output files, including `.dyn_o`, `.o`, and so on.
    pub outputs: Vec<String>,
}

/// The contents of a [`Module`].
pub struct ShownModuleView {
    pub name: Seq<char>,
    pub source: Seq<char>,
    pub outputs: Seq<Seq<char>>,
}

impl View for Module {
    type V = ShownModuleView;

    open spec fn view(&self) -> ShownModuleView {
        ShownModuleView { name: self.name@, source: self.source@, outputs: views(self.outputs@) }
    }
}

/// The files listed from token `k` on: each token, without a trailing comma, is the source when
/// it ends with a Haskell source extension (a later one replaces an earlier one) and an output
/// otherwise; a `)` token ends the list and must be the last token.
pub open spec fn module_files(
    toks: Seq<Seq<char>>,
    k: int,
    source: Option<Seq<char>>,
    outputs: Seq<Seq<char>>,
) -> Result<(Option<Seq<char>>, Seq<Seq<char>>), ShowModulesError>
    decreases toks.len() - k,
{
    if k < 0 || k >= toks.len() {
        Ok((source, outputs))
    } else if toks[k] == ")"@ {
        if k + 1 < toks.len() {
            Err(ShowModulesError::TrailingTokens)
        } else {
            Ok((source, outputs))
        }
    } else {
        let p = strip_comma(toks[k]);
        if has_source_suffix(p) {
            module_files(toks, k + 1, Some(p), outputs)
        } else {
            module_files(toks, k + 1, source, outputs.push(p))
        }
    }
}

/// A `:show modules` line: the module name, `(`, and the files.
pub open spec fn parse_shown_module(s: Seq<char>) -> Result<ShownModuleView, ShowModulesError> {
    let toks = ascii_tokens(s);
    if toks.len() == 0 {
        Err(ShowModulesError::MissingName)
    } else if toks.len() == 1 {
        Err(ShowModulesError::MissingFiles)
    } else if toks[1] != "("@ {
        Err(ShowModulesError::ExpectedParen)
    } else {
        match module_files(toks, 2, None, Seq::empty()) {
            Ok((Some(source), outputs)) => Ok(
                ShownModuleView { name: toks[0], source, outputs },
            ),
            Ok((None, _)) => Err(ShowModulesError::NoSourceFile),
            Err(e) => Err(e),
        }
    }
}

fn is_lit(t: &String, lit: &str) -> (r: bool)
    ensures
        r == (t@ == lit@),
{
    let l = lit.to_owned();
    *t == l
}

fn ends_with_str(t: &Vec<char>, suffix: &str) -> (r: bool)
    ensures
        r == ends_with(t@, suffix@),
{
    let x = chars_of(suffix);
    if x.len() > t.len() {
        return false;
    }
    let off = t.len() - x.len();
    let mut k: usize = 0;
    while k < x.len()
        invariant
            off + x.len() == t.len(),
            0 <= k <= x.len(),
            x@ == suffix@,
            forall|j: int| 0 <= j < k ==> t@[off + j] == x@[j],
        decreases x.len() - k,
    {
        if t[off + k] != x[k] {
            assert(t@.subrange(off as int, t.len() as int)[k as int] != x@[k as int]);
            return false;
        }
        k += 1;
    }
    assert(t@.subrange(off as int, t.len() as int) =~= x@);
    true
}

impl Module {
    /// Parse a line of `:show modules` output; see [`parse_shown_module`].
    pub fn from_str(s: &str) -> (r: Result<Module, ShowModulesError>)
        ensures
            match parse_shown_module(s@) {
                Ok(m) => r is Ok && r->Ok_0@ == m,
                Err(e) => r == Err::<Module, ShowModulesError>(e),
            },
    {
        let toks = split_ascii_whitespace(s);
        let ghost tv = views(toks@);
        if toks.len() == 0 {
            return Err(ShowModulesError::MissingName);
        }
        if toks.len() == 1 {
            return Err(ShowModulesError::MissingFiles);
        }
        assert(tv[1] == toks@[1]@);
        if !is_lit(&toks[1], "(") {
            return Err(ShowModulesError::ExpectedParen);
        }
        let mut source: Option<String> = None;
        let mut outputs: Vec<String> = Vec::new();
        assert(views(outputs@) =~= Seq::<Seq<char>>::empty());
        let mut k: usize = 2;
        while k < toks.len()
            invariant
                2 <= k <= toks.len(),
                tv == views(toks@),
                tv.len() == toks.len(),
                tv[1] == "("@,
                tv == ascii_tokens(s@),
                module_files(tv, 2, None, Seq::empty()) == module_files(
                    tv,
                    k as int,
                    crate::text::opt_view(source),
                    views(outputs@),
                ),
            ensures
                tv == views(toks@),
                tv.len() == toks.len(),
                tv[1] == "("@,
                tv == ascii_tokens(s@),
                module_files(tv, 2, None, Seq::empty()) == module_files(
                    tv,
                    k as int,
                    crate::text::opt_view(source),
                    views(outputs@),
                ),
                k == toks.len() || (tv[k as int] == ")"@ && k + 1 == toks.len()),
            decreases toks.len() - k,
        {
            assert(tv[k as int] == toks@[k as int]@);
            if is_lit(&toks[k], ")") {
                if k + 1 < toks.len() {
                    return Err(ShowModulesError::TrailingTokens);
                }
                break;
            }
            let t = chars_of(toks[k].as_str());
            let end = if t.len() > 0 && t[t.len() - 1] == ',' {
                t.len() - 1
            } else {
                t.len()
            };
            let path_chars = crate::text::chars_of_range(&t, 0, end);
            assert(path_chars@ =~= strip_comma(tv[k as int]));
            let is_source = ends_with_str(&path_chars, ".hs") || ends_with_str(&path_chars, ".lhs");
            let path = string_of_range(&path_chars, 0, path_chars.len());
            assert(path_chars@.subrange(0, path_chars.len() as int) =~= path_chars@);
            if is_source {
                source = Some(path);
            } else {
                let ghost before = views(outputs@);
                outputs.push(path);
                assert(views(outputs@) =~= before.push(path@));
            }
            k += 1;
        }
        match source {
            Some(source) => {
                let name = toks[0].clone();
                assert(tv[0] == toks@[0]@);
                Ok(Module { name, source, outputs })
            },
            None => Err(ShowModulesError::NoSourceFile),
        }
    }
}

} // verus!

verus! {

/// The parse of each line in turn, up to the first that fails.
pub open spec fn parse_shown_modules(lines: Seq<Seq<char>>) -> Result<Seq<ShownModuleView>, ShowModulesError>
    decreases lines.len(),
{
    if lines.len() == 0 {
        Ok(Seq::empty())
    } else {
        match parse_shown_modules(lines.drop_last()) {
            Ok(ms) => match parse_shown_module(lines.last()) {
                Ok(m) => Ok(ms.push(m)),
                Err(e) => Err(e),
            },
            Err(e) => Err(e),
        }
    }
}

/// The views of a sequence of modules.
pub open spec fn shown_views(v: Seq<Module>) -> Seq<ShownModuleView> {
    v.map_values(|m: Module| m@)
}

/// Parse every line of `:show modules` output; see [`parse_shown_modules`].
pub fn parse_modules(lines: &Vec<String>) -> (r: Result<Vec<Module>, ShowModulesError>)
    ensures
        match parse_shown_modules(views(lines@)) {
            Ok(ms) => r is Ok && shown_views(r->Ok_0@) == ms,
            Err(e) => r == Err::<Vec<Module>, ShowModulesError>(e),
        },
{
    let ghost ls = views(lines@);
    let mut out: Vec<Module> = Vec::new();
    let mut k: usize = 0;
    assert(ls.take(0) =~= Seq::<Seq<char>>::empty());
    assert(shown_views(out@) =~= Seq::<ShownModuleView>::empty());
    while k < lines.len()
        invariant
            0 <= k <= lines.len(),
            ls == views(lines@),
            parse_shown_modules(ls.take(k as int)) == Ok::<Seq<ShownModuleView>, ShowModulesError>(
                shown_views(out@),
            ),
        decreases lines.len() - k,
    {
        assert(ls.take(k + 1).drop_last() =~= ls.take(k as int));
        assert(ls.take(k + 1).last() == lines@[k as int]@);
        let m = match Module::from_str(lines[k].as_str()) {
            Ok(m) => m,
            Err(e) => {
                proof {
                    lemma_parse_prefix_error(ls, k as int + 1);
                }
                assert(ls.take(lines.len() as int) =~= ls);
                return Err(e);
            },
        };
        let ghost before = shown_views(out@);
        out.push(m);
        assert(shown_views(out@) =~= before.push(m@));
        k += 1;
    }
    assert(ls.take(lines.len() as int) =~= ls);
    Ok(out)
}

/// A failure on a prefix is the failure of the whole.
pub proof fn lemma_parse_prefix_error(ls: Seq<Seq<char>>, n: int)
    requires
        0 <= n <= ls.len(),
        parse_shown_modules(ls.take(n)) is Err,
    ensures
        parse_shown_modules(ls) == parse_shown_modules(ls.take(n)),
    decreases ls.len() - n,
{
    if n < ls.len() {
        assert(ls.take(n + 1).drop_last() =~= ls.take(n));
        lemma_parse_prefix_error(ls, n + 1);
    } else {
        assert(ls.take(n) =~= ls);
    }
}

/// A collection of source paths, retaining information about loaded modules in a `ghci`
/// session.
pub struct ModuleSet {
    map: vstd::hash_set::StringHashSet,
}

impl View for ModuleSet {
    type V = Set<Seq<char>>;

    closed spec fn view(&self) -> Set<Seq<char>> {
        self.map@
    }
}

impl ModuleSet {
    /// An empty set.
    pub fn new() -> (r: Self)
        ensures
            r@ == Set::<Seq<char>>::empty(),
    {
        ModuleSet { map: vstd::hash_set::StringHashSet::new() }
    }

    /// Get the number of modules in this set.
    pub fn len(&self) -> (r: usize)
        ensures
            r == self@.len(),
    {
        self.map.len()
    }

    /// Determine if a module with the given source path is contained in this module set.
    pub fn contains_source_path(&self, path: &str) -> (r: bool)
        ensures
            r == self@.contains(path@),
    {
        self.map.contains(path)
    }

    /// Add a source path to this module set.
    pub fn insert_source_path(&mut self, path: String)
        ensures
            final(self)@ == old(self)@.insert(path@),
    {
        self.map.insert(path);
    }
}

impl Default for ModuleSet {
    fn default() -> (r: Self)
        ensures
            r@ == Set::<Seq<char>>::empty(),
    {
        ModuleSet::new()
    }
}

} // verus!

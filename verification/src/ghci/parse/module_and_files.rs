//! A Haskell module name and its list of files, as `:show modules` and compiler output print
//! them:
//!
//! ```text
//! My.Cool.Module ( src/My/Cool/Module.hs, dist-newstyle/My/Cool/Module.o, interpreted )
//! ```
use vstd::prelude::*;

use super::haskell_grammar::{module_name_at, scan_module_name};
use super::scan::{
    find_from, lemma_spaces_end, scan_find, skip_spaces, space1_at, starts_with_at, str_at,
    SyntaxError, Step,
};
use crate::haskell_source_file::{is_haskell_source_chars, is_haskell_source_path};
use crate::text::{chars_of, string_of_range};

verus! {

/// Information about a Haskell module loaded in a `ghci` session.
#[derive(Debug, Clone, PartialEq, Eq)]
pub struct Module {
    /// The module's fully-qualified name.
    pub name: String,
    /// The path to the module's source file, typically a `.hs` file.
    pub path: String,
}

/// The contents of a [`Module`].
pub struct ModuleView {
    pub name: Seq<char>,
    pub path: Seq<char>,
}

impl View for Module {
    type V = ModuleView;

    open spec fn view(&self) -> ModuleView {
        ModuleView { name: self.name@, path: self.path@ }
    }
}

/// The first index at or after `i` holding `,` or `\n`, or the length of `s`.
pub open spec fn comma_or_newline_at(s: Seq<char>, i: int) -> int
    decreases s.len() - i,
{
    if i < 0 || i >= s.len() || s[i] == ',' || s[i] == '\n' {
        i
    } else {
        comma_or_newline_at(s, i + 1)
    }
}

pub proof fn lemma_comma_or_newline_at(s: Seq<char>, i: int)
    requires
        0 <= i <= s.len(),
    ensures
        i <= comma_or_newline_at(s, i) <= s.len(),
    decreases s.len() - i,
{
    if i < s.len() && s[i] != ',' && s[i] != '\n' {
        lemma_comma_or_newline_at(s, i + 1);
    }
}

/// The comma-terminated items of a file list starting at `i`: each is one or more characters
/// other than `,` and `\n`, followed by `", "`. Gives the item ranges and where they stop.
pub open spec fn comma_items(s: Seq<char>, i: int) -> (Seq<(int, int)>, int)
    decreases s.len() - i,
{
    let j = comma_or_newline_at(s, i);
    if 0 <= i && j > i && starts_with_at(s, j, ", "@) {
        proof {
            lemma_comma_or_newline_at(s, i);
        }
        let rest = comma_items(s, j + ", "@.len());
        (seq![(i, j)] + rest.0, rest.1)
    } else {
        (Seq::empty(), i)
    }
}

/// The index of the first range in `items` that names a Haskell source file.
pub open spec fn first_source_item(s: Seq<char>, items: Seq<(int, int)>) -> Option<int>
    decreases items.len(),
{
    if items.len() == 0 {
        None
    } else if is_haskell_source_path(s.subrange(items[0].0, items[0].1)) {
        Some(0)
    } else {
        match first_source_item(s, items.drop_first()) {
            Some(k) => Some(k + 1),
            None => None,
        }
    }
}

/// A module name and file list at `i`: the name, spaces, `"( "`, comma-terminated items, a final
/// item ending at the first `" )"`, and that `" )"`. The module's path is the first item naming a
/// Haskell source file; when no item does, the parse is cut.
pub open spec fn module_and_files_at(s: Seq<char>, i: int) -> Step<int, ModuleView> {
    match module_name_at(s, i) {
        None => Step::Backtrack,
        Some(a) => match space1_at(s, a) {
            None => Step::Backtrack,
            Some(b) => if !starts_with_at(s, b, "( "@) {
                Step::Backtrack
            } else {
                let (items, c) = comma_items(s, b + "( "@.len());
                match find_from(s, c, " )"@) {
                    Some(q) => if q > c {
                        let all = items.push((c, q));
                        match first_source_item(s, all) {
                            Some(k) => Step::Done(
                                q + " )"@.len(),
                                ModuleView {
                                    name: s.subrange(i, a),
                                    path: s.subrange(all[k].0, all[k].1),
                                },
                            ),
                            None => Step::Cut,
                        }
                    } else {
                        Step::Backtrack
                    },
                    None => Step::Backtrack,
                }
            },
        },
    }
}

/// Does an executable parse outcome agree with the grammar's outcome?
pub open spec fn step_agrees<T: View>(r: Step<usize, T>, g: Step<int, T::V>) -> bool {
    match r {
        Step::Done(e, v) => g == Step::<int, T::V>::Done(e as int, v@),
        Step::Backtrack => g is Backtrack,
        Step::Cut => g is Cut,
    }
}

fn scan_comma_or_newline(s: &Vec<char>, i: usize) -> (j: usize)
    requires
        i <= s.len(),
    ensures
        j == comma_or_newline_at(s@, i as int),
        i <= j <= s.len(),
{
    let mut j = i;
    while j < s.len() && s[j] != ',' && s[j] != '\n'
        invariant
            i <= j <= s.len(),
            comma_or_newline_at(s@, j as int) == comma_or_newline_at(s@, i as int),
        decreases s.len() - j,
    {
        j += 1;
    }
    j
}

/// Parse a module name and file list at `i`; see [`module_and_files_at`].
pub fn scan_module_and_files(s: &Vec<char>, i: usize) -> (r: Step<usize, Module>)
    requires
        i <= s.len(),
    ensures
        step_agrees(r, module_and_files_at(s@, i as int)),
        r matches Step::Done(e, _) ==> i < e <= s.len(),
{
    let a = match scan_module_name(s, i) {
        Some(a) => a,
        None => return Step::Backtrack,
    };
    proof {
        lemma_spaces_end(s@, a as int);
    }
    let b = skip_spaces(s, a);
    if b == a {
        return Step::Backtrack;
    }
    if !str_at(s, b, "( ") {
        return Step::Backtrack;
    }
    let open_len = chars_of("( ").len();
    let sep_len = chars_of(", ").len();
    let close = chars_of(" )");
    let mut items: Vec<(usize, usize)> = Vec::new();
    let mut c = b + open_len;
    let ghost c0 = c;
    loop
        invariant
            c0 <= c <= s.len(),
            sep_len == ", "@.len(),
            comma_items(s@, c0 as int).1 == comma_items(s@, c as int).1,
            comma_items(s@, c0 as int).0 == items@.map_values(|p: (usize, usize)| (p.0 as int, p.1 as int)) + comma_items(s@, c as int).0,
            forall|k: int| 0 <= k < items.len() ==> #[trigger] items@[k].0 <= items@[k].1 <= s.len(),
        ensures
            c0 <= c <= s.len(),
            comma_items(s@, c0 as int).1 == c,
            comma_items(s@, c0 as int).0 == items@.map_values(|p: (usize, usize)| (p.0 as int, p.1 as int)),
            forall|k: int| 0 <= k < items.len() ==> #[trigger] items@[k].0 <= items@[k].1 <= s.len(),
        decreases s.len() - c,
    {
        let j = scan_comma_or_newline(s, c);
        if j > c && str_at(s, j, ", ") {
            let ghost before = items@.map_values(|p: (usize, usize)| (p.0 as int, p.1 as int));
            items.push((c, j));
            assert(items@.map_values(|p: (usize, usize)| (p.0 as int, p.1 as int)) =~= before.push((c as int, j as int)));
            assert(comma_items(s@, c as int).0 =~= seq![(c as int, j as int)] + comma_items(s@, j + sep_len).0);
            assert(before + comma_items(s@, c as int).0 =~= before.push((c as int, j as int)) + comma_items(s@, j + sep_len).0);
            c = j + sep_len;
        } else {
            assert(comma_items(s@, c as int).0 =~= Seq::<(int, int)>::empty());
            assert(items@.map_values(|p: (usize, usize)| (p.0 as int, p.1 as int)) + Seq::<(int, int)>::empty() =~= items@.map_values(|p: (usize, usize)| (p.0 as int, p.1 as int)));
            break;
        }
    }
    let q = match scan_find(s, c, &close) {
        Some(q) => q,
        None => return Step::Backtrack,
    };
    if q == c {
        return Step::Backtrack;
    }
    proof {
        crate::ghci::parse::scan::lemma_find_from(s@, c as int, close@);
    }
    let ghost old_items = items@;
    items.push((c, q));
    assert(items@.map_values(|p: (usize, usize)| (p.0 as int, p.1 as int)) =~= comma_items(s@, c0 as int).0.push((c as int, q as int)));
    assert forall|m: int| 0 <= m < items.len() implies #[trigger] items@[m].0 <= items@[m].1 <= s.len() by {
        if m < old_items.len() {
            assert(items@[m] == old_items[m]);
        }
    }
    match scan_first_source(s, &items) {
        Some(k) => {
            let (lo, hi) = items[k];
            let name = string_of_range(s, i, a);
            let path = string_of_range(s, lo, hi);
            Step::Done(q + close.len(), Module { name, path })
        },
        None => Step::Cut,
    }
}

fn scan_first_source(s: &Vec<char>, items: &Vec<(usize, usize)>) -> (r: Option<usize>)
    requires
        forall|m: int| 0 <= m < items.len() ==> #[trigger] items@[m].0 <= items@[m].1 <= s.len(),
    ensures
        match r {
            Some(k) => k < items.len() && first_source_item(
                s@,
                items@.map_values(|p: (usize, usize)| (p.0 as int, p.1 as int)),
            ) == Some(k as int),
            None => first_source_item(
                s@,
                items@.map_values(|p: (usize, usize)| (p.0 as int, p.1 as int)),
            ) is None,
        },
{
    let ghost all = items@.map_values(|p: (usize, usize)| (p.0 as int, p.1 as int));
    assert(all.subrange(0, all.len() as int) =~= all);
    let mut k: usize = 0;
    while k < items.len()
        invariant
            0 <= k <= items.len(),
            all == items@.map_values(|p: (usize, usize)| (p.0 as int, p.1 as int)),
            forall|m: int| 0 <= m < items.len() ==> #[trigger] items@[m].0 <= items@[m].1 <= s.len(),
            first_source_item(s@, all) == (match first_source_item(s@, all.subrange(k as int, all.len() as int)) {
                Some(m) => Some(m + k),
                None => None,
            }),
        decreases items.len() - k,
    {
        let (lo, hi) = items[k];
        let p = crate::text::chars_of_range(s, lo, hi);
        let ghost rest = all.subrange(k as int, all.len() as int);
        assert(rest[0] == (lo as int, hi as int));
        assert(rest.drop_first() =~= all.subrange(k + 1, all.len() as int));
        if is_haskell_source_chars(&p) {
            return Some(k);
        }
        k += 1;
    }
    assert(all.subrange(k as int, all.len() as int).len() == 0);
    None
}

/// Parse a complete input as a module name and file list.
pub fn module_and_files(input: &str) -> (r: Result<Module, SyntaxError>)
    ensures
        match module_and_files_at(input@, 0) {
            Step::Done(e, m) if e == input@.len() => r is Ok && r->Ok_0@ == m,
            _ => r is Err,
        },
{
    let s = chars_of(input);
    match scan_module_and_files(&s, 0) {
        Step::Done(e, m) => if e == s.len() {
            Ok(m)
        } else {
            Err(SyntaxError)
        },
        _ => Err(SyntaxError),
    }
}

impl Module {
    /// Parse a [`Module`] from one line of `:show modules` output; see [`module_and_files`].
    pub fn from_str(s: &str) -> (r: Result<Module, SyntaxError>)
        ensures
            match module_and_files_at(s@, 0) {
                Step::Done(e, m) if e == s@.len() => r is Ok && r->Ok_0@ == m,
                _ => r is Err,
            },
    {
        module_and_files(s)
    }
}

} // verus!

verus! {

/// A module being compiled, as `[1 of 3] Compiling Foo ( Foo.hs, interpreted )` names it.
pub type CompilingModule = Module;

} // verus!

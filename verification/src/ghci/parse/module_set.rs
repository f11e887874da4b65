//! Source paths of loaded modules, each with how it was added to the session.
use vstd::prelude::*;

use super::show_paths::{module_of_path, PathError, ShowPaths};
use super::target_kind::TargetKind;
use crate::path_order::relative_to;

verus! {

/// Does one of the entries have path `p`?
pub open spec fn has_key(v: Seq<(Seq<char>, TargetKind)>, p: Seq<char>) -> bool {
    exists|k: int| 0 <= k < v.len() && (#[trigger] v[k]).0 == p
}

/// The kind recorded for path `p`, if any.
pub open spec fn kind_of(v: Seq<(Seq<char>, TargetKind)>, p: Seq<char>) -> Option<TargetKind>
    decreases v.len(),
{
    if v.len() == 0 {
        None
    } else if v.last().0 == p {
        Some(v.last().1)
    } else {
        kind_of(v.drop_last(), p)
    }
}

/// A collection of source paths, retaining information about loaded modules in a `ghci`
/// session: each path once, with how its module was added.
#[derive(Debug, Clone)]
pub struct ModuleSet {
    modules: Vec<(String, TargetKind)>,
}

/// The views of the entries.
pub open spec fn entry_views(v: Seq<(String, TargetKind)>) -> Seq<(Seq<char>, TargetKind)> {
    v.map_values(|e: (String, TargetKind)| (e.0@, e.1))
}

/// No path occurs twice.
pub open spec fn unique_keys(v: Seq<(Seq<char>, TargetKind)>) -> bool {
    forall|i: int, j: int|
        0 <= i < v.len() && 0 <= j < v.len() && i != j ==> (#[trigger] v[i]).0 != (#[trigger] v[j]).0
}

impl View for ModuleSet {
    type V = Seq<(Seq<char>, TargetKind)>;

    closed spec fn view(&self) -> Seq<(Seq<char>, TargetKind)> {
        entry_views(self.modules@)
    }
}

/// Information about a module to be imported into a `ghci` session.
#[derive(Debug, Clone, PartialEq, Eq)]
pub struct ImportInfo {
    /// The name to refer to the module by: a dotted module name like `My.Cool.Module` or a path
    /// like `src/My/Cool/Module.hs`.
    pub name: String,
    /// Whether the `name` is a name or path.
    pub kind: TargetKind,
    /// Whether the module is already loaded in the `ghci` session.
    pub loaded: bool,
}

impl ModuleSet {
    /// No path occurs twice.
    pub closed spec fn wf(&self) -> bool {
        unique_keys(self@)
    }

    /// An empty set.
    pub fn new() -> (r: Self)
        ensures
            r@ == Seq::<(Seq<char>, TargetKind)>::empty(),
            r.wf(),
    {
        let r = ModuleSet { modules: Vec::new() };
        assert(r@ =~= Seq::<(Seq<char>, TargetKind)>::empty());
        r
    }

    /// Get the number of modules in this set.
    pub fn len(&self) -> (r: usize)
        ensures
            r == self@.len(),
    {
        self.modules.len()
    }

    fn find(&self, path: &str) -> (r: Option<usize>)
        ensures
            match r {
                Some(k) => k < self@.len() && self@[k as int].0 == path@,
                None => !has_key(self@, path@),
            },
    {
        let p = path.to_owned();
        let mut k: usize = 0;
        while k < self.modules.len()
            invariant
                0 <= k <= self.modules.len(),
                p@ == path@,
                self@ == entry_views(self.modules@),
                forall|j: int| 0 <= j < k ==> (#[trigger] self@[j]).0 != path@,
            decreases self.modules.len() - k,
        {
            assert(self@[k as int].0 == self.modules@[k as int].0@);
            if self.modules[k].0 == p {
                return Some(k);
            }
            k += 1;
        }
        None
    }

    /// Determine if a module with the given source path is contained in this module set.
    pub fn contains_source_path(&self, path: &str) -> (r: bool)
        ensures
            r == has_key(self@, path@),
    {
        self.find(path).is_some()
    }

    /// Add a source path to this module set; a path already present must have been added the
    /// same way.
    ///
    /// Returns whether the path was newly inserted.
    pub fn insert_source_path(&mut self, path: String, kind: TargetKind) -> (r: bool)
        requires
            old(self).wf(),
            kind_of(old(self)@, path@) is Some ==> kind_of(old(self)@, path@) == Some(kind),
        ensures
            final(self).wf(),
            r == !has_key(old(self)@, path@),
            r ==> final(self)@ == old(self)@.push((path@, kind)),
            !r ==> final(self)@ == old(self)@,
            kind_of(final(self)@, path@) == Some(kind),
    {
        match self.find(path.as_str()) {
            Some(k) => {
                proof {
                    lemma_kind_of_unique(self@, k as int);
                }
                false
            },
            None => {
                let ghost before = self@;
                let ghost p = path@;
                self.modules.push((path, kind));
                assert(self@ =~= before.push((p, kind)));
                assert(self@.drop_last() =~= before);
                assert forall|i: int, j: int|
                    0 <= i < self@.len() && 0 <= j < self@.len() && i != j implies (
                    #[trigger] self@[i]).0 != (#[trigger] self@[j]).0 by {
                    if i < before.len() && j < before.len() {
                        assert(self@[i] == before[i] && self@[j] == before[j]);
                    } else if i < before.len() {
                        assert(self@[i] == before[i]);
                    } else if j < before.len() {
                        assert(self@[j] == before[j]);
                    }
                }
                true
            },
        }
    }

    /// Construct a `ModuleSet` from module source paths, each with how it was added; where a path
    /// occurs more than once, its last kind is kept.
    pub fn from_paths(paths: Vec<(String, TargetKind)>) -> (r: Self)
        ensures
            r.wf(),
            forall|p: Seq<char>| #[trigger] kind_of(r@, p) == kind_of(entry_views(paths@), p),
            forall|p: Seq<char>| #[trigger] has_key(r@, p) <==> has_key(entry_views(paths@), p),
    {
        let mut r = ModuleSet::new();
        let mut k: usize = 0;
        while k < paths.len()
            invariant
                0 <= k <= paths.len(),
                r.wf(),
                forall|p: Seq<char>|
                    #[trigger] kind_of(r@, p) == kind_of(entry_views(paths@).take(k as int), p),
            decreases paths.len() - k,
        {
            let ghost before = r@;
            let path = paths[k].0.clone();
            let kind = paths[k].1;
            r.upsert(path, kind);
            proof {
                let v = entry_views(paths@);
                assert(v.take(k + 1).drop_last() =~= v.take(k as int));
                assert(v.take(k + 1).last() == v[k as int]);
            }
            k += 1;
        }
        proof {
            let v = entry_views(paths@);
            assert(v.take(paths@.len() as int) =~= v);
            assert forall|p: Seq<char>| #[trigger] has_key(r@, p) <==> has_key(v, p) by {
                lemma_kind_of_some(r@, p);
                lemma_kind_of_some(v, p);
            }
        }
        r
    }

    /// Record `path` with `kind`, replacing the kind it had.
    fn upsert(&mut self, path: String, kind: TargetKind)
        requires
            old(self).wf(),
        ensures
            final(self).wf(),
            forall|p: Seq<char>|
                #[trigger] kind_of(final(self)@, p) == if p == path@ {
                    Some(kind)
                } else {
                    kind_of(old(self)@, p)
                },
    {
        let ghost before = self@;
        match self.find(path.as_str()) {
            Some(i) => {
                let ghost p0 = path@;
                self.modules.set(i, (path, kind));
                assert(self@ =~= before.update(i as int, (p0, kind)));
                assert(unique_keys(self@)) by {
                    assert forall|a: int, b: int|
                        0 <= a < self@.len() && 0 <= b < self@.len() && a != b implies (
                        #[trigger] self@[a]).0 != (#[trigger] self@[b]).0 by {
                        assert(before[a].0 == self@[a].0 && before[b].0 == self@[b].0);
                    }
                }
                assert forall|p: Seq<char>|
                    #[trigger] kind_of(self@, p) == if p == p0 {
                        Some(kind)
                    } else {
                        kind_of(before, p)
                    } by {
                    if p == p0 {
                        lemma_kind_of_unique(self@, i as int);
                    } else {
                        lemma_kind_of_update(before, i as int, (p0, kind), p);
                    }
                }
            },
            None => {
                let ghost p0 = path@;
                proof {
                    lemma_kind_of_absent(before, p0);
                }
                self.insert_source_path(path, kind);
                assert forall|p: Seq<char>|
                    #[trigger] kind_of(self@, p) == if p == p0 {
                        Some(kind)
                    } else {
                        kind_of(before, p)
                    } by {
                    assert(self@.drop_last() =~= before);
                }
            },
        }
    }

    /// The source paths in this module set, in the order they were added.
    pub fn iter(&self) -> (r: Vec<&String>)
        ensures
            r@.len() == self@.len(),
            forall|k: int| 0 <= k < r@.len() ==> (#[trigger] r@[k])@ == self@[k].0,
    {
        let mut r: Vec<&String> = Vec::new();
        let mut k: usize = 0;
        while k < self.modules.len()
            invariant
                0 <= k <= self.modules.len(),
                self@ == entry_views(self.modules@),
                r@.len() == k,
                forall|j: int| 0 <= j < k ==> (#[trigger] r@[j])@ == self@[j].0,
            decreases self.modules.len() - k,
        {
            r.push(&self.modules[k].0);
            k += 1;
        }
        r
    }

    /// Get the name used to refer to the given module path when importing it.
    ///
    /// If the module isn't imported, its path relative to the working directory is used.
    /// Otherwise, the form used to import the module originally is used: a path, or the module
    /// name the search paths give it.
    pub fn module_import_name(&self, show_paths: &ShowPaths, path: &str) -> (r: Result<ImportInfo, PathError>)
        requires
            self.wf(),
        ensures
            match kind_of(self@, path@) {
                Some(TargetKind::Path) => r matches Ok(info) && info.name@ == path@ && info.kind
                    == TargetKind::Path && info.loaded,
                Some(TargetKind::Module) => match module_of_path(show_paths@, path@) {
                    Some(m) => r matches Ok(info) && info.name@ == m && info.kind
                        == TargetKind::Module && info.loaded,
                    None => r == Err::<ImportInfo, PathError>(PathError::NotUnderSearchPath),
                },
                None => r matches Ok(info) && info.name@ == relative_to(path@, show_paths@.cwd)
                    && info.kind == TargetKind::Path && !info.loaded,
            },
    {
        match self.find(path) {
            Some(k) => {
                proof {
                    lemma_kind_of_unique(self@, k as int);
                }
                let kind = self.modules[k].1;
                assert(kind == self@[k as int].1);
                match kind {
                    TargetKind::Path => Ok(ImportInfo { name: path.to_owned(), kind, loaded: true }),
                    TargetKind::Module => {
                        let name = show_paths.path_to_module(path)?;
                        Ok(ImportInfo { name, kind, loaded: true })
                    },
                }
            },
            None => {
                proof {
                    lemma_kind_of_absent(self@, path@);
                }
                let name = show_paths.make_relative(path);
                Ok(ImportInfo { name, kind: TargetKind::Path, loaded: false })
            },
        }
    }
}

/// With unique paths, the kind recorded for an entry's path is that entry's kind.
pub proof fn lemma_kind_of_unique(v: Seq<(Seq<char>, TargetKind)>, k: int)
    requires
        unique_keys(v),
        0 <= k < v.len(),
    ensures
        kind_of(v, v[k].0) == Some(v[k].1),
    decreases v.len(),
{
    if k < v.len() - 1 {
        assert(v.last().0 != v[k].0) by {
            assert(v[v.len() - 1] == v.last());
        }
        assert(unique_keys(v.drop_last())) by {
            assert forall|i: int, j: int|
                0 <= i < v.drop_last().len() && 0 <= j < v.drop_last().len() && i != j implies (
                #[trigger] v.drop_last()[i]).0 != (#[trigger] v.drop_last()[j]).0 by {
                assert(v.drop_last()[i] == v[i] && v.drop_last()[j] == v[j]);
            }
        }
        assert(v.drop_last()[k] == v[k]);
        lemma_kind_of_unique(v.drop_last(), k);
    }
}

/// Replacing an entry by one with the same path leaves the kinds of other paths alone.
pub proof fn lemma_kind_of_update(
    v: Seq<(Seq<char>, TargetKind)>,
    i: int,
    e: (Seq<char>, TargetKind),
    p: Seq<char>,
)
    requires
        0 <= i < v.len(),
        e.0 == v[i].0,
        p != e.0,
    ensures
        kind_of(v.update(i, e), p) == kind_of(v, p),
    decreases v.len(),
{
    let u = v.update(i, e);
    assert(u[u.len() - 1] == u.last());
    assert(v[v.len() - 1] == v.last());
    if i == v.len() - 1 {
        assert(u.drop_last() =~= v.drop_last());
    } else {
        assert(u.drop_last() =~= v.drop_last().update(i, e));
        assert(u.last() == v.last());
        lemma_kind_of_update(v.drop_last(), i, e, p);
    }
}

/// A path has a kind exactly when some entry has it.
pub proof fn lemma_kind_of_some(v: Seq<(Seq<char>, TargetKind)>, p: Seq<char>)
    ensures
        kind_of(v, p) is Some <==> has_key(v, p),
    decreases v.len(),
{
    if v.len() > 0 {
        assert(v[v.len() - 1] == v.last());
        lemma_kind_of_some(v.drop_last(), p);
        if has_key(v.drop_last(), p) {
            let k = choose|k: int| 0 <= k < v.drop_last().len() && (#[trigger] v.drop_last()[k]).0 == p;
            assert(v[k] == v.drop_last()[k]);
        }
        if has_key(v, p) && v.last().0 != p {
            let k = choose|k: int| 0 <= k < v.len() && (#[trigger] v[k]).0 == p;
            assert(v.drop_last()[k] == v[k]);
        }
    }
}

/// A path no entry has has no kind.
pub proof fn lemma_kind_of_absent(v: Seq<(Seq<char>, TargetKind)>, p: Seq<char>)
    requires
        !has_key(v, p),
    ensures
        kind_of(v, p) is None,
    decreases v.len(),
{
    if v.len() > 0 {
        assert(v[v.len() - 1] == v.last());
        assert(!has_key(v.drop_last(), p)) by {
            if has_key(v.drop_last(), p) {
                let k = choose|k: int| 0 <= k < v.drop_last().len() && (#[trigger] v.drop_last()[k]).0 == p;
                assert(v[k] == v.drop_last()[k]);
            }
        }
        lemma_kind_of_absent(v.drop_last(), p);
    }
}

} // verus!

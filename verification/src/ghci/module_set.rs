//! The set of modules loaded in a `ghci` session, keyed by source path.
use vstd::prelude::*;

use super::loaded_module::{LoadedModule, LoadedModuleView};
use crate::path_order::{compare_paths, lemma_path_order, lemma_path_order_trans, path_order};
use crate::text::views;

verus! {

/// Does one of the modules have source path `p` (a path with the same components)?
pub open spec fn has_path(v: Seq<LoadedModuleView>, p: Seq<char>) -> bool {
    exists|k: int| 0 <= k < v.len() && path_order((#[trigger] v[k]).path, p) == 0
}

/// The index of the module with source path `p`, when one has it.
pub open spec fn index_of_path(v: Seq<LoadedModuleView>, p: Seq<char>) -> int {
    choose|k: int| 0 <= k < v.len() && path_order((#[trigger] v[k]).path, p) == 0
}

/// The modules come in strictly increasing order of their paths, so no two share a path.
pub open spec fn sorted_paths(v: Seq<LoadedModuleView>) -> bool {
    forall|i: int, j: int|
        0 <= i < j < v.len() ==> path_order((#[trigger] v[i]).path, (#[trigger] v[j]).path) == -1
}

/// Where a module with path `p` goes among `v[k..]`: at the first module whose path does not
/// come before `p`.
pub open spec fn first_not_before(v: Seq<LoadedModuleView>, p: Seq<char>, k: int) -> int
    decreases v.len() - k,
{
    if k < 0 || k >= v.len() {
        v.len() as int
    } else if path_order(v[k].path, p) != -1 {
        k
    } else {
        first_not_before(v, p, k + 1)
    }
}

/// `v` with `m` added in order of paths, unless a module already has its path.
pub open spec fn insert_sorted(v: Seq<LoadedModuleView>, m: LoadedModuleView) -> Seq<
    LoadedModuleView,
> {
    if has_path(v, m.path) {
        v
    } else {
        v.insert(first_not_before(v, m.path, 0), m)
    }
}

/// `v` without the module whose source path is `p`, if one has it.
pub open spec fn remove_path(v: Seq<LoadedModuleView>, p: Seq<char>) -> Seq<LoadedModuleView> {
    if has_path(v, p) {
        v.remove(index_of_path(v, p))
    } else {
        v
    }
}

/// `v` after removing each of the source paths `ps` in turn.
pub open spec fn remove_paths(v: Seq<LoadedModuleView>, ps: Seq<Seq<char>>) -> Seq<
    LoadedModuleView,
>
    decreases ps.len(),
{
    if ps.len() == 0 {
        v
    } else {
        remove_path(remove_paths(v, ps.drop_last()), ps.last())
    }
}

/// Removing a module never brings a path in.
proof fn lemma_remove_keeps_absent(v: Seq<LoadedModuleView>, p: Seq<char>, q: Seq<char>)
    requires
        !has_path(v, q),
    ensures
        !has_path(remove_path(v, p), q),
{
    if has_path(v, p) {
        let i = index_of_path(v, p);
        let w = v.remove(i);
        assert forall|j: int| 0 <= j < w.len() implies path_order((#[trigger] w[j]).path, q)
            != 0 by {
            if j < i {
                assert(w[j] == v[j]);
            } else {
                assert(w[j] == v[j + 1]);
            }
        }
    }
}

/// Where `first_not_before` stops: every module it passes comes before `p`, and the one it stops
/// at (if any) does not.
proof fn lemma_first_not_before(v: Seq<LoadedModuleView>, p: Seq<char>, k: int)
    requires
        0 <= k <= v.len(),
    ensures
        k <= first_not_before(v, p, k) <= v.len(),
        forall|j: int| k <= j < first_not_before(v, p, k) ==> path_order(#[trigger] v[j].path, p) == -1,
        first_not_before(v, p, k) < v.len() ==> path_order(v[first_not_before(v, p, k)].path, p)
            != -1,
    decreases v.len() - k,
{
    if k < v.len() && path_order(v[k].path, p) == -1 {
        lemma_first_not_before(v, p, k + 1);
    }
}

/// Two modules of a sorted sequence never share a path.
proof fn lemma_sorted_distinct(v: Seq<LoadedModuleView>, i: int, j: int)
    requires
        sorted_paths(v),
        0 <= i < v.len(),
        0 <= j < v.len(),
        i != j,
    ensures
        path_order(v[i].path, v[j].path) != 0,
{
    if j < i {
        assert(path_order(v[j].path, v[i].path) == -1);
        lemma_path_order(v[j].path, v[i].path);
    }
}

/// Paths with the same components as `p` have the same components as each other.
proof fn lemma_same_as(a: Seq<char>, b: Seq<char>, p: Seq<char>)
    requires
        path_order(a, p) == 0,
        path_order(b, p) == 0,
    ensures
        path_order(a, b) == 0,
{
    lemma_path_order(a, p);
    lemma_path_order(b, p);
    lemma_path_order(a, b);
}

/// In a sorted sequence, the module that has a path is the one `index_of_path` picks.
proof fn lemma_index_of_path(v: Seq<LoadedModuleView>, p: Seq<char>, k: int)
    requires
        sorted_paths(v),
        0 <= k < v.len(),
        path_order(v[k].path, p) == 0,
    ensures
        index_of_path(v, p) == k,
{
    let c = index_of_path(v, p);
    assert(path_order(v[c].path, p) == 0);
    if c != k {
        lemma_same_as(v[c].path, v[k].path, p);
        lemma_sorted_distinct(v, c, k);
    }
}

/// Inserting a module whose path no module has, at its place in order, keeps the sequence sorted.
proof fn lemma_insert_sorted(v: Seq<LoadedModuleView>, m: LoadedModuleView)
    requires
        sorted_paths(v),
        !has_path(v, m.path),
    ensures
        sorted_paths(insert_sorted(v, m)),
        has_path(insert_sorted(v, m), m.path),
{
    let p = m.path;
    let q = first_not_before(v, p, 0);
    lemma_first_not_before(v, p, 0);
    let w = v.insert(q, m);
    assert forall|j: int| q <= j < v.len() implies path_order(p, #[trigger] v[j].path) == -1 by {
        assert(path_order(v[q].path, p) != 0);
        lemma_path_order(v[q].path, p);
        if j > q {
            assert(path_order(v[q].path, v[j].path) == -1);
            lemma_path_order_trans(p, v[q].path, v[j].path);
        }
    }
    assert forall|i: int, j: int| 0 <= i < j < w.len() implies path_order(
        (#[trigger] w[i]).path,
        (#[trigger] w[j]).path,
    ) == -1 by {
        if j < q {
            assert(w[i] == v[i] && w[j] == v[j]);
        } else if j == q {
            assert(w[i] == v[i] && w[j] == m);
        } else if i < q {
            assert(w[i] == v[i] && w[j] == v[j - 1]);
        } else if i == q {
            assert(w[i] == m && w[j] == v[j - 1]);
        } else {
            assert(w[i] == v[i - 1] && w[j] == v[j - 1]);
        }
    }
    lemma_path_order(p, p);
    assert(w[q] == m);
}

/// A collection of source paths, retaining information about loaded modules in a `ghci`
/// session. Modules are kept in order of their source paths, and no two share a source path.
#[derive(Debug)]
pub struct ModuleSet {
    modules: Vec<LoadedModule>,
}

/// The views of a sequence of modules.
pub open spec fn loaded_views(v: Seq<LoadedModule>) -> Seq<LoadedModuleView> {
    v.map_values(|m: LoadedModule| m@)
}

impl View for ModuleSet {
    type V = Seq<LoadedModuleView>;

    closed spec fn view(&self) -> Seq<LoadedModuleView> {
        loaded_views(self.modules@)
    }
}

impl ModuleSet {
    #[verifier::type_invariant]
    spec fn paths_are_sorted(&self) -> bool {
        sorted_paths(loaded_views(self.modules@))
    }

    /// An empty set.
    pub fn new() -> (r: Self)
        ensures
            r@ == Seq::<LoadedModuleView>::empty(),
    {
        let modules: Vec<LoadedModule> = Vec::new();
        assert(loaded_views(modules@) =~= Seq::<LoadedModuleView>::empty());
        let r = ModuleSet { modules };
        assert(r@ =~= Seq::<LoadedModuleView>::empty());
        r
    }

    /// The modules in this set, in order of their source paths.
    pub fn iter(&self) -> (r: &[LoadedModule])
        ensures
            loaded_views(r@) == self@,
            sorted_paths(self@),
    {
        proof {
            use_type_invariant(&self);
        }
        self.modules.as_slice()
    }

    /// The modules in this set, in order of their source paths.
    pub fn into_iter(self) -> (r: Vec<LoadedModule>)
        ensures
            loaded_views(r@) == self@,
            sorted_paths(self@),
    {
        proof {
            use_type_invariant(&self);
        }
        self.modules
    }

    /// Get the number of modules in this set.
    pub fn len(&self) -> (r: usize)
        ensures
            r == self@.len(),
    {
        self.modules.len()
    }

    /// Find the index of the module with source path `path`.
    fn find(&self, path: &str) -> (r: Option<usize>)
        ensures
            match r {
                Some(k) => k < self@.len() && path_order(self@[k as int].path, path@) == 0,
                None => !has_path(self@, path@),
            },
    {
        let mut k: usize = 0;
        while k < self.modules.len()
            invariant
                0 <= k <= self.modules.len(),
                self@ == loaded_views(self.modules@),
                forall|j: int| 0 <= j < k ==> path_order((#[trigger] self@[j]).path, path@) != 0,
            decreases self.modules.len() - k,
        {
            assert(self@[k as int] == self.modules@[k as int]@);
            if compare_paths(self.modules[k].path().as_str(), path) == 0 {
                return Some(k);
            }
            k += 1;
        }
        None
    }

    /// Where a module with source path `path` goes: see [`first_not_before`].
    fn position(&self, path: &str) -> (r: usize)
        ensures
            r == first_not_before(self@, path@, 0),
    {
        let mut k: usize = 0;
        loop
            invariant
                0 <= k <= self.modules.len(),
                self@ == loaded_views(self.modules@),
                first_not_before(self@, path@, 0) == first_not_before(self@, path@, k as int),
            decreases self.modules.len() - k,
        {
            if k == self.modules.len() {
                return k;
            }
            assert(self@[k as int] == self.modules@[k as int]@);
            if compare_paths(self.modules[k].path().as_str(), path) != -1 {
                return k;
            }
            k += 1;
        }
    }

    /// Determine if a module with the given source path is contained in this module set.
    pub fn contains_source_path(&self, path: &str) -> (r: bool)
        ensures
            r == has_path(self@, path@),
    {
        self.find(path).is_some()
    }

    /// Add a module to this set. A module with the same source path that is already present is
    /// kept as it is.
    ///
    /// Returns whether the module was newly inserted.
    pub fn insert_module(&mut self, module: LoadedModule) -> (r: bool)
        ensures
            r == !has_path(old(self)@, module@.path),
            final(self)@ == insert_sorted(old(self)@, module@),
            has_path(final(self)@, module@.path),
    {
        proof {
            use_type_invariant(&*self);
        }
        let ghost m = module@;
        match self.find(module.path().as_str()) {
            Some(k) => {
                assert(path_order(self@[k as int].path, m.path) == 0);
                false
            },
            None => {
                let ghost before = self@;
                let q = self.position(module.path().as_str());
                proof {
                    lemma_first_not_before(before, m.path, 0);
                    lemma_insert_sorted(before, m);
                }
                let mut modules: Vec<LoadedModule> = Vec::new();
                std::mem::swap(&mut modules, &mut self.modules);
                modules.insert(q, module);
                assert(loaded_views(modules@) =~= before.insert(q as int, m));
                self.modules = modules;
                true
            },
        }
    }

    /// Remove a source path from this module set.
    ///
    /// Returns whether the path was present in the set.
    pub fn remove_source_path(&mut self, path: &str) -> (r: bool)
        ensures
            r == has_path(old(self)@, path@),
            r ==> final(self)@ == old(self)@.remove(index_of_path(old(self)@, path@)),
            !r ==> final(self)@ == old(self)@,
            !has_path(final(self)@, path@),
    {
        proof {
            use_type_invariant(&*self);
        }
        match self.find(path) {
            Some(k) => {
                let ghost before = self@;
                proof {
                    lemma_index_of_path(before, path@, k as int);
                }
                let mut modules: Vec<LoadedModule> = Vec::new();
                std::mem::swap(&mut modules, &mut self.modules);
                modules.remove(k);
                let ghost after = before.remove(k as int);
                assert(loaded_views(modules@) =~= after);
                assert forall|i: int, j: int| 0 <= i < j < after.len() implies path_order(
                    (#[trigger] after[i]).path,
                    (#[trigger] after[j]).path,
                ) == -1 by {
                    let i2 = if i < k { i } else { i + 1 };
                    let j2 = if j < k { j } else { j + 1 };
                    assert(after[i] == before[i2]);
                    assert(after[j] == before[j2]);
                }
                self.modules = modules;
                assert forall|j: int| 0 <= j < after.len() implies path_order(
                    (#[trigger] after[j]).path,
                    path@,
                ) != 0 by {
                    let j2 = if j < k { j } else { j + 1 };
                    assert(after[j] == before[j2]);
                    if path_order(before[j2].path, path@) == 0 {
                        lemma_same_as(before[j2].path, before[k as int].path, path@);
                        lemma_sorted_distinct(before, j2, k as int);
                    }
                }
                true
            },
            None => false,
        }
    }

    /// Remove each of the source paths in turn; see [`ModuleSet::remove_source_path`]. None of
    /// them is left.
    pub fn remove_source_paths(&mut self, paths: &Vec<String>)
        ensures
            final(self)@ == remove_paths(old(self)@, views(paths@)),
            forall|k: int| 0 <= k < paths.len() ==> !has_path(final(self)@, #[trigger] paths@[k]@),
    {
        let ghost ps = views(paths@);
        let ghost start = self@;
        let mut k: usize = 0;
        while k < paths.len()
            invariant
                0 <= k <= paths.len(),
                ps == views(paths@),
                self@ == remove_paths(start, ps.take(k as int)),
                forall|j: int| 0 <= j < k ==> !has_path(self@, #[trigger] paths@[j]@),
            decreases paths.len() - k,
        {
            let ghost before = self@;
            self.remove_source_path(paths[k].as_str());
            assert(ps.take(k + 1).drop_last() =~= ps.take(k as int));
            assert(ps[k as int] == paths@[k as int]@);
            assert forall|j: int| 0 <= j < k + 1 implies !has_path(self@, #[trigger] paths@[j]@) by {
                if j < k {
                    lemma_remove_keeps_absent(before, paths@[k as int]@, paths@[j]@);
                }
            }
            k += 1;
        }
        assert(ps.take(paths.len() as int) =~= ps);
    }

    /// Get the module in this set with the given source path.
    pub fn get_module(&self, path: &str) -> (r: Option<&LoadedModule>)
        ensures
            match r {
                Some(m) => has_path(self@, path@) && m@ == self@[index_of_path(self@, path@)],
                None => !has_path(self@, path@),
            },
    {
        proof {
            use_type_invariant(self);
        }
        match self.find(path) {
            Some(k) => {
                proof {
                    lemma_index_of_path(self@, path@, k as int);
                }
                assert(self@[k as int] == self.modules@[k as int]@);
                Some(&self.modules[k])
            },
            None => None,
        }
    }

    /// Get the import name for a module: the module in this set with the given source path, or
    /// else a module loaded by that path.
    ///
    /// The path parameter should be relative to the GHCi session's working directory.
    pub fn get_import_name(&self, path: &String) -> (r: LoadedModule)
        ensures
            has_path(self@, path@) ==> r@ == self@[index_of_path(self@, path@)],
            !has_path(self@, path@) ==> r@ == (LoadedModuleView { path: path@, name: None }),
    {
        match self.get_module(path.as_str()) {
            Some(module) => module.duplicate(),
            None => LoadedModule::new(path.clone()),
        }
    }

    /// Add each of the modules in turn; see [`ModuleSet::insert_module`].
    pub fn extend(&mut self, modules: Vec<LoadedModule>)
        ensures
            final(self)@ == insert_all(old(self)@, loaded_views(modules@)),
    {
        let ghost ms = loaded_views(modules@);
        let mut k: usize = 0;
        let ghost start = self@;
        while k < modules.len()
            invariant
                0 <= k <= modules.len(),
                ms == loaded_views(modules@),
                self@ == insert_all(start, ms.take(k as int)),
            decreases modules.len() - k,
        {
            let m = modules[k].duplicate();
            self.insert_module(m);
            assert(ms.take(k + 1).drop_last() =~= ms.take(k as int));
            k += 1;
        }
        assert(ms.take(modules.len() as int) =~= ms);
    }

    /// A set of the given modules; see [`ModuleSet::extend`].
    pub fn from_modules(modules: Vec<LoadedModule>) -> (r: Self)
        ensures
            r@ == insert_all(Seq::<LoadedModuleView>::empty(), loaded_views(modules@)),
    {
        let mut r = ModuleSet::new();
        r.extend(modules);
        r
    }
}

impl Clone for ModuleSet {
    fn clone(&self) -> (r: Self)
        ensures
            r@ == self@,
    {
        proof {
            use_type_invariant(self);
        }
        let mut modules: Vec<LoadedModule> = Vec::new();
        let mut k: usize = 0;
        while k < self.modules.len()
            invariant
                0 <= k <= self.modules.len(),
                loaded_views(modules@) == self@.take(k as int),
                self@ == loaded_views(self.modules@),
                sorted_paths(self@),
            decreases self.modules.len() - k,
        {
            let m = self.modules[k].duplicate();
            let ghost before = loaded_views(modules@);
            modules.push(m);
            assert(self@[k as int] == self.modules@[k as int]@);
            assert(loaded_views(modules@) =~= before.push(m@));
            assert(self@.take(k + 1) =~= self@.take(k as int).push(self@[k as int]));
            k += 1;
        }
        assert(self@.take(k as int) =~= self@);
        ModuleSet { modules }
    }
}

impl Default for ModuleSet {
    fn default() -> (r: Self)
        ensures
            r@ == Seq::<LoadedModuleView>::empty(),
    {
        ModuleSet::new()
    }
}

/// The modules after adding each of `ms` in turn, in order of paths: one is added only when no
/// module has its path.
pub open spec fn insert_all(v: Seq<LoadedModuleView>, ms: Seq<LoadedModuleView>) -> Seq<LoadedModuleView>
    decreases ms.len(),
{
    if ms.len() == 0 {
        v
    } else {
        insert_sorted(insert_all(v, ms.drop_last()), ms.last())
    }
}

} // verus!

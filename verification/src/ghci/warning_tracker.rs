//! Warnings tracked across recompilations: which files have which warnings, as files are
//! modified, recompiled, added or removed.
use vstd::prelude::*;

use super::compilation_log::{diagnostic_views, module_views, CompilationLog, CompilationLogView};
use super::parse::ghc_message::{GhcDiagnostic, GhcDiagnosticView};
use super::parse::module_and_files::ModuleView;
use crate::text::{contains_string, views};

verus! {

/// A file's warnings.
pub type FileWarnings = (Seq<char>, Seq<GhcDiagnosticView>);

/// The index of the first entry for `path`, if any.
pub open spec fn key_index(v: Seq<FileWarnings>, path: Seq<char>) -> Option<int> {
    if exists|k: int| 0 <= k < v.len() && (#[trigger] v[k]).0 == path {
        Some(
            choose|k: int|
                0 <= k < v.len() && (#[trigger] v[k]).0 == path && forall|j: int|
                    0 <= j < k ==> (#[trigger] v[j]).0 != path,
        )
    } else {
        None
    }
}

/// The warnings recorded for `path`, if any.
pub open spec fn lookup(v: Seq<FileWarnings>, path: Seq<char>) -> Option<Seq<GhcDiagnosticView>> {
    match key_index(v, path) {
        Some(k) => Some(v[k].1),
        None => None,
    }
}

/// The entries with `path`'s warnings set to `ds`: replaced where `path` is, appended otherwise.
pub open spec fn set_entry(v: Seq<FileWarnings>, path: Seq<char>, ds: Seq<GhcDiagnosticView>) -> Seq<FileWarnings> {
    match key_index(v, path) {
        Some(k) => v.update(k, (path, ds)),
        None => v.push((path, ds)),
    }
}

/// The entries without `path`.
pub open spec fn remove_entry(v: Seq<FileWarnings>, path: Seq<char>) -> Seq<FileWarnings> {
    v.filter(|e: FileWarnings| e.0 != path)
}

/// The diagnostics grouped by path, in order of first appearance; diagnostics without a path
/// are left out.
pub open spec fn group_by_path(ds: Seq<GhcDiagnosticView>) -> Seq<FileWarnings>
    decreases ds.len(),
{
    if ds.len() == 0 {
        Seq::empty()
    } else {
        let g = group_by_path(ds.drop_last());
        let d = ds.last();
        match d.path {
            Some(p) => match lookup(g, p) {
                Some(old) => set_entry(g, p, old.push(d)),
                None => g.push((p, seq![d])),
            },
            None => g,
        }
    }
}

/// The warnings after a compilation, one compiled module at a time: a module with new warnings
/// gets them; a directly changed module without new warnings loses its warnings; any other
/// module keeps what it had.
pub open spec fn update_warnings(
    warnings: Seq<FileWarnings>,
    new: Seq<FileWarnings>,
    changed: Seq<Seq<char>>,
    compiled: Seq<ModuleView>,
) -> Seq<FileWarnings>
    decreases compiled.len(),
{
    if compiled.len() == 0 {
        warnings
    } else {
        let w = update_warnings(warnings, new, changed, compiled.drop_last());
        let p = compiled.last().path;
        match lookup(new, p) {
            Some(ds) => set_entry(w, p, ds),
            None => if changed.contains(p) {
                remove_entry(w, p)
            } else {
                w
            },
        }
    }
}

/// The total number of warnings.
pub open spec fn total_warnings(v: Seq<FileWarnings>) -> nat
    decreases v.len(),
{
    if v.len() == 0 {
        0
    } else {
        total_warnings(v.drop_last()) + v.last().1.len()
    }
}

/// The contents of a [`WarningTracker`].
pub struct WarningTrackerView {
    pub warnings: Seq<FileWarnings>,
    pub changed_files: Seq<Seq<char>>,
}

/// Tracks warnings across recompilations.
#[derive(Debug)]
pub struct WarningTracker {
    /// Per-file warnings from GHC compilation, persisted across reloads.
    warnings: Vec<(String, Vec<GhcDiagnostic>)>,
    /// Files that were directly changed in the current reload operation.
    current_changed_files: Vec<String>,
}

/// The views of the entries.
pub open spec fn entry_views(v: Seq<(String, Vec<GhcDiagnostic>)>) -> Seq<FileWarnings> {
    v.map_values(|e: (String, Vec<GhcDiagnostic>)| (e.0@, diagnostic_views(e.1@)))
}

impl View for WarningTracker {
    type V = WarningTrackerView;

    closed spec fn view(&self) -> WarningTrackerView {
        WarningTrackerView {
            warnings: entry_views(self.warnings@),
            changed_files: views(self.current_changed_files@),
        }
    }
}

fn copy_diagnostics(ds: &Vec<GhcDiagnostic>) -> (r: Vec<GhcDiagnostic>)
    ensures
        diagnostic_views(r@) == diagnostic_views(ds@),
{
    let mut r: Vec<GhcDiagnostic> = Vec::new();
    let mut k: usize = 0;
    while k < ds.len()
        invariant
            0 <= k <= ds.len(),
            diagnostic_views(r@) == diagnostic_views(ds@).take(k as int),
        decreases ds.len() - k,
    {
        let ghost before = diagnostic_views(r@);
        let d = ds[k].duplicate();
        r.push(d);
        assert(diagnostic_views(r@) =~= before.push(ds@[k as int]@));
        assert(diagnostic_views(ds@).take(k + 1) =~= diagnostic_views(ds@).take(k as int).push(
            ds@[k as int]@,
        ));
        k += 1;
    }
    assert(diagnostic_views(ds@).take(k as int) =~= diagnostic_views(ds@));
    r
}

/// Find the first entry for `path`; see [`key_index`].
fn find_entry(v: &Vec<(String, Vec<GhcDiagnostic>)>, path: &String) -> (r: Option<usize>)
    ensures
        match r {
            Some(k) => k < v.len() && key_index(entry_views(v@), path@) == Some(k as int),
            None => key_index(entry_views(v@), path@) is None,
        },
{
    let ghost ev = entry_views(v@);
    let mut k: usize = 0;
    while k < v.len()
        invariant
            0 <= k <= v.len(),
            ev == entry_views(v@),
            forall|j: int| 0 <= j < k ==> (#[trigger] ev[j]).0 != path@,
        decreases v.len() - k,
    {
        assert(ev[k as int].0 == v@[k as int].0@);
        if v[k].0 == *path {
            proof {
                let c = choose|c: int|
                    0 <= c < ev.len() && (#[trigger] ev[c]).0 == path@ && forall|j: int|
                        0 <= j < c ==> (#[trigger] ev[j]).0 != path@;
                assert(c == k) by {
                    if c > k {
                        assert(ev[k as int].0 != path@);
                    }
                }
            }
            return Some(k);
        }
        k += 1;
    }
    None
}

/// Set the warnings of `path`; see [`set_entry`].
fn set_entry_vec(v: &mut Vec<(String, Vec<GhcDiagnostic>)>, path: String, ds: Vec<GhcDiagnostic>)
    ensures
        entry_views(final(v)@) == set_entry(entry_views(old(v)@), path@, diagnostic_views(ds@)),
{
    let ghost before = entry_views(v@);
    let ghost item = (path@, diagnostic_views(ds@));
    match find_entry(v, &path) {
        Some(k) => {
            v.set(k, (path, ds));
            assert(entry_views(v@) =~= before.update(k as int, item));
        },
        None => {
            v.push((path, ds));
            assert(entry_views(v@) =~= before.push(item));
        },
    }
}

/// Remove every entry for `path`; see [`remove_entry`].
fn remove_entry_vec(v: &mut Vec<(String, Vec<GhcDiagnostic>)>, path: &String)
    ensures
        entry_views(final(v)@) == remove_entry(entry_views(old(v)@), path@),
{
    let ghost ev = entry_views(v@);
    let mut old_entries: Vec<(String, Vec<GhcDiagnostic>)> = Vec::new();
    std::mem::swap(&mut old_entries, v);
    assert(entry_views(v@) =~= Seq::<FileWarnings>::empty());
    let mut kept = 0usize;
    let n = old_entries.len();
    let mut k: usize = 0;
    assert(ev.take(0).filter(|e: FileWarnings| e.0 != path@) =~= Seq::<FileWarnings>::empty());
    while old_entries.len() > 0
        invariant
            ev.len() == n,
            k + old_entries.len() == n,
            entry_views(old_entries@) == ev.subrange(k as int, n as int),
            entry_views(v@) == ev.take(k as int).filter(|e: FileWarnings| e.0 != path@),
        decreases old_entries.len(),
    {
        let ghost prev = old_entries@;
        let e = old_entries.remove(0);
        assert(e == prev[0]);
        assert(entry_views(prev)[0] == ev.subrange(k as int, n as int)[0]);
        assert(ev[k as int] == (e.0@, diagnostic_views(e.1@)));
        assert(old_entries@ =~= prev.subrange(1, prev.len() as int));
        assert(ev.take(k + 1).drop_last() =~= ev.take(k as int));
        let ghost before = entry_views(v@);
        if e.0 != *path {
            v.push(e);
            assert(entry_views(v@) =~= before.push(ev[k as int]));
        }
        assert(ev.take(k + 1).filter(|e: FileWarnings| e.0 != path@) =~= entry_views(v@)) by {
            reveal(Seq::filter);
            assert(ev.take(k + 1).last() == ev[k as int]);
        }
        assert(entry_views(old_entries@) =~= ev.subrange(k + 1, n as int)) by {
            assert forall|j: int| 0 <= j < old_entries.len() implies entry_views(old_entries@)[j]
                == ev.subrange(k + 1, n as int)[j] by {
                assert(old_entries@[j] == prev[j + 1]);
                assert(entry_views(prev)[j + 1] == ev.subrange(k as int, n as int)[j + 1]);
            }
        }
        k += 1;
    }
    assert(ev.take(n as int) =~= ev);
}

} // verus!

verus! {

/// Group diagnostics by path; see [`group_by_path`].
fn group_diagnostics(ds: &Vec<GhcDiagnostic>) -> (r: Vec<(String, Vec<GhcDiagnostic>)>)
    ensures
        entry_views(r@) == group_by_path(diagnostic_views(ds@)),
{
    let ghost dv = diagnostic_views(ds@);
    let mut groups: Vec<(String, Vec<GhcDiagnostic>)> = Vec::new();
    assert(entry_views(groups@) =~= group_by_path(dv.take(0)));
    let mut k: usize = 0;
    while k < ds.len()
        invariant
            0 <= k <= ds.len(),
            dv == diagnostic_views(ds@),
            entry_views(groups@) == group_by_path(dv.take(k as int)),
        decreases ds.len() - k,
    {
        let d = &ds[k];
        assert(dv.take(k + 1).drop_last() =~= dv.take(k as int));
        assert(dv.take(k + 1).last() == d@);
        match &d.path {
            Some(p) => {
                match find_entry(&groups, p) {
                    Some(i) => {
                        let mut existing = copy_diagnostics(&groups[i].1);
                        let ghost before = diagnostic_views(existing@);
                        existing.push(d.duplicate());
                        assert(diagnostic_views(existing@) =~= before.push(d@));
                        assert(entry_views(groups@)[i as int].1 == before);
                        set_entry_vec(&mut groups, p.clone(), existing);
                    },
                    None => {
                        let mut one: Vec<GhcDiagnostic> = Vec::new();
                        one.push(d.duplicate());
                        assert(diagnostic_views(one@) =~= seq![d@]);
                        let ghost before = entry_views(groups@);
                        groups.push((p.clone(), one));
                        assert(entry_views(groups@) =~= before.push((p@, seq![d@])));
                    },
                }
            },
            None => {},
        }
        k += 1;
    }
    assert(dv.take(ds.len() as int) =~= dv);
    groups
}

impl WarningTracker {
    /// Create a new warning tracker: no warnings, no changed files.
    pub fn new() -> (r: Self)
        ensures
            r@.warnings == Seq::<FileWarnings>::empty(),
            r@.changed_files == Seq::<Seq<char>>::empty(),
    {
        let r = WarningTracker { warnings: Vec::new(), current_changed_files: Vec::new() };
        assert(r@.warnings =~= Seq::<FileWarnings>::empty());
        assert(r@.changed_files =~= Seq::<Seq<char>>::empty());
        r
    }

    /// Reset the list of files that were directly changed.
    /// This should be called at the start of each reload operation.
    pub fn reset_changed_files(&mut self)
        ensures
            final(self)@.warnings == old(self)@.warnings,
            final(self)@.changed_files == Seq::<Seq<char>>::empty(),
    {
        self.current_changed_files = Vec::new();
        assert(views(self.current_changed_files@) =~= Seq::<Seq<char>>::empty());
    }

    /// Mark a file as having been directly changed (once).
    pub fn mark_file_changed(&mut self, path: String)
        ensures
            final(self)@.warnings == old(self)@.warnings,
            final(self)@.changed_files == if old(self)@.changed_files.contains(path@) {
                old(self)@.changed_files
            } else {
                old(self)@.changed_files.push(path@)
            },
    {
        if !contains_string(&self.current_changed_files, &path) {
            let ghost before = views(self.current_changed_files@);
            let ghost p = path@;
            self.current_changed_files.push(path);
            assert(views(self.current_changed_files@) =~= before.push(p));
        }
    }

    /// Is the file marked as directly changed?
    pub fn is_changed(&self, path: &String) -> (r: bool)
        ensures
            r == self@.changed_files.contains(path@),
    {
        contains_string(&self.current_changed_files, path)
    }

    /// Update warnings from a compilation log; see [`update_warnings`]:
    /// - files that were directly changed: always update warnings (or clear if none);
    /// - files that were recompiled due to dependencies: only update if warnings exist;
    /// - files that weren't recompiled: keep existing warnings.
    pub fn update_warnings_from_log(&mut self, log: &CompilationLog)
        ensures
            final(self)@.changed_files == old(self)@.changed_files,
            final(self)@.warnings == update_warnings(
                old(self)@.warnings,
                group_by_path(log@.diagnostics),
                old(self)@.changed_files,
                log@.compiled_modules,
            ),
    {
        let groups = group_diagnostics(&log.diagnostics);
        let ghost gv = entry_views(groups@);
        let ghost compiled = module_views(log.compiled_modules@);
        let ghost start = self@;
        let mut k: usize = 0;
        while k < log.compiled_modules.len()
            invariant
                0 <= k <= log.compiled_modules.len(),
                gv == entry_views(groups@),
                gv == group_by_path(log@.diagnostics),
                compiled == module_views(log.compiled_modules@),
                compiled == log@.compiled_modules,
                self@.changed_files == start.changed_files,
                self@.warnings == update_warnings(
                    start.warnings,
                    gv,
                    start.changed_files,
                    compiled.take(k as int),
                ),
            decreases log.compiled_modules.len() - k,
        {
            let path = &log.compiled_modules[k].path;
            assert(compiled.take(k + 1).drop_last() =~= compiled.take(k as int));
            assert(compiled.take(k + 1).last().path == path@);
            match find_entry(&groups, path) {
                Some(i) => {
                    let ds = copy_diagnostics(&groups[i].1);
                    assert(gv[i as int].1 == diagnostic_views(groups@[i as int].1@));
                    set_entry_vec(&mut self.warnings, path.clone(), ds);
                },
                None => {
                    if contains_string(&self.current_changed_files, path) {
                        remove_entry_vec(&mut self.warnings, path);
                    }
                },
            }
            k += 1;
        }
        assert(compiled.take(log.compiled_modules.len() as int) =~= compiled);
    }

    /// Clear warnings for the specified paths.
    /// This is called when files are removed or when we know they should no longer have warnings.
    pub fn clear_warnings_for_paths(&mut self, paths: &Vec<String>)
        ensures
            final(self)@.changed_files == old(self)@.changed_files,
            final(self)@.warnings == remove_all(old(self)@.warnings, views(paths@)),
    {
        let ghost start = self@.warnings;
        let mut k: usize = 0;
        assert(views(paths@).take(0) =~= Seq::<Seq<char>>::empty());
        while k < paths.len()
            invariant
                0 <= k <= paths.len(),
                self@.changed_files == old(self)@.changed_files,
                start == old(self)@.warnings,
                self@.warnings == remove_all(start, views(paths@).take(k as int)),
            decreases paths.len() - k,
        {
            remove_entry_vec(&mut self.warnings, &paths[k]);
            assert(views(paths@).take(k + 1).drop_last() =~= views(paths@).take(k as int));
            assert(views(paths@).take(k + 1).last() == paths@[k as int]@);
            k += 1;
        }
        assert(views(paths@).take(paths.len() as int) =~= views(paths@));
    }

    /// The warnings of each file with warnings, in the order the files first got them.
    pub fn get_all_warnings(&self) -> (r: &Vec<(String, Vec<GhcDiagnostic>)>)
        ensures
            entry_views(r@) == self@.warnings,
    {
        &self.warnings
    }

    /// Set a file's warnings, replacing any it had.
    pub fn set_warnings(&mut self, path: String, warnings: Vec<GhcDiagnostic>)
        ensures
            final(self)@.changed_files == old(self)@.changed_files,
            final(self)@.warnings == set_entry(old(self)@.warnings, path@, diagnostic_views(warnings@)),
    {
        set_entry_vec(&mut self.warnings, path, warnings);
    }

    /// The number of files with recorded warnings.
    pub fn file_count(&self) -> (r: usize)
        ensures
            r == self@.warnings.len(),
    {
        self.warnings.len()
    }

    /// Get the total number of warnings across all files.
    pub fn warning_count(&self) -> (r: usize)
        requires
            total_warnings(self@.warnings) <= usize::MAX,
        ensures
            r == total_warnings(self@.warnings),
    {
        let ghost w = self@.warnings;
        let mut total: usize = 0;
        let mut k: usize = 0;
        while k < self.warnings.len()
            invariant
                0 <= k <= self.warnings.len(),
                w == entry_views(self.warnings@),
                total_warnings(w) <= usize::MAX,
                total == total_warnings(w.take(k as int)),
            decreases self.warnings.len() - k,
        {
            assert(w.take(k + 1).drop_last() =~= w.take(k as int));
            assert(w.take(k + 1).last().1.len() == self.warnings@[k as int].1.len());
            proof {
                lemma_total_prefix(w, k + 1);
            }
            total = total + self.warnings[k].1.len();
            k += 1;
        }
        assert(w.take(k as int) =~= w);
        total
    }

    /// Check if there are any warnings tracked.
    pub fn has_warnings(&self) -> (r: bool)
        ensures
            r == (self@.warnings.len() > 0),
    {
        !self.warnings.is_empty()
    }
}

impl Default for WarningTracker {
    fn default() -> (r: Self)
        ensures
            r@.warnings == Seq::<FileWarnings>::empty(),
            r@.changed_files == Seq::<Seq<char>>::empty(),
    {
        WarningTracker::new()
    }
}

/// `k` is the first entry for `path`.
pub open spec fn is_first_key(v: Seq<FileWarnings>, path: Seq<char>, k: int) -> bool {
    &&& 0 <= k < v.len()
    &&& v[k].0 == path
    &&& forall|j: int| 0 <= j < k ==> (#[trigger] v[j]).0 != path
}

/// An entry for `path` at `k` means there is a first one, at or before `k`.
proof fn lemma_first_key_exists(v: Seq<FileWarnings>, path: Seq<char>, k: int)
    requires
        0 <= k < v.len(),
        v[k].0 == path,
    ensures
        exists|c: int| is_first_key(v, path, c),
    decreases k,
{
    if exists|j: int| 0 <= j < k && (#[trigger] v[j]).0 == path {
        let j = choose|j: int| 0 <= j < k && (#[trigger] v[j]).0 == path;
        lemma_first_key_exists(v, path, j);
    } else {
        assert(is_first_key(v, path, k));
    }
}

/// [`key_index`] is the first entry for the path, or `None` when no entry has it.
proof fn lemma_key_index(v: Seq<FileWarnings>, path: Seq<char>)
    ensures
        match key_index(v, path) {
            Some(k) => is_first_key(v, path, k),
            None => forall|j: int| 0 <= j < v.len() ==> (#[trigger] v[j]).0 != path,
        },
{
    if exists|k: int| 0 <= k < v.len() && (#[trigger] v[k]).0 == path {
        let k = choose|k: int| 0 <= k < v.len() && (#[trigger] v[k]).0 == path;
        lemma_first_key_exists(v, path, k);
        let c = choose|c: int| is_first_key(v, path, c);
        assert(0 <= c < v.len() && v[c].0 == path && forall|j: int| 0 <= j < c ==> (#[trigger] v[j]).0
            != path);
    }
}

/// The first entry for a path is the only one that can be first.
proof fn lemma_first_key_unique(v: Seq<FileWarnings>, path: Seq<char>, k: int)
    requires
        is_first_key(v, path, k),
    ensures
        key_index(v, path) == Some(k),
        lookup(v, path) == Some(v[k].1),
{
    lemma_key_index(v, path);
    match key_index(v, path) {
        Some(c) => {
            if c < k {
                assert(v[c].0 != path);
            }
            if k < c {
                assert(v[k].0 != path);
            }
        },
        None => {
            assert(v[k].0 != path);
        },
    }
}

/// Looking a path up after appending an entry: an earlier entry wins.
proof fn lemma_lookup_push(v: Seq<FileWarnings>, x: FileWarnings, path: Seq<char>)
    ensures
        lookup(v.push(x), path) == if lookup(v, path) is Some {
            lookup(v, path)
        } else if x.0 == path {
            Some(x.1)
        } else {
            None
        },
{
    let u = v.push(x);
    lemma_key_index(v, path);
    lemma_key_index(u, path);
    match key_index(v, path) {
        Some(k) => {
            assert(is_first_key(u, path, k)) by {
                assert forall|j: int| 0 <= j < k implies (#[trigger] u[j]).0 != path by {
                    assert(u[j] == v[j]);
                }
                assert(u[k] == v[k]);
            }
            lemma_first_key_unique(u, path, k);
        },
        None => {
            if x.0 == path {
                assert(is_first_key(u, path, v.len() as int)) by {
                    assert forall|j: int| 0 <= j < v.len() implies (#[trigger] u[j]).0 != path by {
                        assert(u[j] == v[j]);
                    }
                }
                lemma_first_key_unique(u, path, v.len() as int);
            } else {
                assert forall|j: int| 0 <= j < u.len() implies (#[trigger] u[j]).0 != path by {
                    if j < v.len() {
                        assert(u[j] == v[j]);
                    }
                }
            }
        },
    }
}

/// Setting a path's warnings changes what that path looks up to, and nothing else.
pub proof fn lemma_lookup_set_entry(
    v: Seq<FileWarnings>,
    q: Seq<char>,
    ds: Seq<GhcDiagnosticView>,
    path: Seq<char>,
)
    ensures
        lookup(set_entry(v, q, ds), path) == if path == q {
            Some(ds)
        } else {
            lookup(v, path)
        },
{
    lemma_key_index(v, q);
    match key_index(v, q) {
        Some(k) => {
            let u = v.update(k, (q, ds));
            lemma_key_index(v, path);
            lemma_key_index(u, path);
            if path == q {
                assert(is_first_key(u, q, k)) by {
                    assert forall|j: int| 0 <= j < k implies (#[trigger] u[j]).0 != q by {
                        assert(u[j] == v[j]);
                    }
                }
                lemma_first_key_unique(u, q, k);
            } else {
                match key_index(v, path) {
                    Some(m) => {
                        assert(is_first_key(u, path, m)) by {
                            assert forall|j: int| 0 <= j < m implies (#[trigger] u[j]).0 != path by {
                                if j != k {
                                    assert(u[j] == v[j]);
                                }
                            }
                            assert(m != k);
                            assert(u[m] == v[m]);
                        }
                        lemma_first_key_unique(u, path, m);
                    },
                    None => {
                        assert forall|j: int| 0 <= j < u.len() implies (#[trigger] u[j]).0 != path by {
                            if j != k {
                                assert(u[j] == v[j]);
                            }
                        }
                    },
                }
            }
        },
        None => {
            lemma_lookup_push(v, (q, ds), path);
            if path == q {
                lemma_key_index(v, q);
            }
        },
    }
}

/// Removing a path's warnings leaves that path with none, and the other paths as they were.
pub proof fn lemma_lookup_remove_entry(v: Seq<FileWarnings>, q: Seq<char>, path: Seq<char>)
    ensures
        lookup(remove_entry(v, q), path) == if path == q {
            None
        } else {
            lookup(v, path)
        },
    decreases v.len(),
{
    reveal(Seq::filter);
    if v.len() == 0 {
        assert(remove_entry(v, q) =~= v);
        lemma_key_index(v, path);
    } else {
        let dl = v.drop_last();
        let x = v.last();
        lemma_lookup_remove_entry(dl, q, path);
        assert(v =~= dl.push(x));
        lemma_lookup_push(dl, x, path);
        if x.0 != q {
            assert(remove_entry(v, q) == remove_entry(dl, q).push(x));
            lemma_lookup_push(remove_entry(dl, q), x, path);
        } else {
            assert(remove_entry(v, q) == remove_entry(dl, q));
        }
    }
}

/// The warnings a file has after a compilation, file by file: a compiled file with new warnings
/// has exactly those; a compiled file without new warnings has none if it was directly changed
/// and keeps what it had otherwise; a file that was not compiled keeps what it had.
pub proof fn lemma_update_warnings_per_file(
    warnings: Seq<FileWarnings>,
    new: Seq<FileWarnings>,
    changed: Seq<Seq<char>>,
    compiled: Seq<ModuleView>,
    path: Seq<char>,
)
    ensures
        lookup(update_warnings(warnings, new, changed, compiled), path) == if exists|k: int|
            0 <= k < compiled.len() && (#[trigger] compiled[k]).path == path {
            match lookup(new, path) {
                Some(ds) => Some(ds),
                None => if changed.contains(path) {
                    None
                } else {
                    lookup(warnings, path)
                },
            }
        } else {
            lookup(warnings, path)
        },
    decreases compiled.len(),
{
    if compiled.len() > 0 {
        let rest = compiled.drop_last();
        let w = update_warnings(warnings, new, changed, rest);
        let q = compiled.last().path;
        lemma_update_warnings_per_file(warnings, new, changed, rest, path);
        assert(compiled[compiled.len() - 1] == compiled.last());
        assert((exists|k: int| 0 <= k < compiled.len() && (#[trigger] compiled[k]).path == path) <==> (
        (exists|k: int| 0 <= k < rest.len() && (#[trigger] rest[k]).path == path) || q == path)) by {
            if exists|k: int| 0 <= k < compiled.len() && (#[trigger] compiled[k]).path == path {
                let k = choose|k: int| 0 <= k < compiled.len() && (#[trigger] compiled[k]).path == path;
                if k < rest.len() {
                    assert(rest[k] == compiled[k]);
                }
            }
            if exists|k: int| 0 <= k < rest.len() && (#[trigger] rest[k]).path == path {
                let k = choose|k: int| 0 <= k < rest.len() && (#[trigger] rest[k]).path == path;
                assert(rest[k] == compiled[k]);
            }
        }
        match lookup(new, q) {
            Some(ds) => lemma_lookup_set_entry(w, q, ds, path),
            None => if changed.contains(q) {
                lemma_lookup_remove_entry(w, q, path);
            },
        }
    }
}

/// The total of a prefix is at most the total.
pub proof fn lemma_total_prefix(w: Seq<FileWarnings>, n: int)
    requires
        0 <= n <= w.len(),
    ensures
        total_warnings(w.take(n)) <= total_warnings(w),
    decreases w.len() - n,
{
    if n < w.len() {
        lemma_total_prefix(w, n + 1);
        assert(w.take(n + 1).drop_last() =~= w.take(n));
    } else {
        assert(w.take(n) =~= w);
    }
}

/// The entries without any of the paths, removed one path at a time.
pub open spec fn remove_all(w: Seq<FileWarnings>, ps: Seq<Seq<char>>) -> Seq<FileWarnings>
    decreases ps.len(),
{
    if ps.len() == 0 {
        w
    } else {
        remove_entry(remove_all(w, ps.drop_last()), ps.last())
    }
}

/// Clearing warnings for some paths leaves those paths with none and every other path with
/// what it had.
pub proof fn lemma_remove_all_per_file(w: Seq<FileWarnings>, ps: Seq<Seq<char>>, path: Seq<char>)
    ensures
        lookup(remove_all(w, ps), path) == if ps.contains(path) {
            None
        } else {
            lookup(w, path)
        },
    decreases ps.len(),
{
    if ps.len() > 0 {
        lemma_remove_all_per_file(w, ps.drop_last(), path);
        lemma_lookup_remove_entry(remove_all(w, ps.drop_last()), ps.last(), path);
        assert(ps[ps.len() - 1] == ps.last());
        if ps.drop_last().contains(path) {
            let k = choose|k: int| 0 <= k < ps.drop_last().len() && ps.drop_last()[k] == path;
            assert(ps[k] == path);
        }
        if ps.contains(path) && ps.last() != path {
            let k = choose|k: int| 0 <= k < ps.len() && ps[k] == path;
            assert(ps.drop_last()[k] == path);
        }
    }
}

} // verus!

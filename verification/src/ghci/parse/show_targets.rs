//! `:show targets` output: one target per line, a source path or a module name.
use vstd::prelude::*;

use super::lines::{lines_from, split_lines};
use super::show_paths::{
    first_existing_path, first_true, path_result_view, possible_target_path, target_candidates,
    PathError, ShowPaths, ShowPathsView,
};
use crate::ghci::loaded_module::{LoadedModule, LoadedModuleView};
use crate::ghci::module_set::{insert_all, loaded_views, ModuleSet};
use crate::haskell_source_file::{is_haskell_source_file, is_haskell_source_path};
use crate::text::{chars_of, views};

verus! {

/// Why `:show targets` output could not be turned into modules.
#[derive(Debug, Clone, Copy, PartialEq, Eq, Structural)]
pub enum ShowTargetsError {
    /// The output is not made of lines.
    Parse,
    /// No source file was found for a target.
    SourceNotFound,
}

/// The module a target resolves to at `path`: named by the target unless the target is itself a
/// source path.
pub open spec fn target_module(target: Seq<char>, path: Seq<char>) -> LoadedModuleView {
    LoadedModuleView {
        path,
        name: if is_haskell_source_path(target) {
            None
        } else {
            Some(target)
        },
    }
}

/// The modules the targets resolve to, given the path each was resolved to (in order);
/// `SourceNotFound` when any target has no source file.
pub open spec fn targets_modules(
    targets: Seq<Seq<char>>,
    paths: Seq<Result<Seq<char>, PathError>>,
) -> Result<Seq<LoadedModuleView>, ShowTargetsError>
    decreases paths.len(),
{
    if paths.len() == 0 {
        Ok(Seq::empty())
    } else {
        match targets_modules(targets, paths.drop_last()) {
            Err(e) => Err(e),
            Ok(ms) => match paths.last() {
                Ok(p) => Ok(ms.push(target_module(targets[paths.len() - 1], p))),
                Err(_) => Err(ShowTargetsError::SourceNotFound),
            },
        }
    }
}

/// The module set that the resolved targets give: each module once, by path, the first one to
/// have it kept.
pub open spec fn targets_module_set(
    targets: Seq<Seq<char>>,
    paths: Seq<Result<Seq<char>, PathError>>,
) -> Result<Seq<LoadedModuleView>, ShowTargetsError> {
    match targets_modules(targets, paths) {
        Ok(ms) => Ok(insert_all(Seq::empty(), ms)),
        Err(e) => Err(e),
    }
}

/// The view of a module set result.
pub open spec fn set_result_view(r: Result<ModuleSet, ShowTargetsError>) -> Result<
    Seq<LoadedModuleView>,
    ShowTargetsError,
> {
    match r {
        Ok(set) => Ok(set@),
        Err(e) => Err(e),
    }
}

/// The views of path results.
pub open spec fn path_results_view(v: Seq<Result<String, PathError>>) -> Seq<
    Result<Seq<char>, PathError>,
> {
    v.map_values(|r: Result<String, PathError>| path_result_view(r))
}

/// Build the module set from the targets and the path each was resolved to (`paths[k]` for
/// `targets[k]`): `SourceNotFound` when any target has no source file.
pub fn modules_of_targets(targets: &Vec<String>, paths: &Vec<Result<String, PathError>>) -> (r:
    Result<ModuleSet, ShowTargetsError>)
    requires
        targets.len() == paths.len(),
    ensures
        set_result_view(r) == targets_module_set(views(targets@), path_results_view(paths@)),
{
    let ghost ts = views(targets@);
    let ghost ps = path_results_view(paths@);
    let mut modules: Vec<LoadedModule> = Vec::new();
    let mut failed = false;
    let mut k: usize = 0;
    assert(ps.take(0) =~= Seq::<Result<Seq<char>, PathError>>::empty());
    assert(loaded_views(modules@) =~= Seq::<LoadedModuleView>::empty());
    while k < paths.len()
        invariant
            0 <= k <= paths.len(),
            targets.len() == paths.len(),
            ts == views(targets@),
            ps == path_results_view(paths@),
            targets_modules(ts, ps.take(k as int)) == if failed {
                Err::<Seq<LoadedModuleView>, ShowTargetsError>(ShowTargetsError::SourceNotFound)
            } else {
                Ok(loaded_views(modules@))
            },
        decreases paths.len() - k,
    {
        assert(ps.take(k + 1).drop_last() =~= ps.take(k as int));
        assert(ps.take(k + 1).last() == path_result_view(paths@[k as int]));
        if !failed {
            match &paths[k] {
                Ok(p) => {
                    let t = targets[k].as_str();
                    assert(ts[k as int] == t@);
                    let module = if is_haskell_source_file(t) {
                        LoadedModule::new(p.clone())
                    } else {
                        LoadedModule::with_name(p.clone(), t.to_owned())
                    };
                    let ghost before = loaded_views(modules@);
                    assert(module@ == target_module(ts[k as int], p@));
                    modules.push(module);
                    assert(loaded_views(modules@) =~= before.push(target_module(ts[k as int], p@)));
                },
                Err(_) => {
                    failed = true;
                },
            }
        }
        k += 1;
    }
    assert(ps.take(k as int) =~= ps);
    if failed {
        Err(ShowTargetsError::SourceNotFound)
    } else {
        Ok(ModuleSet::from_modules(modules))
    }
}

/// No `true` at all: no first `true`.
proof fn lemma_first_true_all_false(e: Seq<bool>)
    requires
        forall|k: int| 0 <= k < e.len() ==> !e[k],
    ensures
        first_true(e) is None,
    decreases e.len(),
{
    if e.len() > 0 {
        assert(e[e.len() - 1] == e.last());
        lemma_first_true_all_false(e.drop_last());
    }
}

/// Not finding a source file is always a possible outcome of looking a target up.
proof fn lemma_not_found_possible(sp: ShowPathsView, target: Seq<char>)
    ensures
        possible_target_path(sp, target, Err(PathError::SourceNotFound)),
{
    let n = target_candidates(sp, target).len();
    let e = Seq::new(n, |i: int| false);
    lemma_first_true_all_false(e);
    assert(first_existing_path(target_candidates(sp, target), e) == Err::<Seq<char>, PathError>(
        PathError::SourceNotFound,
    ));
}

/// Parse `:show targets` output into the set of loaded modules: each line is a target, resolved
/// to its source path in order; a target given as a module name keeps that name. `Parse` exactly
/// when the output is not made of lines; otherwise the result is what
/// [`modules_of_targets`] gives for some outcome of looking each target up (see
/// [`ShowPaths::target_to_path`]), so no target lines give the empty set.
pub fn parse_show_targets(search_paths: &ShowPaths, input: &str) -> (r: Result<ModuleSet, ShowTargetsError>)
    ensures
        lines_from(input@, 0, false).1 != input@.len() ==> r == Err::<ModuleSet, ShowTargetsError>(
            ShowTargetsError::Parse,
        ),
        lines_from(input@, 0, false).1 == input@.len() ==> exists|paths: Seq<
            Result<Seq<char>, PathError>,
        >|
            #![trigger targets_module_set(lines_from(input@, 0, false).0, paths)]
            paths.len() == lines_from(input@, 0, false).0.len() && (forall|j: int|
                0 <= j < paths.len() ==> possible_target_path(
                    search_paths@,
                    lines_from(input@, 0, false).0[j],
                    #[trigger] paths[j],
                )) && set_result_view(r) == targets_module_set(
                lines_from(input@, 0, false).0,
                paths,
            ),
        lines_from(input@, 0, false).1 == input@.len() && lines_from(input@, 0, false).0.len() == 0
            ==> (r matches Ok(set) && set@.len() == 0),
{
    let s = chars_of(input);
    let targets = match split_lines(&s, false) {
        Some(t) => t,
        None => return Err(ShowTargetsError::Parse),
    };
    let ghost ts = views(targets@);
    let mut paths: Vec<Result<String, PathError>> = Vec::new();
    let mut failed = false;
    let mut k: usize = 0;
    while k < targets.len()
        invariant
            0 <= k <= targets.len(),
            ts == views(targets@),
            paths.len() == k,
            forall|j: int|
                0 <= j < k ==> possible_target_path(
                    search_paths@,
                    ts[j],
                    #[trigger] path_results_view(paths@)[j],
                ),
        decreases targets.len() - k,
    {
        let t = targets[k].as_str();
        assert(ts[k as int] == t@);
        // Once a target has no source file, the result is that error whatever comes after.
        let found = if failed {
            proof {
                lemma_not_found_possible(search_paths@, t@);
            }
            Err(PathError::SourceNotFound)
        } else {
            search_paths.target_to_path(t)
        };
        assert(possible_target_path(search_paths@, t@, path_result_view(found)));
        failed = failed || found.is_err();
        let ghost before = paths@;
        paths.push(found);
        assert forall|j: int| 0 <= j < k + 1 implies possible_target_path(
            search_paths@,
            ts[j],
            #[trigger] path_results_view(paths@)[j],
        ) by {
            assert(path_results_view(paths@)[j] == path_result_view(paths@[j]));
            if j < k {
                assert(paths@[j] == before[j]);
                assert(path_results_view(before)[j] == path_result_view(before[j]));
            }
        }
        k += 1;
    }
    let r = modules_of_targets(&targets, &paths);
    proof {
        let pv = path_results_view(paths@);
        assert(targets_module_set(ts, pv) == set_result_view(r));
        assert forall|j: int| 0 <= j < pv.len() implies possible_target_path(
            search_paths@,
            ts[j],
            #[trigger] pv[j],
        ) by {}
        if ts.len() == 0 {
            assert(pv.len() == 0);
            assert(insert_all(Seq::<LoadedModuleView>::empty(), Seq::empty()) == Seq::<LoadedModuleView>::empty());
        }
    }
    r
}

} // verus!

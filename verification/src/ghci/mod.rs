//! The `ghci` session: parsing its output and tracking its state.
use vstd::prelude::*;

pub mod parse;
pub mod loaded_module;
pub mod module_set;
pub mod file_classifier;
pub mod compilation_log;
pub mod error_log;
pub mod show_modules;
pub mod ghci_command;
pub mod manager;
pub mod warning_formatter;
pub mod progress_writer;
pub mod warning_tracker;
pub mod process;
pub mod stdin;

use self::file_classifier::{
    classify_all, classify_events, facts_views, spec_kind, spec_needs_modify, PathFacts, ReloadActions,
    ReloadActionsView,
};
use self::loaded_module::{LoadedModule, LoadedModuleView};
use self::module_set::{has_path, loaded_views, ModuleSet};
use crate::text::views;

pub use self::file_classifier::GhciReloadKind;

verus! {

/// Decide how a session responds to a set of file events: like [`file_classifier::FileClassifier::classify`],
/// but modified dotfiles are reloaded or added like any other Haskell source file.
pub fn get_reload_actions(events: &Vec<PathFacts>, targets: &ModuleSet) -> (r: ReloadActions)
    ensures
        r@ == classify_all(facts_views(events@), targets@, false),
{
    classify_events(events, targets, false)
}

/// One step of a reload.
#[derive(Debug, Clone, Copy, PartialEq, Eq, Structural)]
pub enum ReloadStep {
    /// Tell the event loop what kind of reload this is, before any command reaches `ghci`; the
    /// event loop decides from it whether it may interrupt the reload.
    ReportKind(GhciReloadKind),
    /// Clear the screen, if the user asked for that.
    Clear,
    /// Restart the session; nothing else is needed after that.
    Restart,
    /// Run the hooks that come before a reload.
    BeforeReloadHooks,
    /// `:unadd` the modules in `needs_remove`.
    RemoveModules,
    /// `:add` the modules in `needs_add`.
    AddModules,
    /// `:reload`, then refresh the eval commands of the paths in `needs_reload`.
    ReloadModules,
    /// Wait for compilation to finish, write the error log and run the hooks that come after a
    /// reload.
    FinishCompilation,
    /// Forget command handles that have finished.
    PruneCommandHandles,
}

/// The steps of a reload for the given actions: the reload's kind is reported first; then a
/// restart replaces everything else; otherwise removals, additions and reloads are done in that
/// order, each only when there is something to do, wrapped in the hooks when anything is
/// modified.
pub open spec fn reload_steps(a: ReloadActionsView) -> Seq<ReloadStep> {
    seq![ReloadStep::ReportKind(spec_kind(a))] + command_steps(a)
}

/// The steps of a reload after its kind is reported; see [`reload_steps`].
pub open spec fn command_steps(a: ReloadActionsView) -> Seq<ReloadStep> {
    if a.needs_restart.len() > 0 {
        seq![ReloadStep::Clear, ReloadStep::Restart]
    } else {
        let begin = if spec_needs_modify(a) {
            seq![ReloadStep::Clear, ReloadStep::BeforeReloadHooks]
        } else {
            Seq::empty()
        };
        let remove = if a.needs_remove.len() > 0 {
            seq![ReloadStep::RemoveModules]
        } else {
            Seq::empty()
        };
        let add = if a.needs_add.len() > 0 {
            seq![ReloadStep::AddModules]
        } else {
            Seq::empty()
        };
        let reload = if a.needs_reload.len() > 0 {
            seq![ReloadStep::ReloadModules]
        } else {
            Seq::empty()
        };
        let finish = if spec_needs_modify(a) {
            seq![ReloadStep::FinishCompilation]
        } else {
            Seq::empty()
        };
        begin + remove + add + reload + finish + seq![ReloadStep::PruneCommandHandles]
    }
}

/// Plan the steps of a reload; see [`reload_steps`].
pub fn reload_plan(actions: &ReloadActions) -> (r: Vec<ReloadStep>)
    ensures
        r@ == reload_steps(actions@),
        r@.len() > 0 && r@[0] == ReloadStep::ReportKind(spec_kind(actions@)),
{
    let mut r: Vec<ReloadStep> = Vec::new();
    r.push(ReloadStep::ReportKind(actions.kind()));
    if actions.needs_restart() {
        r.push(ReloadStep::Clear);
        r.push(ReloadStep::Restart);
        assert(r@ =~= reload_steps(actions@));
        return r;
    }
    let modify = actions.needs_modify();
    if modify {
        r.push(ReloadStep::Clear);
        r.push(ReloadStep::BeforeReloadHooks);
    }
    if !actions.needs_remove.is_empty() {
        r.push(ReloadStep::RemoveModules);
    }
    if !actions.needs_add.is_empty() {
        r.push(ReloadStep::AddModules);
    }
    if !actions.needs_reload.is_empty() {
        r.push(ReloadStep::ReloadModules);
    }
    if modify {
        r.push(ReloadStep::FinishCompilation);
    }
    r.push(ReloadStep::PruneCommandHandles);
    assert(r@ =~= reload_steps(actions@));
    r
}

/// Does the step send `ghci` module commands (`:unadd`, `:add`, `:reload`)?
pub open spec fn is_module_command(step: ReloadStep) -> bool {
    step is RemoveModules || step is AddModules || step is ReloadModules
}

/// Where a reload plan starts, ends and wraps its module commands. The kind is reported first.
/// A restart is just cleared, then restarted. Otherwise, when any module is removed, added or
/// reloaded, the screen is cleared and the before-reload hooks run ahead of every module
/// command, and compilation is finished after every one of them. Each command is sent
/// exactly when its list is non-empty, removals before additions before the reload. Handles are
/// pruned last. With nothing to do, there is no clearing, no hook and no finishing.
pub proof fn lemma_reload_plan_shape(a: ReloadActionsView)
    ensures
        reload_steps(a).len() > 0,
        reload_steps(a)[0] == ReloadStep::ReportKind(spec_kind(a)),
        a.needs_restart.len() > 0 ==> reload_steps(a) == seq![
            ReloadStep::ReportKind(GhciReloadKind::Restart),
            ReloadStep::Clear,
            ReloadStep::Restart,
        ],
        a.needs_restart.len() == 0 ==> {
            let steps = reload_steps(a);
            let modify = a.needs_add.len() > 0 || a.needs_remove.len() > 0 || a.needs_reload.len()
                > 0;
            &&& steps[0] == ReloadStep::ReportKind(
                if modify {
                    GhciReloadKind::Reload
                } else {
                    GhciReloadKind::Noop
                },
            )
            &&& !steps.contains(ReloadStep::Restart)
            &&& (steps.contains(ReloadStep::Clear) <==> modify)
            &&& (steps.contains(ReloadStep::BeforeReloadHooks) <==> modify)
            &&& (steps.contains(ReloadStep::FinishCompilation) <==> modify)
            &&& (steps.contains(ReloadStep::RemoveModules) <==> a.needs_remove.len() > 0)
            &&& (steps.contains(ReloadStep::AddModules) <==> a.needs_add.len() > 0)
            &&& (steps.contains(ReloadStep::ReloadModules) <==> a.needs_reload.len() > 0)
            &&& steps.last() == ReloadStep::PruneCommandHandles
            &&& forall|i: int, j: int|
                0 <= i < steps.len() && 0 <= j < steps.len() && is_module_command(
                    #[trigger] steps[j],
                ) && (#[trigger] steps[i] == ReloadStep::Clear || steps[i]
                    == ReloadStep::BeforeReloadHooks) ==> i < j
            &&& forall|i: int, j: int|
                0 <= i < steps.len() && 0 <= j < steps.len() && is_module_command(
                    #[trigger] steps[i],
                ) && #[trigger] steps[j] == ReloadStep::FinishCompilation ==> i < j
            &&& forall|i: int, j: int|
                0 <= i < steps.len() && 0 <= j < steps.len() && (#[trigger] steps[i]
                    == ReloadStep::RemoveModules && #[trigger] steps[j] == ReloadStep::AddModules
                    || steps[i] == ReloadStep::RemoveModules && steps[j]
                    == ReloadStep::ReloadModules || steps[i] == ReloadStep::AddModules && steps[j]
                    == ReloadStep::ReloadModules) ==> i < j
        },
{
    let steps = reload_steps(a);
    assert(steps.len() > 0);
    if a.needs_restart.len() == 0 {
        let r = a.needs_remove.len() > 0;
        let d = a.needs_add.len() > 0;
        let l = a.needs_reload.len() > 0;
        let k = ReloadStep::ReportKind(spec_kind(a));
        let c = ReloadStep::Clear;
        let h = ReloadStep::BeforeReloadHooks;
        let f = ReloadStep::FinishCompilation;
        let p = ReloadStep::PruneCommandHandles;
        let rm = ReloadStep::RemoveModules;
        let ad = ReloadStep::AddModules;
        let rl = ReloadStep::ReloadModules;
        if !r && !d && !l {
            assert(steps =~= seq![k, p]);
        } else if r && !d && !l {
            assert(steps =~= seq![k, c, h, rm, f, p]);
        } else if !r && d && !l {
            assert(steps =~= seq![k, c, h, ad, f, p]);
        } else if !r && !d && l {
            assert(steps =~= seq![k, c, h, rl, f, p]);
        } else if r && d && !l {
            assert(steps =~= seq![k, c, h, rm, ad, f, p]);
        } else if r && !d && l {
            assert(steps =~= seq![k, c, h, rm, rl, f, p]);
        } else if !r && d && l {
            assert(steps =~= seq![k, c, h, ad, rl, f, p]);
        } else {
            assert(steps =~= seq![k, c, h, rm, ad, rl, f, p]);
        }
        assert(steps.contains(c) ==> steps[1] == c);
    }
}

/// The module `:add` loads for a path: referred to by its path.
pub open spec fn unnamed_module(path: Seq<char>) -> LoadedModuleView {
    LoadedModuleView { path, name: None }
}

/// The modules to `:add` for the given paths, one per path in order, each referred to by its
/// path. Adding a module that is already loaded is a bug: then the first such path is the error.
pub fn modules_to_add(targets: &ModuleSet, paths: &Vec<String>) -> (r: Result<
    Vec<LoadedModule>,
    String,
>)
    ensures
        match r {
            Ok(ms) => {
                &&& forall|k: int| 0 <= k < paths.len() ==> !has_path(targets@, #[trigger] paths@[k]@)
                &&& loaded_views(ms@) == views(paths@).map_values(|p: Seq<char>| unnamed_module(p))
            },
            Err(p) => exists|k: int|
                0 <= k < paths.len() && has_path(targets@, #[trigger] paths@[k]@) && p@
                    == paths@[k]@ && forall|j: int|
                    0 <= j < k ==> !has_path(targets@, #[trigger] paths@[j]@),
        },
{
    let ghost want = views(paths@).map_values(|p: Seq<char>| unnamed_module(p));
    let mut modules: Vec<LoadedModule> = Vec::new();
    let mut k: usize = 0;
    while k < paths.len()
        invariant
            0 <= k <= paths.len(),
            want == views(paths@).map_values(|p: Seq<char>| unnamed_module(p)),
            forall|j: int| 0 <= j < k ==> !has_path(targets@, #[trigger] paths@[j]@),
            loaded_views(modules@) == want.take(k as int),
        decreases paths.len() - k,
    {
        if targets.contains_source_path(paths[k].as_str()) {
            return Err(paths[k].clone());
        }
        let ghost before = loaded_views(modules@);
        modules.push(LoadedModule::new(paths[k].clone()));
        assert(loaded_views(modules@) =~= before.push(unnamed_module(paths@[k as int]@)));
        assert(want.take(k + 1) =~= want.take(k as int).push(want[k as int]));
        k += 1;
    }
    assert(want.take(k as int) =~= want);
    Ok(modules)
}

} // verus!

//! Classifies file events into reload actions.
use vstd::prelude::*;

use super::module_set::{has_path, ModuleSet};
use super::loaded_module::LoadedModuleView;
use crate::event_filter::FileEvent;
use crate::haskell_source_file::{
    extension, extension_range, file_name, file_name_of, is_haskell_source_chars,
    is_haskell_source_path,
};
use crate::path_order::{relative_path_to, relative_to};
use crate::text::{chars_of, views};

verus! {

/// How a path matched a set of globs.
#[derive(Debug, Clone, Copy, PartialEq, Eq, Structural)]
pub enum GlobMatch {
    /// No glob matched the path.
    NoMatch,
    /// A negated glob matched the path: it is explicitly ignored.
    Ignore,
    /// A glob matched the path.
    Whitelist,
}

/// What a classification reads about one file event: the event, its path relative to the
/// working directory, and how that path matched the restart and reload globs.
#[derive(Debug, Clone)]
pub struct PathFacts {
    /// The event.
    pub event: FileEvent,
    /// The event's path, relative to the working directory.
    pub path: String,
    /// How the path matched the restart globs.
    pub restart_match: GlobMatch,
    /// How the path matched the reload globs.
    pub reload_match: GlobMatch,
}

/// The contents of a [`PathFacts`].
pub struct PathFactsView {
    pub is_remove: bool,
    /// The path the event names, as the watcher gave it.
    pub event_path: Seq<char>,
    pub path: Seq<char>,
    pub restart_match: GlobMatch,
    pub reload_match: GlobMatch,
}

impl View for PathFacts {
    type V = PathFactsView;

    open spec fn view(&self) -> PathFactsView {
        PathFactsView {
            is_remove: self.event is Remove,
            event_path: self.event@.path,
            path: self.path@,
            restart_match: self.restart_match,
            reload_match: self.reload_match,
        }
    }
}

/// The views of a sequence of event facts.
pub open spec fn facts_views(v: Seq<PathFacts>) -> Seq<PathFactsView> {
    v.map_values(|f: PathFacts| f@)
}

/// What a changed path calls for.
#[derive(Debug, Clone, Copy, PartialEq, Eq, Structural)]
pub enum PathAction {
    /// Restart the session.
    Restart,
    /// `:reload` the session.
    Reload,
    /// `:add` the module.
    Add,
    /// `:unadd` the module.
    Remove,
    /// Nothing.
    Ignore,
}

/// Does the path's file name start with a dot?
pub open spec fn is_dotfile(path: Seq<char>) -> bool {
    match file_name(path) {
        Some(f) => f.len() > 0 && f[0] == '.',
        None => false,
    }
}

/// What a changed path calls for, given the loaded modules.
///
/// A path restarts the session unless the restart globs ignore it, when it is a `.cabal` file,
/// a `.ghci` file, a removed (or moved away) Haskell source file — `ghci` must be restarted when
/// modules are removed — or matched by the restart globs. Otherwise paths the reload globs
/// ignore are ignored; a removed Haskell source file that is loaded (the restart globs having
/// ignored it) is removed; a modified Haskell source
/// file is reloaded when it is loaded and added when not (dotfiles are skipped when
/// `skip_dotfiles`); and any other path matched by the reload globs is reloaded.
pub open spec fn path_action(
    f: PathFactsView,
    targets: Seq<LoadedModuleView>,
    skip_dotfiles: bool,
) -> PathAction {
    if f.restart_match != GlobMatch::Ignore && (extension(f.path) == Some("cabal"@) || file_name(
        f.path,
    ) == Some(".ghci"@) || (f.is_remove && is_haskell_source_path(f.path)) || f.restart_match
        == GlobMatch::Whitelist) {
        PathAction::Restart
    } else if f.reload_match == GlobMatch::Ignore {
        PathAction::Ignore
    } else if f.is_remove && is_haskell_source_path(f.path) && has_path(targets, f.path) {
        PathAction::Remove
    } else if !f.is_remove && is_haskell_source_path(f.path) && !(skip_dotfiles && is_dotfile(
        f.path,
    )) {
        if has_path(targets, f.path) {
            PathAction::Reload
        } else {
            PathAction::Add
        }
    } else if f.reload_match == GlobMatch::Whitelist {
        PathAction::Reload
    } else {
        PathAction::Ignore
    }
}

/// Actions needed to perform a reload.
#[derive(Debug)]
pub struct ReloadActions {
    /// Paths to modules which need a full `ghci` restart.
    pub needs_restart: Vec<String>,
    /// Paths to modules which need a `:reload`.
    pub needs_reload: Vec<String>,
    /// Paths to modules which need an `:add`.
    pub needs_add: Vec<String>,
    /// Paths to modules which need an `:unadd`.
    pub needs_remove: Vec<String>,
}

/// The contents of a [`ReloadActions`].
pub struct ReloadActionsView {
    pub needs_restart: Seq<Seq<char>>,
    pub needs_reload: Seq<Seq<char>>,
    pub needs_add: Seq<Seq<char>>,
    pub needs_remove: Seq<Seq<char>>,
}

impl View for ReloadActions {
    type V = ReloadActionsView;

    open spec fn view(&self) -> ReloadActionsView {
        ReloadActionsView {
            needs_restart: views(self.needs_restart@),
            needs_reload: views(self.needs_reload@),
            needs_add: views(self.needs_add@),
            needs_remove: views(self.needs_remove@),
        }
    }
}

/// The actions for a sequence of events: each path goes to the list its [`path_action`] names,
/// in the order of the events.
pub open spec fn classify_all(
    facts: Seq<PathFactsView>,
    targets: Seq<LoadedModuleView>,
    skip_dotfiles: bool,
) -> ReloadActionsView
    decreases facts.len(),
{
    if facts.len() == 0 {
        ReloadActionsView {
            needs_restart: Seq::empty(),
            needs_reload: Seq::empty(),
            needs_add: Seq::empty(),
            needs_remove: Seq::empty(),
        }
    } else {
        let a = classify_all(facts.drop_last(), targets, skip_dotfiles);
        let p = facts.last().path;
        match path_action(facts.last(), targets, skip_dotfiles) {
            PathAction::Restart => ReloadActionsView { needs_restart: a.needs_restart.push(p), ..a },
            PathAction::Reload => ReloadActionsView { needs_reload: a.needs_reload.push(p), ..a },
            PathAction::Add => ReloadActionsView { needs_add: a.needs_add.push(p), ..a },
            PathAction::Remove => ReloadActionsView { needs_remove: a.needs_remove.push(p), ..a },
            PathAction::Ignore => a,
        }
    }
}

/// How a `ghci` session responds to a reload event.
#[derive(Debug, Clone, Copy, PartialEq, Eq, Structural)]
pub enum GhciReloadKind {
    /// No actions needed.
    Noop,
    /// Reload, add, and/or remove modules. Can be interrupted.
    Reload,
    /// Restart the whole session. Cannot be interrupted.
    Restart,
}

/// Do any modules need to be added, removed, or reloaded?
pub open spec fn spec_needs_modify(a: ReloadActionsView) -> bool {
    a.needs_add.len() > 0 || a.needs_reload.len() > 0 || a.needs_remove.len() > 0
}

/// The kind of reload the actions call for: a restart wins over modifications.
pub open spec fn spec_kind(a: ReloadActionsView) -> GhciReloadKind {
    if a.needs_restart.len() > 0 {
        GhciReloadKind::Restart
    } else if spec_needs_modify(a) {
        GhciReloadKind::Reload
    } else {
        GhciReloadKind::Noop
    }
}

impl ReloadActions {
    /// Do any modules need to be added, removed, or reloaded?
    pub fn needs_modify(&self) -> (r: bool)
        ensures
            r == spec_needs_modify(self@),
    {
        !self.needs_add.is_empty() || !self.needs_reload.is_empty() || !self.needs_remove.is_empty()
    }

    /// Is a session restart needed?
    pub fn needs_restart(&self) -> (r: bool)
        ensures
            r == (self@.needs_restart.len() > 0),
    {
        !self.needs_restart.is_empty()
    }

    /// Get the kind of reload we'll perform.
    pub fn kind(&self) -> (r: GhciReloadKind)
        ensures
            r == spec_kind(self@),
    {
        if self.needs_restart() {
            GhciReloadKind::Restart
        } else if self.needs_modify() {
            GhciReloadKind::Reload
        } else {
            GhciReloadKind::Noop
        }
    }
}

/// Decide what one changed path calls for; see [`path_action`].
pub fn classify_path(facts: &PathFacts, targets: &ModuleSet, skip_dotfiles: bool) -> (r: PathAction)
    ensures
        r == path_action(facts@, targets@, skip_dotfiles),
{
    let p = chars_of(facts.path.as_str());
    let is_cabal = match extension_range(&p) {
        Some((a, b)) => {
            let ghost x = p@.subrange(a as int, b as int);
            proof {
                reveal_strlit("cabal");
            }
            let r = b - a == 5 && p[a] == 'c' && p[a + 1] == 'a' && p[a + 2] == 'b' && p[a + 3]
                == 'a' && p[a + 4] == 'l';
            proof {
                if r {
                    assert(x =~= "cabal"@);
                } else if b - a == 5 {
                    if x == "cabal"@ {
                        assert(x[0] == p@[a as int] && x[1] == p@[a + 1] && x[2] == p@[a + 2]
                            && x[3] == p@[a + 3] && x[4] == p@[a + 4]);
                    }
                } else {
                    assert(x.len() != "cabal"@.len());
                }
            }
            r
        },
        None => false,
    };
    assert(is_cabal == (extension(facts.path@) == Some("cabal"@)));
    let name = file_name_of(facts.path.as_str());
    let is_ghci = match &name {
        Some(n) => {
            let g = ".ghci".to_owned();
            *n == g
        },
        None => false,
    };
    let is_dot = match &name {
        Some(n) => !n.as_str().is_empty() && n.as_str().get_char(0) == '.',
        None => false,
    };
    let is_source = is_haskell_source_chars(&p);
    let is_remove = match facts.event {
        FileEvent::Remove(_) => true,
        FileEvent::Modify(_) => false,
    };
    if facts.restart_match != GlobMatch::Ignore && (is_cabal || is_ghci || (is_remove && is_source)
        || facts.restart_match == GlobMatch::Whitelist) {
        PathAction::Restart
    } else if facts.reload_match == GlobMatch::Ignore {
        PathAction::Ignore
    } else if is_remove && is_source && targets.contains_source_path(facts.path.as_str()) {
        PathAction::Remove
    } else if !is_remove && is_source && !(skip_dotfiles && is_dot) {
        if targets.contains_source_path(facts.path.as_str()) {
            PathAction::Reload
        } else {
            PathAction::Add
        }
    } else if facts.reload_match == GlobMatch::Whitelist {
        PathAction::Reload
    } else {
        PathAction::Ignore
    }
}

/// Classify a sequence of events into reload actions; see [`classify_all`].
pub fn classify_events(events: &Vec<PathFacts>, targets: &ModuleSet, skip_dotfiles: bool) -> (r:
    ReloadActions)
    ensures
        r@ == classify_all(facts_views(events@), targets@, skip_dotfiles),
{
    let mut r = ReloadActions {
        needs_restart: Vec::new(),
        needs_reload: Vec::new(),
        needs_add: Vec::new(),
        needs_remove: Vec::new(),
    };
    let ghost fs = facts_views(events@);
    assert(r@ == classify_all(fs.take(0), targets@, skip_dotfiles)) by {
        assert(views(r.needs_restart@) =~= Seq::<Seq<char>>::empty());
        assert(views(r.needs_reload@) =~= Seq::<Seq<char>>::empty());
        assert(views(r.needs_add@) =~= Seq::<Seq<char>>::empty());
        assert(views(r.needs_remove@) =~= Seq::<Seq<char>>::empty());
    }
    let mut k: usize = 0;
    while k < events.len()
        invariant
            0 <= k <= events.len(),
            fs == facts_views(events@),
            r@ == classify_all(fs.take(k as int), targets@, skip_dotfiles),
        decreases events.len() - k,
    {
        let f = &events[k];
        assert(fs.take(k + 1).drop_last() =~= fs.take(k as int));
        assert(fs.take(k + 1).last() == f@);
        let action = classify_path(f, targets, skip_dotfiles);
        let ghost before = r@;
        let path = f.path.clone();
        match action {
            PathAction::Restart => {
                r.needs_restart.push(path);
                assert(views(r.needs_restart@) =~= before.needs_restart.push(f.path@));
            },
            PathAction::Reload => {
                r.needs_reload.push(path);
                assert(views(r.needs_reload@) =~= before.needs_reload.push(f.path@));
            },
            PathAction::Add => {
                r.needs_add.push(path);
                assert(views(r.needs_add@) =~= before.needs_add.push(f.path@));
            },
            PathAction::Remove => {
                r.needs_remove.push(path);
                assert(views(r.needs_remove@) =~= before.needs_remove.push(f.path@));
            },
            PathAction::Ignore => {},
        }
        k += 1;
    }
    assert(fs.take(events.len() as int) =~= fs);
    r
}

/// Classifies file events into reload actions based on how their paths matched the restart and
/// reload globs and the current state of loaded modules.
#[derive(Debug, Clone)]
pub struct FileClassifier {
    /// The working directory used to make paths relative.
    cwd: String,
}

impl FileClassifier {
    /// The working directory used to make paths relative.
    pub closed spec fn spec_cwd(&self) -> Seq<char> {
        self.cwd@
    }

    /// A classifier for paths relative to `cwd`.
    pub fn new(cwd: String) -> (r: Self)
        ensures
            r.spec_cwd() == cwd@,
    {
        FileClassifier { cwd }
    }

    /// The working directory used to make paths relative.
    pub fn cwd(&self) -> (r: &String)
        ensures
            r@ == self.spec_cwd(),
    {
        &self.cwd
    }

    /// Make a path relative to the working directory; see [`relative_to`].
    pub fn relative_path(&self, path: &str) -> (r: String)
        ensures
            r@ == relative_to(path@, self.spec_cwd()),
    {
        relative_path_to(path, self.cwd.as_str())
    }

    /// What a classification reads about an event: its path made relative to the working
    /// directory, and how that relative path matched the restart and reload globs.
    pub fn path_facts(&self, event: FileEvent, restart_match: GlobMatch, reload_match: GlobMatch) -> (r:
        PathFacts)
        ensures
            r@ == (PathFactsView {
                is_remove: event@.is_remove,
                event_path: event@.path,
                path: relative_to(event@.path, self.spec_cwd()),
                restart_match,
                reload_match,
            }),
    {
        let path = self.relative_path(event.as_path());
        PathFacts { event, path, restart_match, reload_match }
    }

    /// Update the working directory (typically after `:show paths` is parsed).
    pub fn set_cwd(&mut self, cwd: String)
        ensures
            final(self).spec_cwd() == cwd@,
    {
        self.cwd = cwd;
    }

    /// Classify a set of file events into reload actions; dotfiles are not reloaded or added.
    ///
    /// `targets` is the set of currently loaded modules. Pass an empty set when GHCi has not yet
    /// initialized (all Haskell modifications will be classified as "add").
    pub fn classify(&self, events: &Vec<PathFacts>, targets: &ModuleSet) -> (r: ReloadActions)
        ensures
            r@ == classify_all(facts_views(events@), targets@, true),
    {
        classify_events(events, targets, true)
    }
}

/// Before any module is loaded, nothing is removed and no Haskell source modification is
/// reloaded: a modified Haskell source file that is neither a restart trigger, ignored, nor a
/// skipped dotfile is added, and only paths the reload globs whitelist are reloaded.
pub proof fn lemma_classify_without_targets(facts: Seq<PathFactsView>, skip_dotfiles: bool)
    ensures
        classify_all(facts, Seq::empty(), skip_dotfiles).needs_remove.len() == 0,
        forall|f: PathFactsView|
            #[trigger] path_action(f, Seq::empty(), skip_dotfiles) == PathAction::Reload ==> f.reload_match
                == GlobMatch::Whitelist,
        forall|f: PathFactsView|
            !f.is_remove && is_haskell_source_path(f.path) && !(skip_dotfiles && is_dotfile(f.path))
                && #[trigger] path_action(f, Seq::empty(), skip_dotfiles) != PathAction::Restart
                && f.reload_match != GlobMatch::Ignore ==> path_action(f, Seq::empty(), skip_dotfiles)
                == PathAction::Add,
    decreases facts.len(),
{
    if facts.len() > 0 {
        lemma_classify_without_targets(facts.drop_last(), skip_dotfiles);
        assert(!has_path(Seq::<LoadedModuleView>::empty(), facts.last().path));
    }
    assert forall|f: PathFactsView| !has_path(Seq::<LoadedModuleView>::empty(), #[trigger] f.path) by {}
}

/// A Haskell source file that is removed or moved away restarts the session, unless the restart
/// globs ignore it.
pub proof fn lemma_removed_source_restarts(
    f: PathFactsView,
    targets: Seq<LoadedModuleView>,
    skip_dotfiles: bool,
)
    requires
        f.is_remove,
        is_haskell_source_path(f.path),
        f.restart_match != GlobMatch::Ignore,
    ensures
        path_action(f, targets, skip_dotfiles) == PathAction::Restart,
{
}

} // verus!

//! The filesystem changes `ghciwatch` responds to.
use vstd::prelude::*;

use crate::ghci::manager::{lemma_merge_events_union, merge_events, WatcherEvent};

verus! {

/// A filesystem event that `ghci` will need to respond to. Due to the way that `ghci` is, we need
/// to divide these into a few different classes so that we can respond appropriately.
#[derive(Debug, Clone, PartialEq, Eq, PartialOrd, Ord)]
pub enum FileEvent {
    /// Existing files that are modified, or new files that are created.
    ///
    /// `inotify` APIs aren't great at distinguishing between newly-created files and modified
    /// existing files (particularly because some editors, like `vim`, will write to a temporary
    /// file and then move that file over the original for atomicity), so this includes both sorts
    /// of changes.
    Modify(String),
    /// A file is removed.
    Remove(String),
}

/// The contents of a [`FileEvent`]: whether it is a removal, and its path.
pub struct FileEventView {
    pub is_remove: bool,
    pub path: Seq<char>,
}

impl View for FileEvent {
    type V = FileEventView;

    open spec fn view(&self) -> FileEventView {
        match self {
            FileEvent::Modify(p) => FileEventView { is_remove: false, path: p@ },
            FileEvent::Remove(p) => FileEventView { is_remove: true, path: p@ },
        }
    }
}

/// The views of a sequence of events.
pub open spec fn event_views(v: Seq<FileEvent>) -> Seq<FileEventView> {
    v.map_values(|e: FileEvent| e@)
}

impl FileEvent {
    /// Are the two events the same: the same kind, for the same path?
    pub fn same_as(&self, other: &FileEvent) -> (r: bool)
        ensures
            r == (self@ == other@),
    {
        match (self, other) {
            (FileEvent::Modify(a), FileEvent::Modify(b)) => *a == *b,
            (FileEvent::Remove(a), FileEvent::Remove(b)) => *a == *b,
            _ => false,
        }
    }

    /// A copy of this event.
    pub fn duplicate(&self) -> (r: FileEvent)
        ensures
            r@ == self@,
    {
        match self {
            FileEvent::Modify(p) => FileEvent::Modify(p.clone()),
            FileEvent::Remove(p) => FileEvent::Remove(p.clone()),
        }
    }

    /// The contained path.
    pub open spec fn spec_path(&self) -> Seq<char> {
        match self {
            FileEvent::Modify(p) => p@,
            FileEvent::Remove(p) => p@,
        }
    }

    /// Get the contained path.
    pub fn as_path(&self) -> (r: &str)
        ensures
            r@ == self.spec_path(),
    {
        match self {
            FileEvent::Modify(path) => path.as_str(),
            FileEvent::Remove(path) => path.as_str(),
        }
    }
}

/// What a watcher reported happened to some paths.
#[derive(Debug, Clone, Copy, PartialEq, Eq, Structural)]
pub enum WatchEventKind {
    /// Something happened, the watcher does not say what.
    Any,
    /// A file was read or opened; nothing changed.
    Access,
    /// A file was created.
    Create,
    /// A file's contents or metadata changed.
    Modify,
    /// A file was removed.
    Remove,
    /// Something else happened.
    Other,
}

/// A path that a watcher event names, with whether it exists now.
#[derive(Debug, Clone, PartialEq, Eq)]
pub struct WatchedPath {
    pub path: String,
    pub exists: bool,
}

/// One event from the file watcher.
#[derive(Debug, Clone, PartialEq, Eq)]
pub struct WatchedEvent {
    pub kind: WatchEventKind,
    pub paths: Vec<WatchedPath>,
}

/// The paths of an event, each with whether it exists.
pub open spec fn watched_paths(v: Seq<WatchedPath>) -> Seq<(Seq<char>, bool)> {
    v.map_values(|w: WatchedPath| (w.path@, w.exists))
}

/// The contents of the watcher's events.
pub open spec fn watched_events(v: Seq<WatchedEvent>) -> Seq<(WatchEventKind, Seq<(Seq<char>, bool)>)> {
    v.map_values(|e: WatchedEvent| (e.kind, watched_paths(e.paths@)))
}

/// What a path named by an event of `kind` calls for: a path that is gone, or that the event
/// removed, is a removal; otherwise a creation or change is a modification, and a mere access is
/// nothing.
pub open spec fn event_of(kind: WatchEventKind, path: Seq<char>, present: bool) -> Option<FileEventView> {
    if !present || kind == WatchEventKind::Remove {
        Some(FileEventView { is_remove: true, path })
    } else if kind == WatchEventKind::Access {
        None
    } else {
        Some(FileEventView { is_remove: false, path })
    }
}

/// The file events that the paths of one watcher event call for, in order.
pub open spec fn path_events(kind: WatchEventKind, paths: Seq<(Seq<char>, bool)>) -> Seq<FileEventView>
    decreases paths.len(),
{
    if paths.len() == 0 {
        Seq::empty()
    } else {
        let rest = path_events(kind, paths.drop_last());
        match event_of(kind, paths.last().0, paths.last().1) {
            Some(e) => rest.push(e),
            None => rest,
        }
    }
}

/// The file events that a batch of watcher events calls for, in order, repeats included.
pub open spec fn batch_events(events: Seq<(WatchEventKind, Seq<(Seq<char>, bool)>)>) -> Seq<FileEventView>
    decreases events.len(),
{
    if events.len() == 0 {
        Seq::empty()
    } else {
        batch_events(events.drop_last()) + path_events(events.last().0, events.last().1)
    }
}

/// Process a batch of watcher events into file events: each once, in the order first called for.
pub fn file_events_from_action(events: &Vec<WatchedEvent>) -> (r: Vec<FileEvent>)
    ensures
        event_views(r@) == merge_events(Seq::empty(), batch_events(watched_events(events@))),
        event_views(r@).no_duplicates(),
        event_views(r@).to_set() == batch_events(watched_events(events@)).to_set(),
{
    let ghost ev = watched_events(events@);
    let mut all: Vec<FileEvent> = Vec::new();
    let mut k: usize = 0;
    while k < events.len()
        invariant
            0 <= k <= events.len(),
            ev == watched_events(events@),
            event_views(all@) == batch_events(ev.take(k as int)),
        decreases events.len() - k,
    {
        let event = &events[k];
        let ghost before = event_views(all@);
        let ghost ps = watched_paths(event.paths@);
        let mut j: usize = 0;
        while j < event.paths.len()
            invariant
                0 <= j <= event.paths.len(),
                ps == watched_paths(event.paths@),
                event_views(all@) == before + path_events(event.kind, ps.take(j as int)),
            decreases event.paths.len() - j,
        {
            let w = &event.paths[j];
            assert(ps.take(j + 1).drop_last() =~= ps.take(j as int));
            assert(ps.take(j + 1).last() == (w.path@, w.exists));
            let ghost mid = event_views(all@);
            assert(path_events(event.kind, ps.take(j + 1)) == match event_of(event.kind, w.path@, w.exists) {
                Some(e) => path_events(event.kind, ps.take(j as int)).push(e),
                None => path_events(event.kind, ps.take(j as int)),
            });
            let removed = match event.kind {
                WatchEventKind::Remove => true,
                _ => false,
            };
            let accessed = match event.kind {
                WatchEventKind::Access => true,
                _ => false,
            };
            if !w.exists || removed {
                assert(event_of(event.kind, w.path@, w.exists) == Some(FileEventView { is_remove: true, path: w.path@ }));
                all.push(FileEvent::Remove(w.path.clone()));
                assert(event_views(all@) =~= mid.push(FileEventView { is_remove: true, path: w.path@ }));
            } else if !accessed {
                assert(event_of(event.kind, w.path@, w.exists) == Some(FileEventView { is_remove: false, path: w.path@ }));
                all.push(FileEvent::Modify(w.path.clone()));
                assert(event_views(all@) =~= mid.push(FileEventView { is_remove: false, path: w.path@ }));
            }
            assert(event_views(all@) =~= before + path_events(event.kind, ps.take(j + 1))) by {
                let pe = path_events(event.kind, ps.take(j as int));
                match event_of(event.kind, w.path@, w.exists) {
                    Some(e) => assert(before + pe.push(e) =~= (before + pe).push(e)),
                    None => {},
                }
            }
            j += 1;
        }
        assert(ps.take(event.paths.len() as int) =~= ps);
        assert(ev.take(k + 1).drop_last() =~= ev.take(k as int));
        assert(ev.take(k + 1).last() == (event.kind, ps));
        k += 1;
    }
    assert(ev.take(events.len() as int) =~= ev);
    let merged = WatcherEvent::reload(all);
    proof {
        lemma_merge_events_union(Seq::empty(), batch_events(ev));
        assert(Seq::<FileEventView>::empty().to_set() =~= Set::<FileEventView>::empty());
        assert(Set::<FileEventView>::empty().union(batch_events(ev).to_set()) =~= batch_events(ev).to_set());
        assert(Seq::<FileEventView>::empty().no_duplicates());
    }
    match merged {
        WatcherEvent::Reload { events } => events,
    }
}

} // verus!

//! The decisions of the `ghci` event loop: merging watcher events, telling relevant ones apart,
//! and when to interrupt a reload.
use vstd::prelude::*;

use super::file_classifier::{
    classify_all, facts_views, path_action, spec_kind, FileClassifier, GhciReloadKind, PathAction,
    PathFacts, PathFactsView,
};
use super::module_set::ModuleSet;
use super::loaded_module::LoadedModuleView;
use crate::event_filter::{event_views, FileEvent, FileEventView};
use crate::haskell_source_file::{is_haskell_source_file, is_haskell_source_path};

verus! {

/// An event sent to the `ghci` session by the watcher.
#[derive(Debug, Clone)]
pub enum WatcherEvent {
    /// Reload the `ghci` session.
    Reload {
        /// The file events to respond to; no event occurs twice.
        events: Vec<FileEvent>,
    },
}

impl View for WatcherEvent {
    type V = Seq<FileEventView>;

    open spec fn view(&self) -> Seq<FileEventView> {
        match self {
            WatcherEvent::Reload { events } => event_views(events@),
        }
    }
}

/// `a` with each event of `b` that it does not hold yet appended, in order.
pub open spec fn merge_events(a: Seq<FileEventView>, b: Seq<FileEventView>) -> Seq<FileEventView>
    decreases b.len(),
{
    if b.len() == 0 {
        a
    } else {
        let m = merge_events(a, b.drop_last());
        if m.contains(b.last()) {
            m
        } else {
            m.push(b.last())
        }
    }
}

/// Merging gives exactly the events of either side.
pub proof fn lemma_merge_events_union(a: Seq<FileEventView>, b: Seq<FileEventView>)
    ensures
        merge_events(a, b).to_set() == a.to_set().union(b.to_set()),
        a.no_duplicates() ==> merge_events(a, b).no_duplicates(),
        merge_events(a, b).len() >= a.len(),
        merge_events(a, b).subrange(0, a.len() as int) == a,
    decreases b.len(),
{
    if b.len() == 0 {
        assert(b.to_set() =~= Set::<FileEventView>::empty());
        assert(a.to_set().union(b.to_set()) =~= a.to_set());
        assert(a.subrange(0, a.len() as int) =~= a);
    } else {
        lemma_merge_events_union(a, b.drop_last());
        let m = merge_events(a, b.drop_last());
        assert(b.to_set() =~= b.drop_last().to_set().insert(b.last())) by {
            assert forall|x: FileEventView| b.to_set().contains(x) <==> b.drop_last().to_set().insert(
                b.last(),
            ).contains(x) by {
                if b.to_set().contains(x) {
                    let k = choose|k: int| 0 <= k < b.len() && b[k] == x;
                    if k < b.len() - 1 {
                        assert(b.drop_last()[k] == x);
                    }
                }
                if b.drop_last().to_set().contains(x) {
                    let k = choose|k: int| 0 <= k < b.drop_last().len() && b.drop_last()[k] == x;
                    assert(b[k] == x);
                }
            }
        }
        if m.contains(b.last()) {
            assert(merge_events(a, b).to_set() =~= a.to_set().union(b.to_set()));
        } else {
            assert(m.push(b.last()).to_set() =~= m.to_set().insert(b.last())) by {
                assert forall|x: FileEventView| m.push(b.last()).to_set().contains(x) <==> m.to_set().insert(
                    b.last(),
                ).contains(x) by {
                    if m.push(b.last()).to_set().contains(x) {
                        let k = choose|k: int| 0 <= k < m.push(b.last()).len() && m.push(b.last())[k] == x;
                        if k < m.len() {
                            assert(m[k] == x);
                        }
                    }
                    if m.to_set().contains(x) && x != b.last() {
                        let k = choose|k: int| 0 <= k < m.len() && m[k] == x;
                        assert(m.push(b.last())[k] == x);
                    }
                    if x == b.last() {
                        assert(m.push(b.last())[m.len() as int] == x);
                    }
                }
            }
            assert(merge_events(a, b).to_set() =~= a.to_set().union(b.to_set()));
            assert(m.push(b.last()).subrange(0, a.len() as int) =~= m.subrange(0, a.len() as int));
        }
    }
}

impl WatcherEvent {
    /// No file event occurs twice.
    pub open spec fn no_duplicate_events(&self) -> bool {
        self@.no_duplicates()
    }

    /// A reload of the given events, each kept once, in the order they first come.
    pub fn reload(events: Vec<FileEvent>) -> (r: Self)
        ensures
            r@ == merge_events(Seq::empty(), event_views(events@)),
            r.no_duplicate_events(),
    {
        let mut r = WatcherEvent::Reload { events: Vec::new() };
        assert(r@ =~= Seq::<FileEventView>::empty());
        r.merge(WatcherEvent::Reload { events });
        proof {
            lemma_merge_events_union(Seq::empty(), r@);
            lemma_merge_events_union(Seq::empty(), event_views(events@));
        }
        r
    }

    /// A copy of this event.
    pub fn duplicate(&self) -> (r: Self)
        ensures
            r@ == self@,
    {
        let src = self.events();
        let mut events: Vec<FileEvent> = Vec::new();
        let mut k: usize = 0;
        while k < src.len()
            invariant
                0 <= k <= src.len(),
                event_views(src@) == self@,
                event_views(events@) == event_views(src@).take(k as int),
            decreases src.len() - k,
        {
            let ghost before = event_views(events@);
            let e = src[k].duplicate();
            events.push(e);
            assert(event_views(src@)[k as int] == src@[k as int]@);
            assert(event_views(events@) =~= before.push(src@[k as int]@));
            assert(event_views(src@).take(k + 1) =~= event_views(src@).take(k as int).push(
                event_views(src@)[k as int],
            ));
            k += 1;
        }
        assert(event_views(src@).take(k as int) =~= event_views(src@));
        WatcherEvent::Reload { events }
    }

    /// The file events to respond to.
    pub fn events(&self) -> (r: &Vec<FileEvent>)
        ensures
            event_views(r@) == self@,
    {
        match self {
            WatcherEvent::Reload { events } => events,
        }
    }

    /// When we interrupt an event to reload, add the file events together so that we don't lose
    /// work: the events of `other` that this one lacks are appended.
    pub fn merge(&mut self, other: WatcherEvent)
        ensures
            final(self)@ == merge_events(old(self)@, other@),
            old(self).no_duplicate_events() ==> final(self).no_duplicate_events(),
    {
        let other_events = match other {
            WatcherEvent::Reload { events } => events,
        };
        let ghost b = event_views(other_events@);
        let ghost a = self@;
        let mut k: usize = 0;
        match self {
            WatcherEvent::Reload { events } => {
                while k < other_events.len()
                    invariant
                        0 <= k <= other_events.len(),
                        b == event_views(other_events@),
                        event_views(events@) == merge_events(a, b.take(k as int)),
                    decreases other_events.len() - k,
                {
                    let e = &other_events[k];
                    assert(b.take(k + 1).drop_last() =~= b.take(k as int));
                    assert(b.take(k + 1).last() == e@);
                    let mut present = false;
                    let mut j: usize = 0;
                    while j < events.len()
                        invariant
                            0 <= j <= events.len(),
                            present == exists|i: int| 0 <= i < j && events@[i]@ == e@,
                        decreases events.len() - j,
                    {
                        if events[j].same_as(e) {
                            present = true;
                        }
                        j += 1;
                    }
                    proof {
                        let m = event_views(events@);
                        if present {
                            let i = choose|i: int| 0 <= i < events.len() && events@[i]@ == e@;
                            assert(m[i] == e@);
                        } else {
                            assert forall|i: int| 0 <= i < m.len() implies m[i] != e@ by {
                                assert(m[i] == events@[i]@);
                            }
                        }
                    }
                    if !present {
                        let ghost before = event_views(events@);
                        events.push(e.duplicate());
                        assert(event_views(events@) =~= before.push(e@));
                    }
                    k += 1;
                }
            },
        }
        assert(b.take(b.len() as int) =~= b);
        proof {
            lemma_merge_events_union(a, b);
        }
    }
}

/// Does a batch of events call for anything? Classified against no loaded modules, it does when
/// the kind is not [`GhciReloadKind::Noop`]; since removals of loaded modules cannot be seen that
/// way, any removed Haskell source file counts too.
pub open spec fn spec_is_relevant(facts: Seq<PathFactsView>, removed_sources: bool) -> bool {
    spec_kind(classify_all(facts, Seq::<LoadedModuleView>::empty(), true)) != GhciReloadKind::Noop
        || removed_sources
}

/// Is any of the events the removal of a Haskell source file?
pub open spec fn removes_source(facts: Seq<PathFacts>) -> bool {
    exists|k: int|
        0 <= k < facts.len() && (#[trigger] facts[k]).event is Remove && is_haskell_source_path(
            facts[k].event.spec_path(),
        )
}

/// Check whether a batch of events would trigger a reload or restart.
///
/// Uses an empty module set for classification, which correctly identifies restart, reload, and
/// add actions. The one gap: remove-module actions require knowing the loaded targets, so any
/// `Remove` of a Haskell source file is conservatively treated as relevant.
pub fn is_relevant(facts: &Vec<PathFacts>, classifier: &FileClassifier) -> (r: bool)
    ensures
        r == spec_is_relevant(facts_views(facts@), removes_source(facts@)),
{
    let empty = ModuleSet::new();
    let kind = classifier.classify(facts, &empty).kind();
    if kind != GhciReloadKind::Noop {
        return true;
    }
    let mut k: usize = 0;
    while k < facts.len()
        invariant
            0 <= k <= facts.len(),
            forall|j: int|
                0 <= j < k ==> !((#[trigger] facts@[j]).event is Remove && is_haskell_source_path(
                    facts@[j].event.spec_path(),
                )),
        decreases facts.len() - k,
    {
        let f = &facts[k];
        let is_remove = match f.event {
            FileEvent::Remove(_) => true,
            FileEvent::Modify(_) => false,
        };
        if is_remove && is_haskell_source_file(f.event.as_path()) {
            return true;
        }
        k += 1;
    }
    false
}

/// Classify merged events against no loaded modules: `None` when they call for nothing.
pub fn drain_and_classify(facts: &Vec<PathFacts>, classifier: &FileClassifier) -> (r: Option<
    GhciReloadKind,
>)
    ensures
        r == (if spec_kind(classify_all(facts_views(facts@), Seq::<LoadedModuleView>::empty(), true))
            == GhciReloadKind::Noop {
            None
        } else {
            Some(spec_kind(classify_all(facts_views(facts@), Seq::<LoadedModuleView>::empty(), true)))
        }),
{
    let empty = ModuleSet::new();
    let kind = classifier.classify(facts, &empty).kind();
    if kind == GhciReloadKind::Noop {
        None
    } else {
        Some(kind)
    }
}

/// Should we interrupt a reload with a new event? Only a reload of modules can be interrupted;
/// when the reload's kind could not be received, it is not interrupted.
pub open spec fn spec_should_interrupt(kind: Option<GhciReloadKind>) -> bool {
    kind == Some(GhciReloadKind::Reload)
}

/// Should we interrupt a reload, given the kind it reported (`None` if it reported none)?
pub fn should_interrupt(kind: Option<GhciReloadKind>) -> (r: bool)
    ensures
        r == spec_should_interrupt(kind),
{
    match kind {
        Some(GhciReloadKind::Reload) => true,
        _ => false,
    }
}

} // verus!

verus! {

/// Where the handling of one watcher event stands.
#[derive(Debug, Clone)]
pub enum HandlePhase {
    /// Waiting for the dispatch to finish, for `ghci` to exit, for a shutdown or for new events.
    Waiting,
    /// Waiting for the running reload's kind, to decide whether the new event interrupts it.
    AwaitingKind(WatcherEvent),
    /// Waiting to learn whether `ghci` took the interrupt.
    AwaitingSigint,
    /// The interrupt failed and `ghci` was killed; waiting for it to exit.
    AwaitingExit,
    /// `ghci` exited; waiting for it to be restarted.
    Restarting,
    /// Handling is over.
    Finished,
}

/// What the event loop learned while an event is being handled.
#[derive(Debug, Clone)]
pub enum HandleInput {
    /// A shutdown was requested.
    Shutdown,
    /// `ghci` exited.
    GhciExited,
    /// New events arrived (already merged into one); `relevant` says whether they call for
    /// anything (see [`is_relevant`]).
    NewEvent(WatcherEvent, bool),
    /// The running reload reported its kind (`None` if it reported none).
    ReloadKind(Option<GhciReloadKind>),
    /// The interrupt was sent (`true`), or sending it killed the session (`false`).
    SigintSent(bool),
    /// `ghci` was restarted (`true`), or a shutdown came while waiting to restart it (`false`).
    Restarted(bool),
    /// The dispatch finished.
    TaskFinished,
}

/// What the event loop does next.
#[derive(Debug, Clone)]
pub enum HandleAction {
    /// Abort the dispatch, stop `ghci` and shut down.
    Shutdown,
    /// Abort the dispatch, wait for a relevant file change and restart `ghci`.
    RestartGhci,
    /// Keep waiting.
    KeepWaiting,
    /// Wait for the running reload's kind.
    AskReloadKind,
    /// Abort the dispatch and send `ghci` a SIGINT; this event is to be retried.
    Interrupt,
    /// Wait for `ghci` to exit.
    WaitForExit,
    /// Handling is over; nothing is left to do.
    Done,
    /// Handling is over; this event (after draining queued events into it) is to be handled
    /// next.
    Retry(WatcherEvent),
}

/// The contents of a [`HandlePhase`].
pub enum HandlePhaseView {
    Waiting,
    AwaitingKind(Seq<FileEventView>),
    AwaitingSigint,
    AwaitingExit,
    Restarting,
    Finished,
}

/// The contents of a [`HandleAction`].
pub enum HandleActionView {
    Shutdown,
    RestartGhci,
    KeepWaiting,
    AskReloadKind,
    Interrupt,
    WaitForExit,
    Done,
    Retry(Seq<FileEventView>),
}

/// The contents of an [`EventHandler`].
pub struct EventHandlerView {
    pub event: Seq<FileEventView>,
    pub pending: Option<Seq<FileEventView>>,
    pub may_ask: bool,
    pub interrupt_reloads: bool,
    pub phase: HandlePhaseView,
}

/// The contents of a [`HandleInput`].
pub enum HandleInputView {
    Shutdown,
    GhciExited,
    NewEvent(Seq<FileEventView>, bool),
    ReloadKind(Option<GhciReloadKind>),
    SigintSent(bool),
    Restarted(bool),
    TaskFinished,
}

impl View for HandlePhase {
    type V = HandlePhaseView;

    open spec fn view(&self) -> HandlePhaseView {
        match self {
            HandlePhase::Waiting => HandlePhaseView::Waiting,
            HandlePhase::AwaitingKind(e) => HandlePhaseView::AwaitingKind(e@),
            HandlePhase::AwaitingSigint => HandlePhaseView::AwaitingSigint,
            HandlePhase::AwaitingExit => HandlePhaseView::AwaitingExit,
            HandlePhase::Restarting => HandlePhaseView::Restarting,
            HandlePhase::Finished => HandlePhaseView::Finished,
        }
    }
}

impl View for HandleAction {
    type V = HandleActionView;

    open spec fn view(&self) -> HandleActionView {
        match self {
            HandleAction::Shutdown => HandleActionView::Shutdown,
            HandleAction::RestartGhci => HandleActionView::RestartGhci,
            HandleAction::KeepWaiting => HandleActionView::KeepWaiting,
            HandleAction::AskReloadKind => HandleActionView::AskReloadKind,
            HandleAction::Interrupt => HandleActionView::Interrupt,
            HandleAction::WaitForExit => HandleActionView::WaitForExit,
            HandleAction::Done => HandleActionView::Done,
            HandleAction::Retry(e) => HandleActionView::Retry(e@),
        }
    }
}

impl View for HandleInput {
    type V = HandleInputView;

    open spec fn view(&self) -> HandleInputView {
        match self {
            HandleInput::Shutdown => HandleInputView::Shutdown,
            HandleInput::GhciExited => HandleInputView::GhciExited,
            HandleInput::NewEvent(e, relevant) => HandleInputView::NewEvent(e@, *relevant),
            HandleInput::ReloadKind(k) => HandleInputView::ReloadKind(*k),
            HandleInput::SigintSent(ok) => HandleInputView::SigintSent(*ok),
            HandleInput::Restarted(ok) => HandleInputView::Restarted(*ok),
            HandleInput::TaskFinished => HandleInputView::TaskFinished,
        }
    }
}

/// Events held back for a retry, with `new` added.
pub open spec fn add_pending(
    pending: Option<Seq<FileEventView>>,
    new: Seq<FileEventView>,
) -> Option<Seq<FileEventView>> {
    match pending {
        Some(p) => Some(merge_events(p, new)),
        None => Some(new),
    }
}

/// The end of handling: the held-back events are retried, if there are any.
pub open spec fn finish_action(pending: Option<Seq<FileEventView>>) -> HandleActionView {
    match pending {
        Some(p) => HandleActionView::Retry(p),
        None => HandleActionView::Done,
    }
}

/// One decision while an event is being handled: the handler after the input, and what to do.
///
/// A shutdown ends handling. When `ghci` exits, it is restarted, and then handling ends as when
/// the dispatch finishes: held-back events are retried. Irrelevant new events are ignored.
/// Relevant new events are held back, unless reloads may be interrupted and the running
/// reload's kind has not been asked for yet: then it is asked for, and a reload of modules is
/// interrupted, with the event being handled, the held-back events and the new ones merged to
/// be retried. When the interrupt kills the session, the merged event is held back and the
/// session's exit awaited. Inputs that do not fit the phase change nothing.
pub open spec fn handle_step(h: EventHandlerView, i: HandleInputView) -> (EventHandlerView, HandleActionView) {
    let finished = EventHandlerView { phase: HandlePhaseView::Finished, ..h };
    let waiting = EventHandlerView { phase: HandlePhaseView::Waiting, ..h };
    match (h.phase, i) {
        (HandlePhaseView::Waiting, HandleInputView::Shutdown) => (finished, HandleActionView::Shutdown),
        (HandlePhaseView::Waiting, HandleInputView::GhciExited) => (
            EventHandlerView { phase: HandlePhaseView::Restarting, ..h },
            HandleActionView::RestartGhci,
        ),
        (HandlePhaseView::AwaitingExit, HandleInputView::GhciExited) => (
            EventHandlerView { phase: HandlePhaseView::Restarting, ..h },
            HandleActionView::RestartGhci,
        ),
        (HandlePhaseView::Restarting, HandleInputView::Restarted(ok)) => if ok {
            (EventHandlerView { pending: None, ..finished }, finish_action(h.pending))
        } else {
            (finished, HandleActionView::Shutdown)
        },
        (HandlePhaseView::Waiting, HandleInputView::NewEvent(new, relevant)) => if !relevant {
            (h, HandleActionView::KeepWaiting)
        } else if h.interrupt_reloads && h.may_ask {
            (
                EventHandlerView { may_ask: false, phase: HandlePhaseView::AwaitingKind(new), ..h },
                HandleActionView::AskReloadKind,
            )
        } else {
            (
                EventHandlerView { pending: add_pending(h.pending, new), ..h },
                HandleActionView::KeepWaiting,
            )
        },
        (HandlePhaseView::AwaitingKind(new), HandleInputView::ReloadKind(kind)) => if spec_should_interrupt(
            kind,
        ) {
            let merged = match h.pending {
                Some(p) => merge_events(merge_events(h.event, p), new),
                None => merge_events(h.event, new),
            };
            (
                EventHandlerView {
                    event: merged,
                    pending: None,
                    phase: HandlePhaseView::AwaitingSigint,
                    ..h
                },
                HandleActionView::Interrupt,
            )
        } else {
            (
                EventHandlerView { pending: add_pending(h.pending, new), ..waiting },
                HandleActionView::KeepWaiting,
            )
        },
        (HandlePhaseView::AwaitingSigint, HandleInputView::SigintSent(ok)) => if ok {
            (finished, HandleActionView::Retry(h.event))
        } else {
            (
                EventHandlerView {
                    pending: Some(h.event),
                    phase: HandlePhaseView::AwaitingExit,
                    ..h
                },
                HandleActionView::WaitForExit,
            )
        },
        (HandlePhaseView::Waiting, HandleInputView::TaskFinished) => (
            EventHandlerView { pending: None, ..finished },
            finish_action(h.pending),
        ),
        _ => (h, HandleActionView::KeepWaiting),
    }
}

/// The handling of one watcher event while it is dispatched to `ghci`.
#[derive(Debug)]
pub struct EventHandler {
    event: WatcherEvent,
    pending: Option<WatcherEvent>,
    may_ask: bool,
    interrupt_reloads: bool,
    phase: HandlePhase,
}

/// The events of an optional watcher event.
pub open spec fn opt_event_view(e: Option<WatcherEvent>) -> Option<Seq<FileEventView>> {
    match e {
        Some(e) => Some(e@),
        None => None,
    }
}

impl View for EventHandler {
    type V = EventHandlerView;

    closed spec fn view(&self) -> EventHandlerView {
        EventHandlerView {
            event: self.event@,
            pending: opt_event_view(self.pending),
            may_ask: self.may_ask,
            interrupt_reloads: self.interrupt_reloads,
            phase: self.phase@,
        }
    }
}

impl EventHandler {
    /// Start handling `event`, which has just been dispatched.
    pub fn new(event: WatcherEvent, interrupt_reloads: bool) -> (r: Self)
        ensures
            r@ == (EventHandlerView {
                event: event@,
                pending: None,
                may_ask: true,
                interrupt_reloads,
                phase: HandlePhaseView::Waiting,
            }),
    {
        EventHandler { event, pending: None, may_ask: true, interrupt_reloads, phase: HandlePhase::Waiting }
    }

    /// The event being handled.
    pub fn event(&self) -> (r: &WatcherEvent)
        ensures
            r@ == self@.event,
    {
        &self.event
    }

    fn take_pending(&mut self) -> (r: Option<WatcherEvent>)
        ensures
            opt_event_view(r) == old(self)@.pending,
            final(self)@ == (EventHandlerView { pending: None, ..old(self)@ }),
    {
        let p = self.pending.take();
        p
    }

    fn add_to_pending(&mut self, new: WatcherEvent)
        ensures
            final(self)@ == (EventHandlerView {
                pending: add_pending(old(self)@.pending, new@),
                ..old(self)@
            }),
    {
        match self.take_pending() {
            Some(mut p) => {
                p.merge(new);
                self.pending = Some(p);
            },
            None => {
                self.pending = Some(new);
            },
        }
    }

    /// Decide what to do after `input`; see [`handle_step`].
    pub fn step(&mut self, input: HandleInput) -> (r: HandleAction)
        ensures
            (final(self)@, r@) == handle_step(old(self)@, input@),
    {
        let mut phase = HandlePhase::Finished;
        std::mem::swap(&mut phase, &mut self.phase);
        match (phase, input) {
            (HandlePhase::Waiting, HandleInput::Shutdown) => HandleAction::Shutdown,
            (HandlePhase::Waiting, HandleInput::GhciExited) | (
                HandlePhase::AwaitingExit,
                HandleInput::GhciExited,
            ) => {
                self.phase = HandlePhase::Restarting;
                HandleAction::RestartGhci
            },
            (HandlePhase::Restarting, HandleInput::Restarted(ok)) => {
                if ok {
                    match self.take_pending() {
                        Some(p) => HandleAction::Retry(p),
                        None => HandleAction::Done,
                    }
                } else {
                    HandleAction::Shutdown
                }
            },
            (HandlePhase::Waiting, HandleInput::NewEvent(new, relevant)) => {
                if !relevant {
                    self.phase = HandlePhase::Waiting;
                    HandleAction::KeepWaiting
                } else if self.interrupt_reloads && self.may_ask {
                    self.may_ask = false;
                    self.phase = HandlePhase::AwaitingKind(new);
                    HandleAction::AskReloadKind
                } else {
                    self.phase = HandlePhase::Waiting;
                    self.add_to_pending(new);
                    HandleAction::KeepWaiting
                }
            },
            (HandlePhase::AwaitingKind(new), HandleInput::ReloadKind(kind)) => {
                if should_interrupt(kind) {
                    if let Some(p) = self.take_pending() {
                        self.event.merge(p);
                    }
                    self.event.merge(new);
                    self.phase = HandlePhase::AwaitingSigint;
                    HandleAction::Interrupt
                } else {
                    self.phase = HandlePhase::Waiting;
                    self.add_to_pending(new);
                    HandleAction::KeepWaiting
                }
            },
            (HandlePhase::AwaitingSigint, HandleInput::SigintSent(ok)) => {
                if ok {
                    HandleAction::Retry(self.event.duplicate())
                } else {
                    self.pending = Some(self.event.duplicate());
                    self.phase = HandlePhase::AwaitingExit;
                    HandleAction::WaitForExit
                }
            },
            (HandlePhase::Waiting, HandleInput::TaskFinished) => {
                match self.take_pending() {
                    Some(p) => HandleAction::Retry(p),
                    None => HandleAction::Done,
                }
            },
            (phase, _) => {
                self.phase = phase;
                HandleAction::KeepWaiting
            },
        }
    }
}

/// The events held back for a retry, as a set.
pub open spec fn pending_set(pending: Option<Seq<FileEventView>>) -> Set<FileEventView> {
    match pending {
        Some(p) => p.to_set(),
        None => Set::empty(),
    }
}

/// Holding back new events loses none: the held-back events afterwards are exactly those before
/// and the new ones.
pub proof fn lemma_add_pending_keeps_events(pending: Option<Seq<FileEventView>>, new: Seq<FileEventView>)
    ensures
        pending_set(add_pending(pending, new)) == pending_set(pending).union(new.to_set()),
{
    match pending {
        Some(p) => lemma_merge_events_union(p, new),
        None => {
            assert(Set::<FileEventView>::empty().union(new.to_set()) =~= new.to_set());
        },
    }
}

/// Interrupting a reload loses no work: the event to retry holds every event of the event being
/// handled, of the held-back events and of the new events that caused the interrupt, and once
/// `ghci` takes the interrupt exactly that event is retried.
pub proof fn lemma_interrupt_keeps_events(h: EventHandlerView, kind: Option<GhciReloadKind>)
    requires
        h.phase is AwaitingKind,
        spec_should_interrupt(kind),
    ensures
        ({
            let new = h.phase->AwaitingKind_0;
            let (h2, a) = handle_step(h, HandleInputView::ReloadKind(kind));
            &&& a is Interrupt
            &&& h2.pending is None
            &&& h2.event.to_set() == h.event.to_set().union(pending_set(h.pending)).union(
                new.to_set(),
            )
            &&& handle_step(h2, HandleInputView::SigintSent(true)).1 == HandleActionView::Retry(
                h2.event,
            )
        }),
{
    let new = h.phase->AwaitingKind_0;
    match h.pending {
        Some(p) => {
            lemma_merge_events_union(h.event, p);
            lemma_merge_events_union(merge_events(h.event, p), new);
        },
        None => {
            lemma_merge_events_union(h.event, new);
            assert(h.event.to_set().union(Set::<FileEventView>::empty()) =~= h.event.to_set());
        },
    }
}

/// Where waiting to restart a `ghci` that exited stands.
#[derive(Debug, Clone, Copy, PartialEq, Eq, Structural)]
pub enum RestartPhase {
    /// Waiting for a file change that calls for a restart.
    WaitingForChange,
    /// Restarting; waiting for the restart to finish or for `ghci` to exit again.
    Restarting,
    /// Waiting is over.
    Finished,
}

/// What the loop learned while waiting to restart `ghci`.
#[derive(Debug, Clone, Copy, PartialEq, Eq, Structural)]
pub enum RestartInput {
    /// A shutdown was requested.
    Shutdown,
    /// The channel of watcher events closed, which happens when shutting down.
    EventsClosed,
    /// File events arrived (already drained into one); `relevant` says whether they call for
    /// anything (see [`drain_and_classify`]).
    Event { relevant: bool },
    /// `ghci` exited (again).
    Exited,
    /// The restart finished.
    Restarted,
}

/// What the loop does next.
#[derive(Debug, Clone, Copy, PartialEq, Eq, Structural)]
pub enum RestartAction {
    /// Stop waiting: the session is shutting down.
    Shutdown,
    /// Keep waiting for the next input.
    KeepWaiting,
    /// Restart `ghci`.
    Restart,
    /// `ghci` is running again.
    Done,
}

/// One decision while waiting to restart `ghci`: a shutdown (or the events channel closing)
/// while waiting for a change ends the wait; an irrelevant change is ignored and a relevant one
/// restarts `ghci`; when `ghci` exits during the restart, the wait for a change starts over, and
/// when the restart finishes, the wait is over. Inputs that do not fit the phase change nothing.
pub open spec fn restart_step(phase: RestartPhase, input: RestartInput) -> (RestartPhase, RestartAction) {
    match (phase, input) {
        (RestartPhase::WaitingForChange, RestartInput::Shutdown) => (
            RestartPhase::Finished,
            RestartAction::Shutdown,
        ),
        (RestartPhase::WaitingForChange, RestartInput::EventsClosed) => (
            RestartPhase::Finished,
            RestartAction::Shutdown,
        ),
        (RestartPhase::WaitingForChange, RestartInput::Event { relevant }) => if relevant {
            (RestartPhase::Restarting, RestartAction::Restart)
        } else {
            (RestartPhase::WaitingForChange, RestartAction::KeepWaiting)
        },
        (RestartPhase::Restarting, RestartInput::Exited) => (
            RestartPhase::WaitingForChange,
            RestartAction::KeepWaiting,
        ),
        (RestartPhase::Restarting, RestartInput::Restarted) => (
            RestartPhase::Finished,
            RestartAction::Done,
        ),
        _ => (phase, RestartAction::KeepWaiting),
    }
}

/// Waiting for a file change after `ghci` exited, then restarting it, until it runs again or the
/// session shuts down.
#[derive(Debug)]
pub struct RestartWaiter {
    phase: RestartPhase,
}

impl View for RestartWaiter {
    type V = RestartPhase;

    closed spec fn view(&self) -> RestartPhase {
        self.phase
    }
}

impl RestartWaiter {
    /// Start waiting for a change, `ghci` having exited.
    pub fn new() -> (r: Self)
        ensures
            r@ == RestartPhase::WaitingForChange,
    {
        RestartWaiter { phase: RestartPhase::WaitingForChange }
    }

    /// Where the wait stands.
    pub fn phase(&self) -> (r: RestartPhase)
        ensures
            r == self@,
    {
        self.phase
    }

    /// Decide what to do after `input`; see [`restart_step`].
    pub fn step(&mut self, input: RestartInput) -> (r: RestartAction)
        ensures
            (final(self)@, r) == restart_step(old(self)@, input),
    {
        let (phase, action) = match (self.phase, input) {
            (RestartPhase::WaitingForChange, RestartInput::Shutdown) | (
                RestartPhase::WaitingForChange,
                RestartInput::EventsClosed,
            ) => (RestartPhase::Finished, RestartAction::Shutdown),
            (RestartPhase::WaitingForChange, RestartInput::Event { relevant }) => if relevant {
                (RestartPhase::Restarting, RestartAction::Restart)
            } else {
                (RestartPhase::WaitingForChange, RestartAction::KeepWaiting)
            },
            (RestartPhase::Restarting, RestartInput::Exited) => (
                RestartPhase::WaitingForChange,
                RestartAction::KeepWaiting,
            ),
            (RestartPhase::Restarting, RestartInput::Restarted) => (
                RestartPhase::Finished,
                RestartAction::Done,
            ),
            (phase, _) => (phase, RestartAction::KeepWaiting),
        };
        self.phase = phase;
        action
    }
}

/// The wait only ever restarts `ghci` for a relevant change, and ends only by a shutdown or a
/// finished restart.
pub proof fn lemma_restart_only_on_relevant_change(phase: RestartPhase, input: RestartInput)
    ensures
        restart_step(phase, input).1 == RestartAction::Restart ==> input == (RestartInput::Event {
            relevant: true,
        }),
        restart_step(phase, input).0 == RestartPhase::Finished && phase != RestartPhase::Finished
            ==> restart_step(phase, input).1 == RestartAction::Shutdown || restart_step(
            phase,
            input,
        ).1 == RestartAction::Done,
{
}

/// Classification calls for nothing exactly when every path is ignored.
proof fn lemma_noop_iff_all_ignored(f: Seq<PathFactsView>, skip_dotfiles: bool)
    ensures
        spec_kind(classify_all(f, Seq::<LoadedModuleView>::empty(), skip_dotfiles))
            == GhciReloadKind::Noop <==> forall|k: int|
            0 <= k < f.len() ==> #[trigger] path_action(f[k], Seq::<LoadedModuleView>::empty(), skip_dotfiles)
                == PathAction::Ignore,
    decreases f.len(),
{
    if f.len() > 0 {
        lemma_noop_iff_all_ignored(f.drop_last(), skip_dotfiles);
        assert(f[f.len() - 1] == f.last());
        assert forall|k: int| 0 <= k < f.len() - 1 implies f.drop_last()[k] == f[k] by {}
    }
}

/// Adding file events never turns a relevant batch irrelevant: each path is classified on its
/// own, so a batch that holds every path fact of a relevant batch is relevant too.
pub proof fn lemma_relevance_kept(a: Seq<PathFacts>, c: Seq<PathFacts>)
    requires
        forall|i: int| 0 <= i < a.len() ==> exists|j: int| 0 <= j < c.len() && c[j] == #[trigger] a[i],
    ensures
        spec_is_relevant(facts_views(a), removes_source(a)) ==> spec_is_relevant(
            facts_views(c),
            removes_source(c),
        ),
{
    let e = Seq::<LoadedModuleView>::empty();
    lemma_noop_iff_all_ignored(facts_views(a), true);
    lemma_noop_iff_all_ignored(facts_views(c), true);
    if spec_kind(classify_all(facts_views(a), e, true)) != GhciReloadKind::Noop {
        let i = choose|i: int|
            0 <= i < a.len() && #[trigger] path_action(facts_views(a)[i], e, true)
                != PathAction::Ignore;
        let j = choose|j: int| 0 <= j < c.len() && c[j] == a[i];
        assert(facts_views(c)[j] == facts_views(a)[i]);
        assert(path_action(facts_views(c)[j], e, true) != PathAction::Ignore);
    }
    if removes_source(a) {
        let k = choose|k: int|
            0 <= k < a.len() && (#[trigger] a[k]).event is Remove && is_haskell_source_path(
                a[k].event.spec_path(),
            );
        let j = choose|j: int| 0 <= j < c.len() && c[j] == a[k];
        assert(c[j].event is Remove && is_haskell_source_path(c[j].event.spec_path()));
    }
}

} // verus!

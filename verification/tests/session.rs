use ghciwatch::canonicalized_path::CanonicalizedUtf8PathBuf;
use ghciwatch::clonable_command::ClonableCommand;
use ghciwatch::cli::{session_command, RustBacktrace, WatchOpts};
use ghciwatch::event_filter::FileEvent;
use ghciwatch::ghci::compilation_log::CompilationLog;
use ghciwatch::ghci::error_log::{error_log_contents, ErrorLog, STILL_COMPILING};
use ghciwatch::ghci::file_classifier::{
    FileClassifier, GhciReloadKind, GlobMatch, PathAction, PathFacts, ReloadActions,
};
use ghciwatch::ghci::ghci_command::GhciCommand;
use ghciwatch::ghci::loaded_module::{LoadedModule, LoadedModuleName};
use ghciwatch::ghci::manager::{
    drain_and_classify, is_relevant, should_interrupt, EventHandler, HandleAction, HandleInput,
    RestartAction, RestartInput, RestartPhase, RestartWaiter, WatcherEvent,
};
use ghciwatch::ghci::module_set::ModuleSet;
use ghciwatch::ghci::parse::ghc_message::compilation_summary::{
    CompilationResult, CompilationSummary, ModulesLoaded,
};
use ghciwatch::ghci::parse::ghc_message::position::PositionRange;
use ghciwatch::ghci::parse::ghc_message::severity::Severity;
use ghciwatch::ghci::parse::ghc_message::{GhcDiagnostic, GhcMessage};
use ghciwatch::ghci::parse::module_and_files::CompilingModule;
use ghciwatch::ghci::parse::module_set::ModuleSet as TargetSet;
use ghciwatch::ghci::parse::show_paths::{PathError, ShowPaths};
use ghciwatch::ghci::parse::show_targets::{
    modules_of_targets, parse_show_targets, ShowTargetsError,
};
use ghciwatch::ghci::parse::target_kind::TargetKind;
use ghciwatch::ghci::process::GhciProcessState;
use ghciwatch::ghci::{get_reload_actions, modules_to_add, reload_plan, ReloadStep};
use ghciwatch::haskell_source_file::{file_name_of, is_haskell_source_file};

fn modify(path: &str) -> PathFacts {
    PathFacts {
        event: FileEvent::Modify(path.to_owned()),
        path: path.to_owned(),
        restart_match: GlobMatch::NoMatch,
        reload_match: GlobMatch::NoMatch,
    }
}

fn remove(path: &str) -> PathFacts {
    PathFacts {
        event: FileEvent::Remove(path.to_owned()),
        path: path.to_owned(),
        restart_match: GlobMatch::NoMatch,
        reload_match: GlobMatch::NoMatch,
    }
}

fn strings(v: &[&str]) -> Vec<String> {
    v.iter().map(|s| s.to_string()).collect()
}

fn loaded(paths: &[&str]) -> ModuleSet {
    let mut set = ModuleSet::new();
    for p in paths {
        set.insert_module(LoadedModule::new(p.to_string()));
    }
    set
}

#[test]
fn haskell_source_files() {
    assert!(is_haskell_source_file("src/A.hs"));
    assert!(is_haskell_source_file("src/A.lhs"));
    assert!(!is_haskell_source_file("src/A.hsc"));
    assert!(!is_haskell_source_file("src/hs"));
    assert!(!is_haskell_source_file("src/.hs"));
    assert_eq!(file_name_of("src/My/Lib.hs"), Some("Lib.hs".to_owned()));
    assert_eq!(file_name_of("Lib.hs"), Some("Lib.hs".to_owned()));
    assert_eq!(file_name_of("src/"), Some("src".to_owned()));
    assert_eq!(file_name_of("src/.."), None);
}

#[test]
fn classify_paths() {
    let classifier = FileClassifier::new("/project".to_owned());
    let targets = loaded(&["src/Loaded.hs", "src/Gone.hs", "src/Old.hs"]);
    let mut cabal = modify("my.cabal");
    cabal.reload_match = GlobMatch::Whitelist;
    let mut ignored = modify("src/Ignored.hs");
    ignored.reload_match = GlobMatch::Ignore;
    let mut restart_glob = modify("notes.txt");
    restart_glob.restart_match = GlobMatch::Whitelist;
    let mut reload_glob = modify("data.json");
    reload_glob.reload_match = GlobMatch::Whitelist;
    let mut kept_removal = remove("src/Old.hs");
    kept_removal.restart_match = GlobMatch::Ignore;
    let events = vec![
        modify("src/Loaded.hs"),
        modify("src/New.hs"),
        remove("src/Gone.hs"),
        remove("src/NotLoaded.hs"),
        cabal,
        modify(".ghci"),
        ignored,
        restart_glob,
        reload_glob,
        modify("README.md"),
        modify("src/.Hidden.hs"),
        kept_removal,
    ];
    let actions = classifier.classify(&events, &targets);
    // Removed Haskell sources restart the session, unless the restart globs ignore them.
    assert_eq!(
        actions.needs_restart,
        strings(&["src/Gone.hs", "src/NotLoaded.hs", "my.cabal", ".ghci", "notes.txt"])
    );
    assert_eq!(actions.needs_reload, strings(&["src/Loaded.hs", "data.json"]));
    assert_eq!(actions.needs_add, strings(&["src/New.hs"]));
    assert_eq!(actions.needs_remove, strings(&["src/Old.hs"]));
    assert_eq!(actions.kind(), GhciReloadKind::Restart);
    assert!(actions.needs_restart());
    assert!(actions.needs_modify());
    assert_eq!(
        reload_plan(&actions),
        vec![
            ReloadStep::ReportKind(GhciReloadKind::Restart),
            ReloadStep::Clear,
            ReloadStep::Restart
        ]
    );

    // Without skipping dotfiles, a modified Haskell dotfile is added.
    let actions = get_reload_actions(&vec![modify("src/.Hidden.hs")], &targets);
    assert_eq!(actions.needs_add, strings(&["src/.Hidden.hs"]));
}

#[test]
fn classify_before_startup_adds_modified_sources() {
    let classifier = FileClassifier::new("/project".to_owned());
    let actions = classifier.classify(
        &vec![modify("src/A.hs"), remove("src/B.hs")],
        &ModuleSet::new(),
    );
    assert_eq!(actions.needs_add, strings(&["src/A.hs"]));
    assert_eq!(actions.needs_restart, strings(&["src/B.hs"]));
    assert!(actions.needs_remove.is_empty());
    assert!(actions.needs_reload.is_empty());
}

#[test]
fn reload_kinds_and_plans() {
    let none = ReloadActions {
        needs_restart: vec![],
        needs_reload: vec![],
        needs_add: vec![],
        needs_remove: vec![],
    };
    assert_eq!(none.kind(), GhciReloadKind::Noop);
    assert!(!none.needs_modify());
    assert_eq!(
        reload_plan(&none),
        vec![ReloadStep::ReportKind(GhciReloadKind::Noop), ReloadStep::PruneCommandHandles]
    );

    let all = ReloadActions {
        needs_restart: vec![],
        needs_reload: strings(&["a.hs"]),
        needs_add: strings(&["b.hs"]),
        needs_remove: strings(&["c.hs"]),
    };
    assert_eq!(all.kind(), GhciReloadKind::Reload);
    assert_eq!(
        reload_plan(&all),
        vec![
            ReloadStep::ReportKind(GhciReloadKind::Reload),
            ReloadStep::Clear,
            ReloadStep::BeforeReloadHooks,
            ReloadStep::RemoveModules,
            ReloadStep::AddModules,
            ReloadStep::ReloadModules,
            ReloadStep::FinishCompilation,
            ReloadStep::PruneCommandHandles,
        ]
    );
}

#[test]
fn relevance_of_events() {
    let classifier = FileClassifier::new("/project".to_owned());
    assert!(is_relevant(&vec![modify("src/A.hs")], &classifier));
    assert!(is_relevant(&vec![remove("src/A.hs")], &classifier));
    assert!(!is_relevant(&vec![modify("README.md")], &classifier));
    assert_eq!(
        drain_and_classify(&vec![modify("README.md")], &classifier),
        None
    );
    assert_eq!(
        drain_and_classify(&vec![modify("src/A.hs")], &classifier),
        Some(GhciReloadKind::Reload)
    );
    assert!(should_interrupt(Some(GhciReloadKind::Reload)));
    assert!(!should_interrupt(Some(GhciReloadKind::Restart)));
    assert!(!should_interrupt(None));
}

#[test]
fn facts_of_an_event() {
    let classifier = FileClassifier::new("/project".to_owned());
    assert_eq!(classifier.relative_path("/project/src/A.hs"), "src/A.hs");
    let facts = classifier.path_facts(
        FileEvent::Remove("/project/src/A.hs".to_owned()),
        GlobMatch::NoMatch,
        GlobMatch::Whitelist,
    );
    assert_eq!(facts.path, "src/A.hs");
    assert_eq!(facts.event, FileEvent::Remove("/project/src/A.hs".to_owned()));
    assert_eq!(facts.reload_match, GlobMatch::Whitelist);
    let outside = classifier.path_facts(
        FileEvent::Modify("/elsewhere/B.hs".to_owned()),
        GlobMatch::NoMatch,
        GlobMatch::NoMatch,
    );
    assert_eq!(outside.path, "/elsewhere/B.hs");
}

#[test]
fn relevance_kept_when_events_added() {
    let classifier = FileClassifier::new("/project".to_owned());
    let batch = vec![modify("src/A.hs")];
    assert!(is_relevant(&batch, &classifier));
    let grown = vec![modify("README.md"), modify("src/A.hs"), modify("notes.md")];
    assert!(is_relevant(&grown, &classifier));
    assert!(!is_relevant(&vec![modify("README.md"), modify("notes.md")], &classifier));
}

fn reload(paths: &[&str]) -> WatcherEvent {
    WatcherEvent::reload(paths.iter().map(|p| FileEvent::Modify(p.to_string())).collect())
}

#[test]
fn merging_events_keeps_everything_once() {
    let mut a = reload(&["a.hs", "b.hs"]);
    a.merge(reload(&["b.hs", "c.hs"]));
    assert_eq!(
        a.events(),
        &vec![
            FileEvent::Modify("a.hs".to_owned()),
            FileEvent::Modify("b.hs".to_owned()),
            FileEvent::Modify("c.hs".to_owned()),
        ]
    );
}

#[test]
fn interrupting_a_reload_retries_all_events() {
    let mut handler = EventHandler::new(reload(&["a.hs"]), true);
    assert!(matches!(
        handler.step(HandleInput::NewEvent(reload(&["b.hs"]), true)),
        HandleAction::AskReloadKind
    ));
    assert!(matches!(
        handler.step(HandleInput::ReloadKind(Some(GhciReloadKind::Reload))),
        HandleAction::Interrupt
    ));
    match handler.step(HandleInput::SigintSent(true)) {
        HandleAction::Retry(event) => assert_eq!(
            event.events(),
            &vec![
                FileEvent::Modify("a.hs".to_owned()),
                FileEvent::Modify("b.hs".to_owned()),
            ]
        ),
        other => panic!("unexpected action {other:?}"),
    }
}

#[test]
fn held_back_events_are_retried_after_the_reload() {
    let mut handler = EventHandler::new(reload(&["a.hs"]), false);
    assert!(matches!(
        handler.step(HandleInput::NewEvent(reload(&["irrelevant.txt"]), false)),
        HandleAction::KeepWaiting
    ));
    assert!(matches!(
        handler.step(HandleInput::NewEvent(reload(&["b.hs"]), true)),
        HandleAction::KeepWaiting
    ));
    assert!(matches!(
        handler.step(HandleInput::NewEvent(reload(&["b.hs", "c.hs"]), true)),
        HandleAction::KeepWaiting
    ));
    match handler.step(HandleInput::TaskFinished) {
        HandleAction::Retry(event) => assert_eq!(
            event.events(),
            &vec![
                FileEvent::Modify("b.hs".to_owned()),
                FileEvent::Modify("c.hs".to_owned()),
            ]
        ),
        other => panic!("unexpected action {other:?}"),
    }
}

#[test]
fn shutdown_and_exit_while_handling() {
    let mut handler = EventHandler::new(reload(&["a.hs"]), true);
    assert!(matches!(handler.step(HandleInput::Shutdown), HandleAction::Shutdown));

    let mut handler = EventHandler::new(reload(&["a.hs"]), true);
    assert!(matches!(handler.step(HandleInput::GhciExited), HandleAction::RestartGhci));
    assert!(matches!(handler.step(HandleInput::Restarted(true)), HandleAction::Done));

    let mut handler = EventHandler::new(reload(&["a.hs"]), true);
    assert!(matches!(handler.step(HandleInput::TaskFinished), HandleAction::Done));
}

#[test]
fn loaded_module_sets() {
    let mut set = ModuleSet::new();
    assert!(set.insert_module(LoadedModule::with_name(
        "src/A.hs".to_owned(),
        "A".to_owned()
    )));
    assert!(!set.insert_module(LoadedModule::new("src/A.hs".to_owned())));
    assert!(set.insert_module(LoadedModule::new("src/B.hs".to_owned())));
    assert_eq!(set.len(), 2);
    assert!(set.contains_source_path("src/B.hs"));
    assert_eq!(set.get_import_name(&"src/A.hs".to_owned()).to_string(), "A");
    assert_eq!(
        set.get_import_name(&"src/C.hs".to_owned()).to_string(),
        "src/C.hs"
    );
    assert!(set.remove_source_path("src/A.hs"));
    assert!(!set.remove_source_path("src/A.hs"));
    assert!(!set.contains_source_path("src/A.hs"));
    assert_eq!(set.len(), 1);

    let module = LoadedModule::with_name("src/A.hs".to_owned(), "A".to_owned());
    assert!(matches!(module.name(), LoadedModuleName::Name("A")));
    assert!(matches!(
        LoadedModule::new("src/A.hs".to_owned()).name(),
        LoadedModuleName::Path("src/A.hs")
    ));
    // Modules are compared by path.
    assert_eq!(module, LoadedModule::new("src/A.hs".to_owned()));
    assert_eq!(module.path(), "src/A.hs");
}

fn diagnostic(severity: Severity, path: &str, message: &str) -> GhcDiagnostic {
    GhcDiagnostic {
        severity,
        path: Some(path.to_owned()),
        span: PositionRange::new(1, 2, 1, 2),
        message: message.to_owned(),
    }
}

#[test]
fn compilation_logs() {
    let mut log = CompilationLog::new();
    assert_eq!(log.result(), None);
    log.extend(vec![
        GhcMessage::Compiling(CompilingModule {
            name: "A".to_owned(),
            path: "src/A.hs".to_owned(),
        }),
        GhcMessage::Diagnostic(diagnostic(Severity::Warning, "src/A.hs", "hm")),
        GhcMessage::Summary(CompilationSummary {
            result: CompilationResult::Succeeded,
            modules_loaded: ModulesLoaded::Count(1),
        }),
    ]);
    assert_eq!(log.compiled_modules.len(), 1);
    assert_eq!(log.diagnostics.len(), 1);
    assert_eq!(log.result(), Some(CompilationResult::Succeeded));
    assert_eq!(
        error_log_contents(&log),
        "All good (1 module)\nsrc/A.hs:1:2: warning: hm"
    );

    // Without a summary, the presence of errors decides the result.
    let mut log = CompilationLog::new();
    log.push_message(GhcMessage::Diagnostic(diagnostic(Severity::Error, "src/B.hs", "bad")));
    log.fill_empty_summary();
    assert_eq!(log.result(), Some(CompilationResult::Failed));
    log.fill_empty_summary();
    assert_eq!(log.result(), Some(CompilationResult::Failed));
    assert_eq!(error_log_contents(&log), "src/B.hs:1:2: error: bad");

    let mut log = CompilationLog::new();
    log.fill_empty_summary();
    assert_eq!(error_log_contents(&log), "All good (0 modules)\n");
}

#[test]
fn error_log_targets() {
    let log = CompilationLog::new();
    assert_eq!(ErrorLog::new(None).contents(&log), None);
    assert_eq!(ErrorLog::new(None).still_compiling(), None);
    let error_log = ErrorLog::new(Some("ghcid.txt".to_owned()));
    assert_eq!(error_log.path(), &Some("ghcid.txt".to_owned()));
    assert_eq!(
        error_log.still_compiling(),
        Some(("ghcid.txt".to_owned(), STILL_COMPILING.to_owned()))
    );
    assert_eq!(
        error_log.contents(&log),
        Some(("ghcid.txt".to_owned(), String::new()))
    );
}

#[test]
fn target_sets() {
    let mut targets = TargetSet::from_paths(vec![
        ("src/A.hs".to_owned(), TargetKind::Path),
        ("src/B.hs".to_owned(), TargetKind::Module),
        ("src/A.hs".to_owned(), TargetKind::Module),
    ]);
    assert_eq!(targets.len(), 2);
    assert!(targets.contains_source_path("src/A.hs"));
    assert!(targets.insert_source_path("src/C.hs".to_owned(), TargetKind::Path));
    assert!(!targets.insert_source_path("src/C.hs".to_owned(), TargetKind::Path));
    assert_eq!(targets.len(), 3);

    let show = ShowPaths {
        cwd: "/w".to_owned(),
        search_paths: vec!["/w/src".to_owned()],
    };
    let info = targets.module_import_name(&show, "src/C.hs").unwrap();
    assert_eq!((info.name.as_str(), info.kind, info.loaded), ("src/C.hs", TargetKind::Path, true));
    let info = targets.module_import_name(&show, "src/D.hs").unwrap();
    assert_eq!((info.name.as_str(), info.kind, info.loaded), ("src/D.hs", TargetKind::Path, false));
    // A module that is not loaded is named by its path relative to the working directory.
    let info = targets.module_import_name(&show, "/w/src/D.hs").unwrap();
    assert_eq!((info.name.as_str(), info.kind, info.loaded), ("src/D.hs", TargetKind::Path, false));
    let mut modules = TargetSet::new();
    modules.insert_source_path("/w/src/My/Mod.hs".to_owned(), TargetKind::Module);
    let info = modules.module_import_name(&show, "/w/src/My/Mod.hs").unwrap();
    assert_eq!((info.name.as_str(), info.kind, info.loaded), ("My.Mod", TargetKind::Module, true));
}

#[test]
fn modules_from_resolved_targets() {
    let targets: Vec<String> = vec!["My.Mod".to_owned(), "src/A.hs".to_owned(), "Again".to_owned()];
    let found = vec![
        Ok("/w/src/My/Mod.hs".to_owned()),
        Ok("/w/src/A.hs".to_owned()),
        Ok("/w/src/A.hs".to_owned()),
    ];
    let set = modules_of_targets(&targets, &found).unwrap();
    assert_eq!(set.len(), 2);
    let named = set.get_module("/w/src/My/Mod.hs").unwrap();
    assert!(matches!(named.name(), LoadedModuleName::Name("My.Mod")));
    let by_path = set.get_module("/w/src/A.hs").unwrap();
    assert!(matches!(by_path.name(), LoadedModuleName::Path("/w/src/A.hs")));

    let missing = vec![Ok("/w/src/My/Mod.hs".to_owned()), Err(PathError::SourceNotFound), Ok("x.hs".to_owned())];
    assert_eq!(
        modules_of_targets(&targets, &missing).err(),
        Some(ShowTargetsError::SourceNotFound)
    );
    assert_eq!(modules_of_targets(&vec![], &vec![]).unwrap().len(), 0);
}

#[test]
fn adding_modules_refuses_loaded_ones() {
    let targets = loaded(&["src/A.hs", "src/B.hs"]);
    let added = modules_to_add(&targets, &strings(&["src/C.hs", "src/D.hs"])).unwrap();
    assert_eq!(added.len(), 2);
    assert_eq!(added[0].path(), "src/C.hs");
    assert!(matches!(added[1].name(), LoadedModuleName::Path("src/D.hs")));
    assert_eq!(
        modules_to_add(&targets, &strings(&["src/C.hs", "src/B.hs", "src/A.hs"])).err(),
        Some("src/B.hs".to_owned())
    );
    assert_eq!(modules_to_add(&targets, &vec![]).unwrap().len(), 0);
}

#[test]
fn show_targets_without_sources() {
    let show = ShowPaths {
        cwd: "/nonexistent-ghciwatch-dir".to_owned(),
        search_paths: vec![],
    };
    assert!(parse_show_targets(&show, "Missing.Module\n").is_err());
    assert_eq!(parse_show_targets(&show, "").unwrap().len(), 0);
}

#[test]
fn small_types() {
    assert_eq!(RustBacktrace::Off.to_string(), "0");
    assert_eq!(RustBacktrace::On.to_string(), "1");
    assert_eq!(RustBacktrace::Full.to_string(), "full");
    for b in RustBacktrace::value_variants() {
        assert_eq!(RustBacktrace::from_str(&b.to_string()), Some(b));
    }
    assert_eq!(RustBacktrace::from_str("FULL"), None);
    assert_eq!(RustBacktrace::from_str(""), None);

    let opts = WatchOpts::new();
    assert_eq!(opts.debounce_ms, 500);
    assert_eq!(opts.poll_ms, None);

    assert_eq!(GhciProcessState::default(), GhciProcessState::Running);

    let a = CanonicalizedUtf8PathBuf::new("./src".to_owned(), "/w/src".to_owned());
    let b = CanonicalizedUtf8PathBuf::new("src".to_owned(), "/w/src".to_owned());
    assert_eq!(a, b);
    assert_eq!(a.to_string(), "./src");
    assert_eq!(b.canon(), "/w/src");
    assert_eq!(b.original(), "src");
    assert_eq!(a.into_canon(), "/w/src");

    let command = GhciCommand::new(":reload".to_owned());
    assert_eq!(command.as_str(), ":reload");
    assert_eq!(command.into_string(), ":reload");
}

#[test]
fn session_commands() {
    assert_eq!(
        session_command(Some("Main.hs".to_owned()), None),
        ClonableCommand::new("ghci".to_owned()).arg("Main.hs".to_owned())
    );
    assert_eq!(
        session_command(None, None),
        ClonableCommand::new("cabal".to_owned()).arg("repl".to_owned())
    );
    let custom = ClonableCommand::from_str("stack ghci").unwrap();
    assert_eq!(session_command(None, Some(custom.clone())), custom);
}

#[test]
fn logging_ghci_output() {
    let mut log = CompilationLog::new();
    assert!(log
        .log_output(
            "[1 of 1] Compiling Main ( Main.hs, interpreted )\nOk, one module loaded.\n",
            "Main.hs:3:1: warning: [-Wmissing-signatures]\n    Top-level binding with no type signature\n",
        )
        .is_ok());
    assert_eq!(log.compiled_modules.len(), 1);
    assert_eq!(log.diagnostics.len(), 1);
    assert_eq!(log.diagnostics[0].severity, Severity::Warning);
    assert_eq!(log.result(), Some(CompilationResult::Succeeded));
}

#[test]
fn logging_unparseable_output() {
    let mut log = CompilationLog::new();
    assert!(log
        .log_output("[1 of 1] Compiling Main ( Main.o )\n", "")
        .is_err());
    assert!(log.compiled_modules.is_empty());

    let mut log = CompilationLog::new();
    assert!(log
        .log_output(
            "Ok, one module loaded.\n",
            "[1 of 1] Compiling Main ( Main.o )\n"
        )
        .is_err());
    assert_eq!(log.result(), Some(CompilationResult::Succeeded));
}

#[test]
fn waiting_to_restart() {
    let mut waiter = RestartWaiter::new();
    assert_eq!(waiter.step(RestartInput::Event { relevant: false }), RestartAction::KeepWaiting);
    assert_eq!(waiter.step(RestartInput::Restarted), RestartAction::KeepWaiting);
    assert_eq!(waiter.step(RestartInput::Event { relevant: true }), RestartAction::Restart);
    assert_eq!(waiter.phase(), RestartPhase::Restarting);
    assert_eq!(waiter.step(RestartInput::Exited), RestartAction::KeepWaiting);
    assert_eq!(waiter.phase(), RestartPhase::WaitingForChange);
    assert_eq!(waiter.step(RestartInput::Event { relevant: true }), RestartAction::Restart);
    assert_eq!(waiter.step(RestartInput::Restarted), RestartAction::Done);
    assert_eq!(waiter.phase(), RestartPhase::Finished);

    let mut waiter = RestartWaiter::new();
    assert_eq!(waiter.step(RestartInput::EventsClosed), RestartAction::Shutdown);
    let mut waiter = RestartWaiter::new();
    assert_eq!(waiter.step(RestartInput::Shutdown), RestartAction::Shutdown);
}

use ghciwatch::ghci::compilation_log::CompilationLog;
use ghciwatch::ghci::parse::ghc_message::position::PositionRange;
use ghciwatch::ghci::parse::ghc_message::severity::Severity;
use ghciwatch::ghci::parse::ghc_message::GhcDiagnostic;
use ghciwatch::ghci::parse::module_and_files::CompilingModule;
use ghciwatch::ghci::warning_tracker::WarningTracker;

fn create_test_diagnostic(severity: Severity, path: &str, message: &str) -> GhcDiagnostic {
    GhcDiagnostic {
        severity,
        path: Some(path.to_owned()),
        span: PositionRange::new(1, 1, 1, 1),
        message: message.to_string(),
    }
}

fn create_test_compilation_log(
    diagnostics: Vec<GhcDiagnostic>,
    compiled_modules: Vec<CompilingModule>,
) -> CompilationLog {
    CompilationLog {
        diagnostics,
        compiled_modules,
        summary: None,
    }
}

fn compiled(name: &str, path: &str) -> CompilingModule {
    CompilingModule {
        name: name.to_owned(),
        path: path.to_owned(),
    }
}

#[test]
fn test_new_tracker_is_empty() {
    let tracker = WarningTracker::new();
    assert!(!tracker.has_warnings());
    assert_eq!(tracker.warning_count(), 0);
    assert_eq!(tracker.file_count(), 0);
}

#[test]
fn test_mark_file_changed() {
    let mut tracker = WarningTracker::new();
    let path = "src/test.hs".to_owned();

    tracker.mark_file_changed(path.clone());
    assert!(tracker.is_changed(&path));

    tracker.reset_changed_files();
    assert!(!tracker.is_changed(&path));
}

#[test]
fn test_clear_warnings_for_paths() {
    let mut tracker = WarningTracker::new();
    let path1 = "src/test1.hs".to_owned();
    let path2 = "src/test2.hs".to_owned();

    let warnings = vec![create_test_diagnostic(
        Severity::Warning,
        "src/test1.hs",
        "unused import",
    )];

    tracker.set_warnings(path1.clone(), warnings.clone());
    tracker.set_warnings(path2.clone(), warnings);
    assert_eq!(tracker.file_count(), 2);

    tracker.clear_warnings_for_paths(&vec![path1.clone()]);
    assert_eq!(tracker.file_count(), 1);
    assert!(!tracker.get_all_warnings().iter().any(|(p, _)| *p == path1));
    assert!(tracker.get_all_warnings().iter().any(|(p, _)| *p == path2));
}

#[test]
fn test_update_warnings_from_log_direct_change() {
    let mut tracker = WarningTracker::new();
    let path = "src/test.hs".to_owned();

    // Add initial warnings
    let old_warning = create_test_diagnostic(Severity::Warning, "src/test.hs", "old warning");
    tracker.set_warnings(path.clone(), vec![old_warning]);

    // Mark file as changed
    tracker.mark_file_changed(path.clone());

    // Create compilation log with no warnings for the changed file
    let log = create_test_compilation_log(vec![], vec![compiled("Test", "src/test.hs")]);

    tracker.update_warnings_from_log(&log);

    // Warnings should be cleared since file was directly changed and has no new warnings
    assert!(!tracker.has_warnings());
}

#[test]
fn test_update_warnings_from_log_dependency_change() {
    let mut tracker = WarningTracker::new();
    let path = "src/test.hs".to_owned();

    // Add initial warnings
    let old_warning = create_test_diagnostic(Severity::Warning, "src/test.hs", "old warning");
    tracker.set_warnings(path.clone(), vec![old_warning.clone()]);

    // Don't mark file as changed (dependency-driven recompilation)

    // Create compilation log with no warnings for the file
    let log = create_test_compilation_log(vec![], vec![compiled("Test", "src/test.hs")]);

    tracker.update_warnings_from_log(&log);

    // Warnings should be kept since file was recompiled due to dependencies
    assert!(tracker.has_warnings());
    assert_eq!(tracker.warning_count(), 1);
}

#[test]
fn test_edge_case_empty_file_path() {
    let mut tracker = WarningTracker::new();

    let diagnostic_no_path = GhcDiagnostic {
        severity: Severity::Warning,
        path: None,
        span: PositionRange::new(1, 1, 1, 1),
        message: "warning without path".to_string(),
    };

    let log = create_test_compilation_log(vec![diagnostic_no_path], vec![]);

    tracker.update_warnings_from_log(&log);

    // Should handle diagnostics without paths gracefully
    assert!(!tracker.has_warnings());
}

#[test]
fn test_edge_case_large_number_of_warnings() {
    let mut tracker = WarningTracker::new();

    // Create 1000 warnings across 100 files
    for i in 0..100 {
        let path = format!("src/test{}.hs", i);
        let mut warnings = Vec::new();
        for j in 0..10 {
            warnings.push(create_test_diagnostic(
                Severity::Warning,
                &format!("src/test{}.hs", i),
                &format!("warning {} in file {}", j, i),
            ));
        }
        tracker.set_warnings(path, warnings);
    }

    assert_eq!(tracker.warning_count(), 1000);
    assert_eq!(tracker.file_count(), 100);
}

#[test]
fn test_edge_case_special_characters_in_paths() {
    let mut tracker = WarningTracker::new();

    let special_paths = vec![
        "src/test with spaces.hs",
        "src/test-with-dashes.hs",
        "src/test_with_underscores.hs",
        "src/test.with.dots.hs",
    ];

    for path_str in special_paths {
        let warning = create_test_diagnostic(Severity::Warning, path_str, "test warning");
        tracker.set_warnings(path_str.to_owned(), vec![warning]);
    }

    assert!(tracker.has_warnings());
    assert_eq!(tracker.file_count(), 4);
}

#[test]
fn new_warnings_replace_old_ones() {
    let mut tracker = WarningTracker::new();
    tracker.set_warnings(
        "src/A.hs".to_owned(),
        vec![create_test_diagnostic(Severity::Warning, "src/A.hs", "old")],
    );
    tracker.set_warnings(
        "src/B.hs".to_owned(),
        vec![create_test_diagnostic(Severity::Warning, "src/B.hs", "kept")],
    );
    let log = create_test_compilation_log(
        vec![
            create_test_diagnostic(Severity::Warning, "src/A.hs", "new 1"),
            create_test_diagnostic(Severity::Warning, "src/C.hs", "not compiled"),
            create_test_diagnostic(Severity::Warning, "src/A.hs", "new 2"),
        ],
        vec![compiled("A", "src/A.hs")],
    );
    tracker.update_warnings_from_log(&log);
    let all = tracker.get_all_warnings();
    assert_eq!(all.len(), 2);
    assert_eq!(all[0].0, "src/A.hs");
    assert_eq!(
        all[0].1.iter().map(|d| d.message.as_str()).collect::<Vec<_>>(),
        vec!["new 1", "new 2"]
    );
    assert_eq!(all[1].1[0].message, "kept");
    assert_eq!(tracker.warning_count(), 3);
}

#[test]
fn clearing_leaves_other_files_alone() {
    let mut tracker = WarningTracker::new();
    for path in ["a.hs", "b.hs", "c.hs"] {
        tracker.set_warnings(
            path.to_owned(),
            vec![create_test_diagnostic(Severity::Warning, path, "w")],
        );
    }
    tracker.clear_warnings_for_paths(&vec!["a.hs".to_owned(), "c.hs".to_owned(), "zzz.hs".to_owned()]);
    let all = tracker.get_all_warnings();
    assert_eq!(all.len(), 1);
    assert_eq!(all[0].0, "b.hs");
}

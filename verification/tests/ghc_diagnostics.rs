use ghciwatch::ghci::parse::ghc_message::cant_find_file_diagnostic::cant_find_file_diagnostic;
use ghciwatch::ghci::parse::ghc_message::generic_diagnostic::generic_diagnostic;
use ghciwatch::ghci::parse::ghc_message::module_import_cycle_diagnostic::module_import_cycle_diagnostic;
use ghciwatch::ghci::parse::ghc_message::no_location_info_diagnostic::no_location_info_diagnostic;
use ghciwatch::ghci::parse::ghc_message::position::PositionRange;
use ghciwatch::ghci::parse::ghc_message::severity::Severity;
use ghciwatch::ghci::parse::ghc_message::compilation_summary::{
    CompilationResult, CompilationSummary, ModulesLoaded,
};
use ghciwatch::ghci::parse::ghc_message::{parse_ghc_messages, GhcDiagnostic, GhcMessage};
use ghciwatch::ghci::parse::module_and_files::CompilingModule;

fn error_at(path: Option<&str>, span: PositionRange, message: &str) -> GhcDiagnostic {
    GhcDiagnostic {
        severity: Severity::Error,
        path: path.map(|p| p.to_owned()),
        span,
        message: message.to_owned(),
    }
}

#[test]
fn test_parse_diagnostic_message() {
    assert_eq!(
        generic_diagnostic("NotStockDeriveable.hs:6:12: error: [GHC-00158]\n    • Can't make a derived instance of ‘MyClass MyType’:\n        ‘MyClass’ is not a stock derivable class (Eq, Show, etc.)\n    • In the data declaration for ‘MyType’\n    Suggested fix: Perhaps you intended to use DeriveAnyClass\n  |\n6 |   deriving MyClass\n  |            ^^^^^^^\n").unwrap(),
        GhcMessage::Diagnostic(error_at(
            Some("NotStockDeriveable.hs"),
            PositionRange::new(6, 12, 6, 12),
            "[GHC-00158]\n    • Can't make a derived instance of ‘MyClass MyType’:\n        ‘MyClass’ is not a stock derivable class (Eq, Show, etc.)\n    • In the data declaration for ‘MyType’\n    Suggested fix: Perhaps you intended to use DeriveAnyClass\n  |\n6 |   deriving MyClass\n  |            ^^^^^^^\n",
        ))
    );

    // Doesn't parse another error message.
    assert!(generic_diagnostic("NotStockDeriveable.hs:6:12: error: [GHC-00158]\n    • Can't make a derived instance of ‘MyClass MyType’:\n        ‘MyClass’ is not a stock derivable class (Eq, Show, etc.)\n    • In the data declaration for ‘MyType’\n    Suggested fix: Perhaps you intended to use DeriveAnyClass\n  |\n6 |   deriving MyClass\n  |            ^^^^^^^\n\nError: Uh oh!\n").is_err());
}

#[test]
fn test_diagnostic_display() {
    let message = [
        "",
        "    • Couldn't match type ‘[Char]’ with ‘()’",
        "      Expected: ()",
        "        Actual: String",
        "    • In the expression: \"example\"",
        "      In an equation for ‘example’: example = \"example\"",
        "  |",
        "4 | example = \"example\"",
        "  |           ^^^^^^^^^",
        "",
    ]
    .join("\n");
    assert_eq!(
        error_at(
            Some("src/MyModule.hs"),
            PositionRange::new(4, 11, 4, 11),
            &message
        )
        .to_string(),
        "src/MyModule.hs:4:11: error:\n    • Couldn't match type ‘[Char]’ with ‘()’\n      Expected: ()\n        Actual: String\n    • In the expression: \"example\"\n      In an equation for ‘example’: example = \"example\"\n  |\n4 | example = \"example\"\n  |           ^^^^^^^^^\n"
    );
}

#[test]
fn diagnostic_display_without_location() {
    assert_eq!(
        error_at(None, PositionRange::zero(), "oops").to_string(),
        "<no location info>: error: oops"
    );
    assert_eq!(
        GhcDiagnostic {
            severity: Severity::Warning,
            path: Some("A.hs".to_owned()),
            span: PositionRange::new(1, 2, 3, 4),
            message: "hm".to_owned(),
        }
        .to_string(),
        "A.hs:(1,2)-(3,4): warning: hm"
    );
}

#[test]
fn test_parse_cant_find_file_message() {
    assert_eq!(
        cant_find_file_diagnostic("<no location info>: error: can't find file: Why.hs\n").unwrap(),
        error_at(Some("Why.hs"), PositionRange::zero(), "can't find file")
    );

    // Doesn't parse another error message.
    assert!(cant_find_file_diagnostic(
        "<no location info>: error: can't find file: Why.hs\nError: Uh oh!\n"
    )
    .is_err());
}

#[test]
fn test_cant_find_file_display() {
    assert_eq!(
        cant_find_file_diagnostic("<no location info>: error: can't find file: Why.hs\n")
            .unwrap()
            .to_string(),
        "Why.hs: error: can't find file"
    );
}

#[test]
fn test_parse_no_location_info_message() {
    let message = "<no location info>: error:\n    Could not find module ‘Example’\n    It is not a module in the current program, or in any known package.\n";
    assert_eq!(
        no_location_info_diagnostic(message).unwrap(),
        GhcMessage::Diagnostic(error_at(
            None,
            PositionRange::zero(),
            "\n    Could not find module ‘Example’\n    It is not a module in the current program, or in any known package.\n"
        ))
    );

    assert_eq!(
        no_location_info_diagnostic("<no location info>: error: [GHC-29235]\n    module 'dwb-0-inplace-test-dev:Foo' is defined in multiple files: src/Foo.hs\n                                                                      src/Foo.hs\n").unwrap(),
        GhcMessage::Diagnostic(error_at(
            None,
            PositionRange::zero(),
            "[GHC-29235]\n    module 'dwb-0-inplace-test-dev:Foo' is defined in multiple files: src/Foo.hs\n                                                                      src/Foo.hs\n"
        ))
    );

    // Shouldn't parse another error.
    assert!(no_location_info_diagnostic("<no location info>: error: [GHC-29235]\n    module 'dwb-0-inplace-test-dev:Foo' is defined in multiple files: src/Foo.hs\n                                                                      src/Foo.hs\nError: Uh oh!\n").is_err());
}

#[test]
fn no_location_info_diagnostic_display() {
    let message = "<no location info>: error:\n    Could not find module ‘Example’\n    It is not a module in the current program, or in any known package.\n";
    assert_eq!(
        no_location_info_diagnostic(message)
            .unwrap()
            .into_diagnostic()
            .unwrap()
            .to_string(),
        message
    );
}

fn cycle_errors(message: &str) -> Vec<GhcMessage> {
    vec![
        GhcMessage::Diagnostic(error_at(Some("./C.hs"), PositionRange::zero(), message)),
        GhcMessage::Diagnostic(error_at(Some("A.hs"), PositionRange::zero(), message)),
        GhcMessage::Diagnostic(error_at(Some("./B.hs"), PositionRange::zero(), message)),
    ]
}

#[test]
fn test_parse_module_import_cycle_message() {
    let message = "Module graph contains a cycle:\n        module ‘C’ (./C.hs)\n        imports module ‘A’ (A.hs)\n  which imports module ‘B’ (./B.hs)\n  which imports module ‘C’ (./C.hs)\n";

    assert_eq!(
        module_import_cycle_diagnostic(message).unwrap(),
        cycle_errors(message)
    );

    let message = message.replace(
        "Module graph contains a cycle:",
        "Module imports form a cycle:",
    );

    assert_eq!(
        module_import_cycle_diagnostic(&message).unwrap(),
        cycle_errors(&message)
    );

    let message = "Module graph contains a cycle:\n  module ‘A’ (A.hs) imports itself\n";
    assert_eq!(
        module_import_cycle_diagnostic(message).unwrap(),
        vec![GhcMessage::Diagnostic(error_at(
            Some("A.hs"),
            PositionRange::zero(),
            message
        ))]
    );

    // Shouldn't parse anything after the message
    assert!(module_import_cycle_diagnostic(
        "Module graph contains a cycle:\n  module ‘A’ (A.hs) imports itself\nError: Uh oh!\n"
    )
    .is_err());
}

#[test]
fn test_import_cycle_diagnostic_display() {
    let message = "Module graph contains a cycle:\n        module ‘C’ (./C.hs)\n        imports module ‘A’ (A.hs)\n  which imports module ‘B’ (./B.hs)\n  which imports module ‘C’ (./C.hs)\n";

    assert_eq!(
        module_import_cycle_diagnostic(message)
            .unwrap()
            .into_iter()
            .map(|message| message.into_diagnostic().unwrap().to_string())
            .collect::<Vec<_>>(),
        vec![
            format!("./C.hs: error: {message}"),
            format!("A.hs: error: {message}"),
            format!("./B.hs: error: {message}"),
        ]
    );
}

#[test]
fn test_parse_messages() {
    assert_eq!(
        parse_ghc_messages("Warning: The package list for 'hackage.haskell.org' is 29 days old.\nRun 'cabal update' to get the latest list of available packages.\nResolving dependencies...\nBuild profile: -w ghc-9.0.2 -O1\nIn order, the following will be built (use -v for more details):\n - my-simple-package-0.1.0.0 (lib:test-dev) (first run)\nConfiguring library 'test-dev' for my-simple-package-0.1.0.0..\nPreprocessing library 'test-dev' for my-simple-package-0.1.0.0..\nGHCi, version 9.0.2: https://www.haskell.org/ghc/  :? for help\nLoaded GHCi configuration from /Users/wiggles/.ghci\n[1 of 4] Compiling MyLib            ( src/MyLib.hs, interpreted )\n[2 of 4] Compiling MyModule         ( src/MyModule.hs, interpreted )\n\nsrc/MyModule.hs:4:11: error:\n    • Couldn't match type ‘[Char]’ with ‘()’\n      Expected: ()\n        Actual: String\n    • In the expression: \"example\"\n      In an equation for ‘example’: example = \"example\"\n  |\n4 | example = \"example\"\n  |           ^^^^^^^^^\nFailed, one module loaded.\n")
        .unwrap(),
        vec![
            GhcMessage::LoadConfig {
                path: "/Users/wiggles/.ghci".to_owned()
            },
            GhcMessage::Compiling(CompilingModule {
                name: "MyLib".to_owned(),
                path: "src/MyLib.hs".to_owned(),
            }),
            GhcMessage::Compiling(CompilingModule {
                name: "MyModule".to_owned(),
                path: "src/MyModule.hs".to_owned(),
            }),
            GhcMessage::Diagnostic(error_at(
                Some("src/MyModule.hs"),
                PositionRange::new(4, 11, 4, 11),
                &[
                    "",
                    "    • Couldn't match type ‘[Char]’ with ‘()’",
                    "      Expected: ()",
                    "        Actual: String",
                    "    • In the expression: \"example\"",
                    "      In an equation for ‘example’: example = \"example\"",
                    "  |",
                    "4 | example = \"example\"",
                    "  |           ^^^^^^^^^",
                    "",
                ]
                .join("\n")
            )),
            GhcMessage::Summary(CompilationSummary {
                result: CompilationResult::Failed,
                modules_loaded: ModulesLoaded::Count(1),
            }),
        ]
    );
}

#[test]
fn parse_messages_strips_colors() {
    assert_eq!(
        parse_ghc_messages("\x1b[1mLoaded GHCi configuration from .ghci\x1b[0m\nOk, no modules loaded.\n")
            .unwrap(),
        vec![
            GhcMessage::LoadConfig {
                path: ".ghci".to_owned()
            },
            GhcMessage::Summary(CompilationSummary {
                result: CompilationResult::Succeeded,
                modules_loaded: ModulesLoaded::Count(0),
            }),
        ]
    );
}

#[test]
fn parse_messages_ignores_other_lines() {
    assert_eq!(parse_ghc_messages("hello\nworld\n").unwrap(), vec![]);
    assert_eq!(parse_ghc_messages("").unwrap(), vec![]);
}

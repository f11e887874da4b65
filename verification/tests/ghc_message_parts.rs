use ghciwatch::ghci::parse::ghc_message::compilation_summary::{
    compilation_summary, CompilationResult, CompilationSummary, ModulesLoaded,
};
use ghciwatch::ghci::parse::ghc_message::compiling::{compiling, CompilingProgress};
use ghciwatch::ghci::parse::ghc_message::exception::exception;
use ghciwatch::ghci::parse::ghc_message::position::{
    parse_position_range, parse_unhelpful_position, PositionRange,
};
use ghciwatch::ghci::parse::ghc_message::GhcMessage;
use ghciwatch::ghci::parse::module_and_files::CompilingModule;

fn summary(result: CompilationResult, modules_loaded: ModulesLoaded) -> CompilationSummary {
    CompilationSummary {
        result,
        modules_loaded,
    }
}

#[test]
fn test_parse_compilation_summary_message() {
    assert_eq!(
        compilation_summary("Ok, 123 modules loaded.\n").unwrap(),
        summary(CompilationResult::Succeeded, ModulesLoaded::Count(123))
    );
    assert_eq!(
        compilation_summary("Ok, no modules loaded.\n").unwrap(),
        summary(CompilationResult::Succeeded, ModulesLoaded::Count(0))
    );
    assert_eq!(
        compilation_summary("Ok, one module loaded.\n").unwrap(),
        summary(CompilationResult::Succeeded, ModulesLoaded::Count(1))
    );
    assert_eq!(
        compilation_summary("Ok, six modules loaded.\n").unwrap(),
        summary(CompilationResult::Succeeded, ModulesLoaded::Count(6))
    );
    assert_eq!(
        compilation_summary("Failed, 7 modules loaded.\n").unwrap(),
        summary(CompilationResult::Failed, ModulesLoaded::Count(7))
    );
    assert_eq!(
        compilation_summary("Failed, one module loaded.\n").unwrap(),
        summary(CompilationResult::Failed, ModulesLoaded::Count(1))
    );

    // Other verbs.
    assert_eq!(
        compilation_summary("Ok, 10 modules reloaded.\n").unwrap(),
        summary(CompilationResult::Succeeded, ModulesLoaded::Count(10))
    );
    assert_eq!(
        compilation_summary("Ok, 10 modules added.\n").unwrap(),
        summary(CompilationResult::Succeeded, ModulesLoaded::Count(10))
    );
    assert_eq!(
        compilation_summary("Ok, 10 modules unadded.\n").unwrap(),
        summary(CompilationResult::Succeeded, ModulesLoaded::Count(10))
    );
    assert_eq!(
        compilation_summary("Ok, 10 modules checked.\n").unwrap(),
        summary(CompilationResult::Succeeded, ModulesLoaded::Count(10))
    );

    // Special cases!
    assert_eq!(
        compilation_summary("Ok, no modules to be reloaded.\n").unwrap(),
        summary(CompilationResult::Succeeded, ModulesLoaded::Count(0))
    );
    assert_eq!(
        compilation_summary("Ok, unloaded all modules.\n").unwrap(),
        summary(CompilationResult::Succeeded, ModulesLoaded::All)
    );

    // Negative cases
    // Whitespace.
    assert!(compilation_summary("Ok, 10 modules loaded.\n ").is_err());
    assert!(compilation_summary(" Ok, 10 modules loaded.\n").is_err());
    assert!(compilation_summary("Ok, 10 modules loaded.\n\n").is_err());
    // Two messages
    assert!(compilation_summary("Ok, 10 modules loaded.\nOk, 10 modules loaded.\n").is_err());
    assert!(compilation_summary("Weird, no modules loaded.\n").is_err());
    // Bad numbers
    assert!(compilation_summary("Ok, seven modules loaded.\n").is_err());
    assert!(compilation_summary("Ok, -3 modules loaded.\n").is_err());
    assert!(compilation_summary("Ok, eight hundred modules loaded.\n").is_err());
}

#[test]
fn compilation_summary_display() {
    assert_eq!(ModulesLoaded::Count(0).to_string(), "0");
    assert_eq!(ModulesLoaded::Count(1).to_string(), "1");
    assert_eq!(ModulesLoaded::Count(12).to_string(), "12");
    assert_eq!(ModulesLoaded::All.to_string(), "all");
}

fn module(name: &str, path: &str) -> CompilingModule {
    CompilingModule {
        name: name.to_owned(),
        path: path.to_owned(),
    }
}

#[test]
fn test_parse_compiling_message() {
    assert_eq!(
        compiling("[1 of 3] Compiling Foo ( Foo.hs, Foo.o, interpreted )\n").unwrap(),
        CompilingProgress {
            module: module("Foo", "Foo.hs"),
            current: 1,
            total: 3,
            reason: None,
        }
    );

    assert_eq!(
        compiling(
            "[   1 of 6508] \
                    Compiling A.DoggyPrelude.Puppy \
                    ( src/A/DoggyPrelude/Puppy.hs, \
                      /Users/wiggles/doggy-web-backend6/dist-newstyle/build/aarch64-osx/ghc-9.6.2/doggy-web-backend-0/l/test-dev/noopt/build/test-dev/A/DoggyPrelude/Puppy.dyn_o \
                      ) [Doggy.Lint package changed]\n"
        )
        .unwrap(),
        CompilingProgress {
            module: module("A.DoggyPrelude.Puppy", "src/A/DoggyPrelude/Puppy.hs"),
            current: 1,
            total: 6508,
            reason: Some("[Doggy.Lint package changed]".to_owned()),
        }
    );

    assert_eq!(
        compiling("[1 of 4] Compiling MyLib            ( src/MyLib.hs )\n").unwrap(),
        CompilingProgress {
            module: module("MyLib", "src/MyLib.hs"),
            current: 1,
            total: 4,
            reason: None,
        }
    );

    // Single module
    assert_eq!(
        compiling("[1 of 1] Compiling Main ( Main.hs, interpreted )\n").unwrap(),
        CompilingProgress {
            module: module("Main", "Main.hs"),
            current: 1,
            total: 1,
            reason: None,
        }
    );

    // Shouldn't parse multiple lines.
    assert!(compiling(
        "[1 of 4] Compiling MyLib            ( src/MyLib.hs )\n\
         [1 of 4] Compiling MyLib            ( src/MyLib.hs, interpreted )\n"
    )
    .is_err());
    assert!(compiling(
        "[1 of 4] Compiling MyLib            ( src/MyLib.hs )\n\
         [1 of 4] Compiling MyLib            ( src/MyLib.hs )\n"
    )
    .is_err());
}

#[test]
fn test_parse_exception() {
    assert_eq!(
        exception("*** Exception: Uh oh!\n").unwrap(),
        GhcMessage::Exception("Uh oh!".to_owned())
    );

    assert_eq!(
        exception("*** Exception: /Users/.../dist-newstyle/ghc82733_tmp_1/ghc_tmp_34657.h: withFile: does not exist (No such file or directory)\n").unwrap(),
        GhcMessage::Exception("/Users/.../dist-newstyle/ghc82733_tmp_1/ghc_tmp_34657.h: withFile: does not exist (No such file or directory)".to_owned())
    );

    // Doesn't parse subsequent lines (even if they're relevant, unfortunately).
    assert_eq!(
        exception(
            "*** Exception: puppy doggy\n\
             CallStack (from HasCallStack):\n  \
             error, called at <interactive>:3:1 in interactive:Ghci1\n"
        )
        .unwrap(),
        GhcMessage::Exception("puppy doggy".to_owned())
    );
}

#[test]
fn test_parse_position_range() {
    // Zero-length.
    assert_eq!(
        parse_position_range("1:2:").unwrap(),
        PositionRange::new(1, 2, 1, 2)
    );
    assert_eq!(
        parse_position_range("4258:12859:").unwrap(),
        PositionRange::new(4258, 12859, 4258, 12859)
    );

    // Single-line.
    assert_eq!(
        parse_position_range("1:2-3:").unwrap(),
        PositionRange::new(1, 2, 1, 3)
    );
    assert_eq!(
        parse_position_range("621:284-312:").unwrap(),
        PositionRange::new(621, 284, 621, 312)
    );

    // Multi-line.
    assert_eq!(
        parse_position_range("(1,2)-(3,4):").unwrap(),
        PositionRange::new(1, 2, 3, 4)
    );
    assert_eq!(
        parse_position_range("(04,30)-(19,98):").unwrap(),
        PositionRange::new(4, 30, 19, 98)
    );
    assert_eq!(
        parse_position_range("(571,643)-(5466,123):").unwrap(),
        PositionRange::new(571, 643, 5466, 123)
    );

    // Negative cases.
    // Whitespace:
    assert!(parse_position_range(" 1:2:").is_err());
    assert!(parse_position_range("1:2: ").is_err());
    assert!(parse_position_range("1 :2:").is_err());
    assert!(parse_position_range("1: 2:").is_err());
    assert!(parse_position_range("1:2 :").is_err());
    assert!(parse_position_range("1:2 -3:").is_err());
    assert!(parse_position_range("(1, 2)-(3, 4):").is_err());
    assert!(parse_position_range("(1,2) - (3,4):").is_err());
    assert!(parse_position_range(" (1,2)-(3,4):").is_err());

    // Missing parens:
    assert!(parse_position_range("1,2-3,4:").is_err());
    // Extra parens:
    assert!(parse_position_range("(1:2):").is_err());
}

#[test]
fn position_range_display() {
    assert_eq!(PositionRange::new(1, 2, 1, 2).to_string(), "1:2");
    assert_eq!(PositionRange::new(1, 2, 1, 5).to_string(), "1:2-5");
    assert_eq!(PositionRange::new(1, 2, 3, 4).to_string(), "(1,2)-(3,4)");
    assert!(PositionRange::zero().is_zero());
    assert!(!PositionRange::new(1, 1, 1, 1).is_zero());
}

#[test]
fn unhelpful_positions() {
    assert_eq!(
        parse_unhelpful_position("<no location info>:").unwrap(),
        "<no location info>:"
    );
    assert_eq!(
        parse_unhelpful_position("<compiler-generated code>:").unwrap(),
        "<compiler-generated code>:"
    );
    assert_eq!(
        parse_unhelpful_position("<interactive>:").unwrap(),
        "<interactive>:"
    );
    assert!(parse_unhelpful_position("<somewhere>:").is_err());
}

#[test]
fn position_range_round_trip() {
    for range in [
        PositionRange::new(1, 2, 1, 2),
        PositionRange::new(0, 0, 0, 0),
        PositionRange::new(12, 3, 12, 40),
        PositionRange::new(4, 30, 19, 98),
        PositionRange::new(7, 9, 3, 1),
    ] {
        let text = format!("{}:", range.to_string());
        assert_eq!(parse_position_range(&text).unwrap(), range);
    }
}

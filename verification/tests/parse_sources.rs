use ghciwatch::ghci::ghci_command::GhciCommand;
use ghciwatch::ghci::parse::eval::{
    line_eval_command, multiline_eval_command, parse_eval_commands, ByteSpanCommand, EvalCommand,
};
use ghciwatch::ghci::parse::haskell_source_file::haskell_source_file;
use ghciwatch::ghci::parse::module_and_files::{module_and_files, Module};
use ghciwatch::ghci::parse::show_paths::{
    first_existing, parse_show_paths, show_paths, PathError, ShowPaths,
};

fn source_file(input: &str, end: &str) -> Result<(String, String), ()> {
    haskell_source_file(input, end).map_err(|_| ())
}

fn pair(a: &str, b: &str) -> (String, String) {
    (a.to_owned(), b.to_owned())
}

#[test]
fn test_parse_haskell_source_file() {
    // No end delimiter.
    assert!(source_file("src/Puppy.hs", " ").is_err());

    // No source file.
    assert!(source_file(" ", " ").is_err());

    // Simple source file.
    assert_eq!(source_file("src/Puppy.hs ", " ").unwrap(), pair("src/Puppy.hs", " "));

    // Weirder path, non-standard extension.
    assert_eq!(
        source_file("src/../Puppy/Doggy.lhs ", " ").unwrap(),
        pair("src/../Puppy/Doggy.lhs", " ")
    );

    // Multiple extensions!
    assert_eq!(
        source_file("src/Puppy.hs.lhs ", " ").unwrap(),
        pair("src/Puppy.hs.lhs", " ")
    );

    // More filename after extension.
    assert_eq!(
        source_file("src/Puppy.hs.Doggy.lhs ", " ").unwrap(),
        pair("src/Puppy.hs.Doggy.lhs", " ")
    );

    // More filename after extension, no dot after extension.
    assert_eq!(
        source_file("src/Puppy.hsDoggy.lhs ", " ").unwrap(),
        pair("src/Puppy.hsDoggy.lhs", " ")
    );

    // Space in middle.
    assert_eq!(source_file("src/Pu ppy.hs ", " ").unwrap(), pair("src/Pu ppy.hs", " "));

    // Space and extension in middle.
    assert_eq!(
        source_file("src/Puppy.hsD oggy.hs ", " ").unwrap(),
        pair("src/Puppy.hsD oggy.hs", " ")
    );

    // Paths may contain newlines.
    assert_eq!(source_file("src/\nPuppy.hs ", " ").unwrap(), pair("src/\nPuppy.hs", " "));

    assert_eq!(source_file("src/Puppy.hs.hs", ".hs").unwrap(), pair("src/Puppy.hs", ".hs"));

    assert_eq!(source_file("src/Puppy.hs.", ".").unwrap(), pair("src/Puppy.hs", "."));
}

fn module(name: &str, path: &str) -> Module {
    Module {
        name: name.to_owned(),
        path: path.to_owned(),
    }
}

#[test]
fn module_and_files_test_parse_module() {
    assert_eq!(
        Module::from_str("A.MercuryPrelude ( src/A/MercuryPrelude.hs, /Users/wiggles/mwb4/dist-newstyle/build/aarch64-osx/ghc-9.6.1/mwb-0/l/test-dev/noopt/build/test-dev/A/MercuryPrelude.dyn_o )").unwrap(),
        module("A.MercuryPrelude", "src/A/MercuryPrelude.hs")
    );
}

#[test]
fn test_parse_module_and_files() {
    assert_eq!(
        module_and_files("Foo ( Foo.hs, Foo.o, interpreted )").unwrap(),
        module("Foo", "Foo.hs")
    );

    assert_eq!(
        module_and_files(
            "A.DoggyPrelude.Puppy \
                    ( src/A/DoggyPrelude/Puppy.hs, \
                      /Users/wiggles/doggy-web-backend6/dist-newstyle/build/aarch64-osx/ghc-9.6.2/doggy-web-backend-0/l/test-dev/noopt/build/test-dev/A/DoggyPrelude/Puppy.dyn_o \
                      )"
        )
        .unwrap(),
        module("A.DoggyPrelude.Puppy", "src/A/DoggyPrelude/Puppy.hs")
    );

    assert_eq!(
        module_and_files("MyLib            ( src/MyLib.hs )").unwrap(),
        module("MyLib", "src/MyLib.hs")
    );

    // Shouldn't parse multiple lines.
    assert!(module_and_files(
        "MyLib            ( src/MyLib.hs )\n[1 of 4] Compiling MyLib            ( src/MyLib.hs, interpreted )\n"
    )
    .is_err());
    assert!(module_and_files(
        "MyLib            ( src/MyLib.hs )\n[1 of 4] Compiling MyLib            ( src/MyLib.hs )\n"
    )
    .is_err());
}

fn paths(cwd: &str, search_paths: &[&str]) -> ShowPaths {
    ShowPaths {
        cwd: cwd.to_owned(),
        search_paths: search_paths.iter().map(|p| p.to_string()).collect(),
    }
}

#[test]
fn test_parse_show_paths() {
    assert_eq!(
        show_paths("current working directory:\n  /Users/wiggles/ghciwatch/ghciwatch/tests/data/simple\nmodule import search paths:\n  /Users/wiggles/ghciwatch/ghciwatch/tests/data/simple/dist-newstyle/build/aarch64-osx/ghc-9.0.2/my-simple-package-0.1.0.0/l/test-dev/build/test-dev\n  test\n  src\n  /Users/wiggles/ghciwatch/ghciwatch/tests/data/simple/dist-newstyle/build/aarch64-osx/ghc-9.0.2/my-simple-package-0.1.0.0/l/test-dev/build/test-dev/autogen\n  /Users/wiggles/ghciwatch/ghciwatch/tests/data/simple/dist-newstyle/build/aarch64-osx/ghc-9.0.2/my-simple-package-0.1.0.0/l/test-dev/build/global-autogen\n").unwrap(),
        paths(
            "/Users/wiggles/ghciwatch/ghciwatch/tests/data/simple",
            &[
                "/Users/wiggles/ghciwatch/ghciwatch/tests/data/simple/dist-newstyle/build/aarch64-osx/ghc-9.0.2/my-simple-package-0.1.0.0/l/test-dev/build/test-dev",
                "/Users/wiggles/ghciwatch/ghciwatch/tests/data/simple/test",
                "/Users/wiggles/ghciwatch/ghciwatch/tests/data/simple/src",
                "/Users/wiggles/ghciwatch/ghciwatch/tests/data/simple/dist-newstyle/build/aarch64-osx/ghc-9.0.2/my-simple-package-0.1.0.0/l/test-dev/build/test-dev/autogen",
                "/Users/wiggles/ghciwatch/ghciwatch/tests/data/simple/dist-newstyle/build/aarch64-osx/ghc-9.0.2/my-simple-package-0.1.0.0/l/test-dev/build/global-autogen",
            ]
        )
    );

    assert_eq!(
        show_paths("current working directory:\n  /Users/wiggles/ghciwatch/ghciwatch/tests/data/simple\nmodule import search paths: none\n").unwrap(),
        paths("/Users/wiggles/ghciwatch/ghciwatch/tests/data/simple", &[])
    );

    // Negative cases.
    // Path after "none"
    assert!(show_paths("current working directory:\n  /Users/wiggles/ghciwatch/ghciwatch/tests/data/simple\nmodule import search paths: none\n  /Foo/bar\n").is_err());

    // No leading whitespace.
    assert!(show_paths("current working directory:\n  /Users/wiggles/ghciwatch/ghciwatch/tests/data/simple\nmodule import search paths:\n  /Foo/bar\n/Foo/bar\n").is_err());
}

#[test]
fn parse_show_paths_drops_repeated_search_paths() {
    assert_eq!(
        parse_show_paths("current working directory:\n  /w\nmodule import search paths:\n  src\n  /w/src\n  test\n").unwrap(),
        paths("/w", &["/w/src", "/w/test"])
    );
}

#[test]
fn test_path_to_module() {
    let paths = paths("/Users/wiggles/ghciwatch/", &[]);

    assert_eq!(
        paths
            .path_to_module("/Users/wiggles/ghciwatch/Foo/Bar/Baz.hs")
            .unwrap(),
        "Foo.Bar.Baz"
    );
}

#[test]
fn path_to_module_prefers_search_paths() {
    let show = paths("/w", &["/w/src"]);
    assert_eq!(show.path_to_module("/w/src/My/Lib.hs").unwrap(), "My.Lib");
    assert_eq!(show.path_to_module("/w/app/Main.lhs").unwrap(), "app.Main");
    assert_eq!(
        paths("/w", &[]).path_to_module("/elsewhere/Main.hs"),
        Err(PathError::NotUnderSearchPath)
    );
}

fn byte_span(command: &str, display: &str, start: usize, end: usize) -> ByteSpanCommand {
    ByteSpanCommand {
        command: GhciCommand(command.to_owned()),
        display_command: display.to_owned(),
        span_start: start,
        span_end: end,
    }
}

#[test]
fn test_line_eval_command() {
    assert_eq!(
        line_eval_command("-- $> foo\n").unwrap(),
        byte_span("foo", "foo", 6, 10)
    );

    // Leading whitespace.
    assert_eq!(
        line_eval_command("   -- $> foo\n").unwrap(),
        byte_span("foo", "foo", 9, 13)
    );

    // Negative cases.
    // Extra newline at end.
    assert!(line_eval_command("-- $> foo\n\n").is_err());
    // Multiple commands.
    assert!(line_eval_command("-- $> foo\n-- $> bar\n").is_err());
}

#[test]
fn test_multiline_eval_command() {
    assert_eq!(
        multiline_eval_command("{- $>\nfoo\n<$ -}\n").unwrap(),
        byte_span(":{\nfoo\n:}", "foo", 6, 10)
    );

    // Multiple lines, command after start marker.
    assert_eq!(
        multiline_eval_command("{- $> puppy\ndoggy\nkitty\ncat\n<$ -}\n").unwrap(),
        byte_span(
            ":{\npuppy\ndoggy\nkitty\ncat\n:}",
            "puppy\ndoggy\nkitty\ncat",
            6,
            28
        )
    );

    // Whitespace before start marker.
    assert_eq!(
        multiline_eval_command("     {- $> puppy\n<$ -}\n").unwrap(),
        byte_span(":{\npuppy\n:}", "puppy", 11, 17)
    );

    assert_eq!(
        multiline_eval_command("   {- $>\n    puppy\n<$ -}\n").unwrap(),
        byte_span(":{\n    puppy\n:}", "puppy", 9, 19)
    );

    // Whitespace before end marker.
    assert_eq!(
        multiline_eval_command("{- $> puppy\ndoggy\n        <$ -}\n").unwrap(),
        byte_span(":{\npuppy\ndoggy\n:}", "puppy\ndoggy", 6, 18)
    );

    // Negative cases.
    // Markers cannot be on the same line.
    assert!(multiline_eval_command("{- $> puppy <$ -}\n").is_err());

    // Extra newline at end.
    assert!(multiline_eval_command("{- $>\npuppy\n<$ -}\n\n").is_err());

    // Text after end marker.
    assert!(multiline_eval_command("{- $>\ndoggy\n<$ -} puppy\n").is_err());

    // Two commands.
    assert!(multiline_eval_command("{- $>\npuppy\n<$ -}\n-- $> puppy\n").is_err());
    assert!(multiline_eval_command("{- $>\npuppy\n<$ -}\n{- $>\ndoggy\n<$ -}\n").is_err());
}

#[test]
fn test_parse_eval_commands() {
    assert_eq!(
        parse_eval_commands("module Foo where\n\n-- $> myFunc 0\nmyFunc :: Int -> Int\nmyFunc = id\n\n{- $>\nhello\n<$ -}\n-- $> goodbye\n\noozy \"{- $>\\n\\\n\\this does not get parsed as an eval command\\n\\\n\\<$ -}\"\n\nhello =\n    {- $>\n    but this does!\n    <$ -}\n    0\n")
            .unwrap(),
        vec![
            EvalCommand::new(
                GhciCommand("myFunc 0".to_owned()),
                "myFunc 0".to_owned(),
                3,
                7,
                24,
                33
            ),
            EvalCommand::new(
                GhciCommand(":{\nhello\n:}".to_owned()),
                "hello".to_owned(),
                8,
                1,
                73,
                79
            ),
            EvalCommand::new(
                GhciCommand("goodbye".to_owned()),
                "goodbye".to_owned(),
                10,
                7,
                91,
                99
            ),
            EvalCommand::new(
                GhciCommand(":{\n    but this does!\n:}".to_owned()),
                "but this does!".to_owned(),
                18,
                1,
                190,
                209
            ),
        ]
    )
}

#[test]
fn eval_command_display() {
    let command = EvalCommand::new(
        GhciCommand("goodbye".to_owned()),
        "goodbye".to_owned(),
        10,
        7,
        91,
        99,
    );
    assert_eq!(command.to_string(), "10:7: goodbye");
    assert_eq!(command.line(), 10);
    assert_eq!(command.column(), 7);
    assert_eq!(command.byte_span(), (91, 99));
    assert_eq!(command.display_command(), "goodbye");
    assert!(parse_eval_commands("no commands here\n").unwrap().is_empty());
}

#[test]
fn search_order_ends_with_the_working_directory() {
    assert_eq!(
        paths("/w", &["/w/src", "/w/test"]).paths(),
        vec!["/w/src".to_owned(), "/w/test".to_owned(), "/w".to_owned()]
    );
    assert_eq!(paths("/w", &[]).paths(), vec!["/w".to_owned()]);
}

#[test]
fn first_existing_candidate_wins() {
    let cands: Vec<String> = vec!["a".to_owned(), "b".to_owned(), "c".to_owned()];
    assert_eq!(first_existing(&cands, &vec![false, true, true]), Ok("b".to_owned()));
    assert_eq!(first_existing(&cands, &vec![true, false, true]), Ok("a".to_owned()));
    assert_eq!(
        first_existing(&cands, &vec![false, false, false]),
        Err(PathError::SourceNotFound)
    );
    assert_eq!(first_existing(&vec![], &vec![]), Err(PathError::SourceNotFound));
}

#[test]
fn target_candidates_in_search_order() {
    let show = paths("/w", &["/w/src"]);
    assert_eq!(
        show.candidate_paths("My.Mod"),
        vec![
            "/w/src/My/Mod.hs".to_owned(),
            "/w/My/Mod.hs".to_owned(),
            "/w/src/My/Mod.lhs".to_owned(),
            "/w/My/Mod.lhs".to_owned(),
        ]
    );
    assert_eq!(
        show.candidate_paths("src/A.hs"),
        vec!["/w/src/src/A.hs".to_owned(), "/w/src/A.hs".to_owned()]
    );
    assert_eq!(show.candidate_paths("/abs/B.hs"), vec!["/abs/B.hs".to_owned(), "/abs/B.hs".to_owned()]);
}

use ghciwatch::ghci::parse::ghc_message::not_found::NotFound;
use ghciwatch::ghci::parse::ghc_message::single_quoted::single_quoted;
use ghciwatch::ghci::parse::haskell_grammar::module_name;
use ghciwatch::ghci::parse::lines::{rest_of_line, rest_of_line_repeat, until_newline};
use ghciwatch::ghci::parse::transform_till::{CharParser, ModuleNameParser, Preceded};

fn module(name: &str) -> NotFound {
    NotFound::Module(name.to_owned())
}

fn file(name: &str) -> NotFound {
    NotFound::File(name.to_owned())
}

fn unrecognized(name: &str) -> NotFound {
    NotFound::Unrecognized(name.to_owned())
}

#[test]
fn test_parse_module_not_found() {
    assert_eq!(NotFound::from_str("Module Puppy not found").unwrap(), module("Puppy"));
    assert_eq!(NotFound::from_str("Module Puppy not found\n").unwrap(), module("Puppy"));
    assert_eq!(
        NotFound::from_str("Module Puppy.Doggy' not found\n").unwrap(),
        module("Puppy.Doggy'")
    );

    // Negative cases.
    assert!(NotFound::from_str("Module Puppy Doggy not found\n").is_err());
    assert!(NotFound::from_str("Module Puppy\\ Doggy not found\n").is_err());
    assert!(NotFound::from_str("Module Puppy*.Doggy not found\n").is_err());
    assert!(NotFound::from_str("Module Puppy.Doggy not\n").is_err());
    assert!(NotFound::from_str("Module Puppy\n.Doggy not found\n").is_err());
}

#[test]
fn test_parse_file_not_found() {
    assert_eq!(NotFound::from_str("File src/Puppy.hs not found").unwrap(), file("src/Puppy.hs"));
    assert_eq!(NotFound::from_str("File src/Puppy.hs not found\n").unwrap(), file("src/Puppy.hs"));
    assert_eq!(
        NotFound::from_str("File src/ Puppy.hs not found\n").unwrap(),
        file("src/ Puppy.hs")
    );
    assert_eq!(
        NotFound::from_str("File src/\nPuppy.hs not found\n").unwrap(),
        file("src/\nPuppy.hs")
    );
    assert_eq!(
        NotFound::from_str("File src/Puppy.hs.lhs not found\n").unwrap(),
        file("src/Puppy.hs.lhs")
    );
    assert_eq!(
        NotFound::from_str("File src/Puppy.hs not foun.lhs not found\n").unwrap(),
        file("src/Puppy.hs not foun.lhs")
    );

    // Negative cases.

    // No extension.
    assert!(NotFound::from_str("File src/Puppy not found\n").is_err());

    // Non-Haskell extension.
    assert!(NotFound::from_str("File src/Puppy.x not found\n").is_err());
    assert!(NotFound::from_str("File src/Puppy.hs.bak not found\n").is_err());

    // Extra punctuation.
    assert!(NotFound::from_str("File src/Puppy.hs not found!\n").is_err());

    // Case sensitivity.
    assert!(NotFound::from_str("file src/Puppy.hs not found!\n").is_err());
}

#[test]
fn test_parse_unrecognized_not_found() {
    assert_eq!(
        NotFound::from_str("target ‘src/Puppy’ is not a module name or a source file").unwrap(),
        unrecognized("src/Puppy")
    );

    // Newline at end.
    assert_eq!(
        NotFound::from_str("target ‘src/Puppy’ is not a module name or a source file\n").unwrap(),
        unrecognized("src/Puppy")
    );

    // Empty string.
    assert_eq!(
        NotFound::from_str("target ‘’ is not a module name or a source file").unwrap(),
        unrecognized("")
    );

    // Whitespace.
    assert_eq!(
        NotFound::from_str("target ‘src/ Puppy’ is not a module name or a source file").unwrap(),
        unrecognized("src/ Puppy")
    );
    assert_eq!(
        NotFound::from_str("target ‘ src/Puppy’ is not a module name or a source file").unwrap(),
        unrecognized(" src/Puppy")
    );
    assert_eq!(
        NotFound::from_str("target ‘src/Puppy ’ is not a module name or a source file").unwrap(),
        unrecognized("src/Puppy ")
    );

    // Internal quotes!
    assert_eq!(
        NotFound::from_str("target ‘src/Pupp'y’ is not a module name or a source file").unwrap(),
        unrecognized("src/Pupp'y")
    );
    assert_eq!(
        NotFound::from_str("target ‘src/Pupp'''y’ is not a module name or a source file").unwrap(),
        unrecognized("src/Pupp'''y")
    );
    assert_eq!(
        NotFound::from_str("target ‘'src/Puppy'’ is not a module name or a source file").unwrap(),
        unrecognized("'src/Puppy'")
    );
    assert_eq!(
        NotFound::from_str("target ‘‘src/Puppy’’ is not a module name or a source file").unwrap(),
        unrecognized("‘src/Puppy’")
    );

    // Newlines oh my!
    assert_eq!(
        NotFound::from_str("target ‘src\n/Puppy\n’ is not a module name or a source file").unwrap(),
        unrecognized("src\n/Puppy\n")
    );

    // ASCII quotes.
    assert_eq!(
        NotFound::from_str("target `src/Puppy' is not a module name or a source file").unwrap(),
        unrecognized("src/Puppy")
    );
    assert_eq!(
        NotFound::from_str("target ``src/Puppy' is not a module name or a source file").unwrap(),
        unrecognized("`src/Puppy")
    );
    assert_eq!(
        NotFound::from_str("target `src/Pupp'y`' is not a module name or a source file").unwrap(),
        unrecognized("src/Pupp'y`")
    );

    assert_eq!(
        NotFound::from_str("target 'src/Puppy' is not a module name or a source file").unwrap(),
        unrecognized("'src/Puppy'")
    );
    assert_eq!(
        NotFound::from_str("target 'src/Pupp'y' is not a module name or a source file").unwrap(),
        unrecognized("'src/Pupp'y'")
    );
    assert_eq!(
        NotFound::from_str("target src/Puppy' is not a module name or a source file").unwrap(),
        unrecognized("src/Puppy'")
    );
}

#[test]
fn not_found_rejects_other_text() {
    assert!(NotFound::from_str("").is_err());
    assert!(NotFound::from_str("Something else entirely\n").is_err());
}

fn quoted(input: &str) -> Result<(String, String), ()> {
    single_quoted(&ModuleNameParser, &CharParser(' '), input).map_err(|_| ())
}

fn quoted_after_tick(input: &str) -> Result<(String, String), ()> {
    single_quoted(
        &Preceded(CharParser('\''), ModuleNameParser),
        &CharParser(' '),
        input,
    )
    .map_err(|_| ())
}

fn pair(a: &str, b: &str) -> (String, String) {
    (a.to_owned(), b.to_owned())
}

#[test]
fn test_parse_single_quoted() {
    // Unicode.
    assert_eq!(quoted("‘Puppy’ ").unwrap(), pair("Puppy", " "));
    assert_eq!(quoted("‘Puppy'’ ").unwrap(), pair("Puppy'", " "));
    assert_eq!(quoted("‘Puppy''’ ").unwrap(), pair("Puppy''", " "));

    // ASCII.
    assert_eq!(quoted("`Puppy' ").unwrap(), pair("Puppy", " "));

    // Internal quotes.
    assert_eq!(quoted("`Pupp'y' ").unwrap(), pair("Pupp'y", " "));
    assert_eq!(quoted("`Pupp''y' ").unwrap(), pair("Pupp''y", " "));
    assert_eq!(quoted("`Pupp'''y' ").unwrap(), pair("Pupp'''y", " "));
    assert_eq!(quoted("`Pupp''''y' ").unwrap(), pair("Pupp''''y", " "));

    // Starts/ends with single quote.
    assert_eq!(quoted("Puppy' ").unwrap(), pair("Puppy'", " "));
    assert_eq!(quoted("Puppy'' ").unwrap(), pair("Puppy''", " "));
    assert_eq!(quoted_after_tick("'Puppy ").unwrap(), pair("Puppy", " "));
    assert_eq!(quoted_after_tick("'Puppy' ").unwrap(), pair("Puppy'", " "));

    // Negative cases.

    // No valid ending.
    assert!(quoted("‘Puppy’x").is_err());

    // Modules can't start with numbers.
    assert!(quoted("`0' ").is_err());
    assert!(quoted("0 ").is_err());

    // Delimiters have to match.
    assert!(quoted("‘Puppy' ").is_err());
    assert!(quoted("`Puppy’ ").is_err());
}

#[test]
fn test_parse_module_name() {
    assert_eq!(module_name("Foo").unwrap(), "Foo");
    assert_eq!(module_name("Foo.Bar").unwrap(), "Foo.Bar");
    assert_eq!(module_name("Foo.Bar'").unwrap(), "Foo.Bar'");
    assert_eq!(module_name("Foo.Bar1").unwrap(), "Foo.Bar1");

    assert_eq!(module_name("A").unwrap(), "A");
    assert_eq!(module_name("A.B.C").unwrap(), "A.B.C");
    assert_eq!(module_name("Foo_Bar").unwrap(), "Foo_Bar");
    assert_eq!(module_name("Dog_").unwrap(), "Dog_");
    assert_eq!(module_name("D'_").unwrap(), "D'_");

    // Negative cases.
    // Not capitalized.
    assert!(module_name("foo.bar").is_err());
    // Forbidden characters.
    assert!(module_name("'foo").is_err());
    assert!(module_name("1foo").is_err());
    assert!(module_name("Foo::Bar").is_err());
    assert!(module_name("Foo.Bar:").is_err());
    // Multiple dots.
    assert!(module_name("Foo..Bar").is_err());
    assert!(module_name("Foo.Bar.").is_err());
    assert!(module_name(".Foo.Bar").is_err());
    assert!(module_name(" Foo.Bar").is_err());
    // Whitespace.
    assert!(module_name("Foo.Bar ").is_err());
    assert!(module_name("Foo. Bar").is_err());
    assert!(module_name("Foo .Bar").is_err());
    assert!(module_name("Foo.Bar Baz.Boz").is_err());
}

#[test]
fn test_parse_rest_of_line() {
    assert_eq!(rest_of_line("\n").unwrap(), "\n");
    assert_eq!(rest_of_line("foo\n").unwrap(), "foo\n");
    assert_eq!(rest_of_line("foo bar.?\n").unwrap(), "foo bar.?\n");

    // Negative cases.
    // Two newlines:
    assert!(rest_of_line("foo\n\n").is_err());
}

#[test]
fn test_parse_until_newline() {
    assert_eq!(until_newline("\n").unwrap(), "");
    assert_eq!(until_newline("foo\n").unwrap(), "foo");
    assert_eq!(until_newline("foo bar.?\n").unwrap(), "foo bar.?");

    // Negative cases.
    // Two newlines:
    assert!(until_newline("foo\n\n").is_err());
}

#[test]
fn test_parse_lines_repeat() {
    fn parser(input: &str) -> Vec<String> {
        rest_of_line_repeat(input).unwrap()
    }

    assert_eq!(parser("puppy\ndoggy\n"), vec!["puppy\n", "doggy\n"]);
    assert_eq!(parser("puppy\ndoggy"), vec!["puppy\n", "doggy"]);
    assert_eq!(parser("dog"), vec!["dog"]);
    assert_eq!(parser(" \ndog\n"), vec![" \n", "dog\n"]);
    assert_eq!(parser("\ndog\n"), vec!["\n", "dog\n"]);
    assert_eq!(parser("\n"), vec!["\n"]);
}

#[test]
fn lines_edge_cases() {
    assert!(rest_of_line_repeat("").unwrap().is_empty());
    assert_eq!(rest_of_line("no newline").unwrap(), "no newline");
    assert_eq!(until_newline("no newline").unwrap(), "no newline");
    assert_eq!(rest_of_line("crlf\r\n").unwrap(), "crlf\r\n");
}

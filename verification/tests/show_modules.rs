use ghciwatch::ghci::show_modules::{parse_modules, split_ascii_whitespace, Module, ModuleSet, ShowModulesError};

#[test]
fn show_modules_test_parse_module() {
    assert_eq!(
        Module::from_str("A.MercuryPrelude ( src/A/MercuryPrelude.hs, /Users/wiggles/mwb4/dist-newstyle/build/aarch64-osx/ghc-9.6.1/mwb-0/l/test-dev/noopt/build/test-dev/A/MercuryPrelude.dyn_o )").unwrap(),
        Module {
            name: "A.MercuryPrelude".to_owned(),
            source: "src/A/MercuryPrelude.hs".to_owned(),
            outputs: vec!["/Users/wiggles/mwb4/dist-newstyle/build/aarch64-osx/ghc-9.6.1/mwb-0/l/test-dev/noopt/build/test-dev/A/MercuryPrelude.dyn_o".to_owned()],
        }
    );
}

#[test]
fn show_modules_errors() {
    assert_eq!(Module::from_str("   "), Err(ShowModulesError::MissingName));
    assert_eq!(Module::from_str("Foo"), Err(ShowModulesError::MissingFiles));
    assert_eq!(
        Module::from_str("Foo [ Foo.hs ]"),
        Err(ShowModulesError::ExpectedParen)
    );
    assert_eq!(
        Module::from_str("Foo ( Foo.hs ) extra"),
        Err(ShowModulesError::TrailingTokens)
    );
    assert_eq!(
        Module::from_str("Foo ( Foo.o, Foo.dyn_o )"),
        Err(ShowModulesError::NoSourceFile)
    );
    // The last source file listed wins.
    assert_eq!(
        Module::from_str("Foo ( Foo.hs, Bar.lhs )").unwrap().source,
        "Bar.lhs"
    );
}

#[test]
fn show_modules_lines() {
    let lines = vec![
        "A ( src/A.hs, a.o )".to_owned(),
        "B ( src/B.hs, b.o )".to_owned(),
    ];
    let modules = parse_modules(&lines).unwrap();
    assert_eq!(modules.len(), 2);
    assert_eq!(modules[1].name, "B");
    assert_eq!(
        parse_modules(&vec!["A ( src/A.hs )".to_owned(), "oops".to_owned()]),
        Err(ShowModulesError::MissingFiles)
    );
    assert_eq!(
        split_ascii_whitespace("  a \t b\nc  "),
        vec!["a".to_owned(), "b".to_owned(), "c".to_owned()]
    );
}

#[test]
fn shown_module_set() {
    let mut set = ModuleSet::new();
    assert_eq!(set.len(), 0);
    set.insert_source_path("/src/A.hs".to_owned());
    set.insert_source_path("/src/A.hs".to_owned());
    set.insert_source_path("/src/B.hs".to_owned());
    assert_eq!(set.len(), 2);
    assert!(set.contains_source_path("/src/A.hs"));
    assert!(!set.contains_source_path("/src/C.hs"));
}

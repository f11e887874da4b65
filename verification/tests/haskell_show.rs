use ghciwatch::haskell_show::HaskellShow;

#[test]
fn test_char_show() {
    assert_eq!("' '", ' '.haskell_show());
    assert_eq!("'a'", 'a'.haskell_show());
    assert_eq!("'1'", '1'.haskell_show());
    assert_eq!("'^'", '^'.haskell_show());
    assert_eq!("'\\xa'", '\n'.haskell_show());
    assert_eq!("'\\x130b8'", '\u{130b8}'.haskell_show());
}

#[test]
fn test_str_show() {
    assert_eq!("[]", "".haskell_show());
    assert_eq!("['a']", "a".haskell_show());
    assert_eq!("['a','b','c']", "abc".haskell_show());
    assert_eq!(
        "['a','b','c','\\xa','\\x130b8']",
        "abc\n\u{130b8}".haskell_show()
    );
}

#[test]
fn show_escapes_non_printable_and_non_ascii() {
    assert_eq!("'\\x7f'", '\u{7f}'.haskell_show());
    assert_eq!("'~'", '~'.haskell_show());
    assert_eq!("'\\xe9'", 'é'.haskell_show());
}

#[test]
fn show_escapes_quote_and_backslash() {
    assert_eq!("'\\''", '\''.haskell_show());
    assert_eq!("'\\\\'", '\\'.haskell_show());
}

use ghciwatch::ghci::parse::ghc_message::severity::Severity;
use ghciwatch::ghci::warning_formatter::{colorize_line, colorize_line_with, colorize_message, colorize_message_with};

#[test]
fn test_colorize_multiline_message() {
    let message = "Top-level binding with no type signature:\n  foo :: [Char] -> [Char]\n  28 | foo x = x\n      | ^^^^^^^^^";
    let result = colorize_message(message, Severity::Warning);

    assert!(result.contains("Top-level binding"));
    assert!(result.contains("foo :: [Char] -> [Char]"));
    assert!(result.contains("28"));
    assert!(result.contains("^"));

    assert_eq!(result.lines().count(), message.lines().count());
}

#[test]
fn test_colorize_line_number_with_pipe() {
    let line = "  28 | import Data.Coerce (coerce)";
    let result = colorize_line(line, Severity::Warning);
    assert!(result.contains("28"));
    assert!(result.contains("import Data.Coerce (coerce)"));
    assert!(line.contains(" | "));
    let before_pipe = &line[..line.find(" | ").unwrap()];
    assert!(before_pipe.trim().chars().all(|c| c.is_ascii_digit()));
}

#[test]
fn test_colorize_caret_line() {
    let line = "     | ^^^^^^^^^^^^^^^^^^^^^^^^^^^";
    let result = colorize_line(line, Severity::Warning);
    assert!(result.contains("^"));
    assert!(result.contains("|"));
    assert!(line.trim_start().starts_with('|'));
    assert!(line.contains('^'));
}

#[test]
fn test_colorize_warning_flag() {
    let line = "    [-Wunused-imports]";
    let result = colorize_line(line, Severity::Warning);
    assert!(result.contains("[-Wunused-imports]"));
    assert!(line.contains("[-W"));
}

#[test]
fn test_colorize_error_flag() {
    let line = "    [-Werror]";
    let result = colorize_line(line, Severity::Error);
    assert!(result.contains("[-Werror]"));
    assert!(line.contains("[-W"));
}

#[test]
fn test_colorize_plain_line() {
    let line = "This is a plain line with no special formatting";
    let result = colorize_line(line, Severity::Warning);
    assert_eq!(result, line);
}

#[test]
fn test_line_number_detection() {
    let line1 = "  1 | module Main";
    let result1 = colorize_line(line1, Severity::Warning);
    assert!(result1.contains("1"));
    assert!(result1.contains("module Main"));

    let line2 = "123 | import Data.List";
    let result2 = colorize_line(line2, Severity::Warning);
    assert!(result2.contains("123"));
    assert!(result2.contains("import Data.List"));

    let line3 = "abc | not a line number";
    let result3 = colorize_line(line3, Severity::Warning);
    assert_eq!(result3, line3);

    // Without colors, no line changes.
    let line4 = "  | no line number";
    let result4 = colorize_line_with(line4, Severity::Warning, false);
    assert_eq!(result4, line4);
}

#[test]
fn test_caret_line_detection() {
    let line1 = "     | ^^^";
    let result1 = colorize_line(line1, Severity::Warning);
    assert!(result1.contains("^"));
    assert!(result1.contains("|"));

    let line2 = "  | ^^^^^^^^^^^^^^^";
    let result2 = colorize_line(line2, Severity::Warning);
    assert!(result2.contains("^"));
    assert!(result2.contains("|"));

    let line3 = "     | no carets here";
    let result3 = colorize_line(line3, Severity::Warning);
    assert_eq!(result3, line3);

    let line4 = "^^^ no pipe";
    let result4 = colorize_line(line4, Severity::Warning);
    assert_eq!(result4, line4);
}

#[test]
fn colors_line_numbers_carets_and_flags() {
    assert_eq!(
        colorize_line_with("  28 | x", Severity::Warning, true),
        "\x1b[35m  28\x1b[39m\x1b[35m | x\x1b[39m"
    );
    assert_eq!(
        colorize_line_with("   |^^", Severity::Warning, true),
        "\x1b[35m   |^^\x1b[39m"
    );
    // Blank text before ` | ` is no line number: this is a caret line.
    assert_eq!(
        colorize_line_with("   | ^^", Severity::Warning, true),
        "\x1b[35m   | ^^\x1b[39m"
    );
    // Neither a line number nor carets: unchanged even with colors on.
    assert_eq!(
        colorize_line_with("  | no line number", Severity::Warning, true),
        "  | no line number"
    );
    assert_eq!(
        colorize_line_with("     | no carets here", Severity::Warning, true),
        "     | no carets here"
    );
    assert_eq!(
        colorize_line_with("x [-Wfoo] y [-Wfoo]", Severity::Error, true),
        "x \x1b[31m[-Wfoo]\x1b[39m y \x1b[31m[-Wfoo]\x1b[39m"
    );
    assert_eq!(
        colorize_line_with("x [-Wfoo] y", Severity::Warning, true),
        "x \x1b[35m[-Wfoo]\x1b[39m y"
    );
    assert_eq!(colorize_line_with("x [-Wfoo y", Severity::Warning, true), "x [-Wfoo y");
}

#[test]
fn message_lines_are_colored_and_joined() {
    assert_eq!(
        colorize_message_with("a\r\n 1 | b\n", Severity::Warning, true),
        "a\n\x1b[35m 1\x1b[39m\x1b[35m | b\x1b[39m"
    );
    assert_eq!(colorize_message_with("", Severity::Warning, true), "");
}

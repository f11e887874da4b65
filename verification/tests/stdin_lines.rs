use ghciwatch::ghci::ghci_command::GhciCommand;
use ghciwatch::ghci::stdin::{
    add_module_line, command_lines, eval_lines, interpret_module_line, prompt_lines, PROMPT,
    QUIT_LINE, RELOAD_LINE, SHOW_PATHS_LINE, SHOW_TARGETS_LINE,
};

fn command(text: &str) -> GhciCommand {
    GhciCommand::new(text.to_owned())
}

#[test]
fn command_lines_split_like_str_lines() {
    for text in [
        "",
        "foo",
        "foo\n",
        ":{\nfoo\n:}",
        "a\r\nb\r\n",
        "a\rb",
        "\n\n",
        "last\r",
        "x\n\ny",
    ] {
        let expected: Vec<String> = text.lines().map(|l| format!("{l}\n")).collect();
        assert_eq!(command_lines(&command(text)), expected, "for {text:?}");
    }
}

#[test]
fn eval_wraps_the_command_in_the_module_scope() {
    assert_eq!(
        eval_lines("My.Module", &command(":{\nhello\n:}")),
        vec![
            ":module + *My.Module\n",
            ":{\n",
            "hello\n",
            ":}\n",
            ":module - *My.Module\n",
        ]
    );
}

#[test]
fn session_lines() {
    assert_eq!(add_module_line("src/A.hs"), ":add src/A.hs\n");
    assert_eq!(interpret_module_line("src/A.hs"), ":add *src/A.hs\n");
    assert_eq!(
        prompt_lines(),
        vec![
            format!(":set prompt {PROMPT}\n"),
            format!(":set prompt-cont {PROMPT}\n"),
        ]
    );
    assert_eq!(PROMPT, "###~GHCIWATCH-PROMPT~###");
    assert_eq!(RELOAD_LINE, ":reload\n");
    assert_eq!(SHOW_PATHS_LINE, ":show paths\n");
    assert_eq!(SHOW_TARGETS_LINE, ":show targets\n");
    assert_eq!(QUIT_LINE, ":quit\n");
}

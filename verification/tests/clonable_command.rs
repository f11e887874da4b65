use ghciwatch::clonable_command::{ClonableCommand, CommandError};

fn strings(words: &[&str]) -> Vec<String> {
    words.iter().map(|w| w.to_string()).collect()
}

#[test]
fn test_parse() {
    // Note quotes, whitespace at both ends.
    assert_eq!(
        ClonableCommand::from_str(" puppy --flavor 'sammy' --eyes \"brown\" ").unwrap(),
        ClonableCommand::new("puppy".to_owned()).args(strings(&["--flavor", "sammy", "--eyes", "brown"]))
    );

    // But quoted whitespace is preserved.
    assert_eq!(
        ClonableCommand::from_str(" \" puppy\" ").unwrap(),
        ClonableCommand::new(" puppy".to_owned())
    );
}

#[test]
fn parse_errors() {
    assert_eq!(ClonableCommand::from_str("   "), Err(CommandError::NoProgram));
    assert_eq!(ClonableCommand::from_str("echo 'open"), Err(CommandError::Split));
}

#[test]
fn display_quotes_words() {
    let command = ClonableCommand::new("ghci".to_owned()).arg("a b".to_owned());
    assert_eq!(command.to_string(), "ghci 'a b'");
    assert_eq!(ClonableCommand::from_str(&command.to_string()).unwrap(), command);
    assert_eq!(command.get_args(), &strings(&["a b"]));
    assert_eq!(command.get_current_dir(), &None);
}

#[test]
fn new_command_changes_no_environment() {
    let command = ClonableCommand::new("ghci".to_owned()).arg("-Wall".to_owned());
    assert_eq!(command.get_env(), &Some(vec![]));
    assert_eq!(command.get_current_dir(), &None);
    assert_eq!(command.get_stdio(), (None, None, None));
}

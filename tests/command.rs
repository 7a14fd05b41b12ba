use ttrpc_hello::command::{
    get_cmd_func, get_cmd_names, parse_command_line, split_words, Command, CommandError,
};
use ttrpc_hello::run::{line_action, Action, CommandRun, LineAction};

#[test]
fn known_commands_resolve() {
    assert_eq!(get_cmd_func("SayHello"), Ok(Command::SayHello));
    assert_eq!(get_cmd_func("Shutdown"), Ok(Command::Shutdown));
}

#[test]
fn unknown_command_is_named_in_error() {
    assert_eq!(
        get_cmd_func("Nonsense"),
        Err(CommandError::InvalidCommand("Nonsense".to_string()))
    );
    assert_eq!(
        get_cmd_func("sayhello"),
        Err(CommandError::InvalidCommand("sayhello".to_string()))
    );
}

#[test]
fn command_names_in_table_order() {
    assert_eq!(get_cmd_names(), vec!["SayHello".to_string(), "Shutdown".to_string()]);
    assert_eq!(Command::Shutdown.name(), "Shutdown");
    assert!(Command::Shutdown.is_shutdown());
    assert!(!Command::SayHello.is_shutdown());
}

#[test]
fn words_split_at_white_space() {
    assert_eq!(split_words("  a\tbb  c\n"), vec!["a", "bb", "c"]);
    assert!(split_words(" \t ").is_empty());
}

#[test]
fn command_line_joins_arguments() {
    assert_eq!(
        parse_command_line("SayHello  foo \t bar"),
        Ok((Command::SayHello, "foo bar".to_string()))
    );
    assert_eq!(parse_command_line("Shutdown"), Ok((Command::Shutdown, String::new())));
    assert_eq!(
        parse_command_line("Bogus x"),
        Err(CommandError::InvalidCommand("Bogus".to_string()))
    );
    assert_eq!(
        parse_command_line("   "),
        Err(CommandError::InvalidCommand(String::new()))
    );
}

#[test]
fn run_stops_after_shutdown() {
    let lines = vec![
        "SayHello foo".to_string(),
        "Shutdown".to_string(),
        "SayHello bar".to_string(),
    ];
    let mut run = CommandRun::new(lines);
    assert_eq!(run.next_action(), Action::Call(Command::SayHello, "foo".to_string()));
    assert_eq!(run.next_action(), Action::Call(Command::Shutdown, String::new()));
    assert_eq!(run.next_action(), Action::Done);
    assert_eq!(run.next_action(), Action::Done);
}

#[test]
fn run_stops_at_bad_line() {
    let lines = vec!["SayHello a".to_string(), "Nope".to_string(), "Shutdown".to_string()];
    let mut run = CommandRun::new(lines);
    assert_eq!(run.next_action(), Action::Call(Command::SayHello, "a".to_string()));
    assert_eq!(
        run.next_action(),
        Action::Fail(CommandError::InvalidCommand("Nope".to_string()))
    );
    assert_eq!(run.next_action(), Action::Done);
}

#[test]
fn run_ends_with_list() {
    let mut run = CommandRun::new(vec!["SayHello".to_string()]);
    assert_eq!(run.next_action(), Action::Call(Command::SayHello, String::new()));
    assert_eq!(run.next_action(), Action::Done);
    let mut empty = CommandRun::new(Vec::new());
    assert_eq!(empty.next_action(), Action::Done);
}

#[test]
fn interactive_lines() {
    assert_eq!(line_action(""), LineAction::Ignore);
    assert_eq!(line_action("\n"), LineAction::Ignore);
    assert_eq!(line_action("quit"), LineAction::Quit);
    assert_eq!(line_action("quitting now"), LineAction::Quit);
    assert_eq!(
        line_action("SayHello you"),
        LineAction::Run(Command::SayHello, "you".to_string())
    );
    assert_eq!(
        line_action("qui"),
        LineAction::Fail(CommandError::InvalidCommand("qui".to_string()))
    );
}

use shell_core::command::{build_command_exit, Command, CommandError};

fn strings(items: &[&str]) -> Vec<String> {
    items.iter().map(|s| s.to_string()).collect()
}

#[test]
fn from_word_knows_the_three_builtins() {
    assert_eq!(Command::from_word("exit"), Some(Command::Exit { code: 0 }));
    assert_eq!(Command::from_word("echo"), Some(Command::Echo { message: String::new() }));
    assert_eq!(Command::from_word("type"), Some(Command::Type { tokens: Vec::new() }));
}

#[test]
fn from_word_is_case_sensitive_and_exact() {
    for word in ["", "Exit", "EXIT", "eXit", "Echo", "TYPE", "exit ", " exit", "exi", "exits",
        "ls", "cd", "typ", "echoecho"]
    {
        assert_eq!(Command::from_word(word), None, "{word:?}");
    }
}

#[test]
fn name_is_the_word_that_names_the_command() {
    assert_eq!(Command::Exit { code: 3 }.name(), "exit");
    assert_eq!(Command::Echo { message: "x".to_string() }.name(), "echo");
    assert_eq!(Command::Type { tokens: strings(&["a"]) }.name(), "type");
    for word in ["exit", "echo", "type"] {
        assert_eq!(Command::from_word(word).unwrap().name(), word);
    }
}

#[test]
fn exit_without_argument_has_status_zero() {
    assert_eq!(Command::Exit { code: 9 }.build(""), Ok(Command::Exit { code: 0 }));
    assert_eq!(build_command_exit(&[]), Ok(Command::Exit { code: 0 }));
}

#[test]
fn exit_with_a_number_has_that_status() {
    let exit = || Command::from_word("exit").unwrap();
    assert_eq!(exit().build("0"), Ok(Command::Exit { code: 0 }));
    assert_eq!(exit().build("42"), Ok(Command::Exit { code: 42 }));
    assert_eq!(exit().build("-7"), Ok(Command::Exit { code: -7 }));
    assert_eq!(exit().build("+7"), Ok(Command::Exit { code: 7 }));
    assert_eq!(exit().build("2147483647"), Ok(Command::Exit { code: i32::MAX }));
    assert_eq!(exit().build("-2147483648"), Ok(Command::Exit { code: i32::MIN }));
    assert_eq!(build_command_exit(&strings(&["255"])), Ok(Command::Exit { code: 255 }));
}

#[test]
fn exit_with_other_text_has_status_one() {
    let exit = || Command::from_word("exit").unwrap();
    assert_eq!(exit().build("abc"), Ok(Command::Exit { code: 1 }));
    assert_eq!(exit().build("2147483648"), Ok(Command::Exit { code: 1 }));
    assert_eq!(exit().build("1.5"), Ok(Command::Exit { code: 1 }));
    assert_eq!(exit().build("'3'"), Ok(Command::Exit { code: 1 }));
    assert_eq!(build_command_exit(&strings(&["-"])), Ok(Command::Exit { code: 1 }));
}

#[test]
fn exit_with_more_arguments_is_an_error() {
    let too_many = || Err(CommandError::Argument("too many supplied".to_string()));
    assert_eq!(Command::from_word("exit").unwrap().build("1 2"), too_many());
    assert_eq!(Command::from_word("exit").unwrap().build("a\tb\nc"), too_many());
    assert_eq!(build_command_exit(&strings(&["1", "2"])), too_many());
    assert_eq!(build_command_exit(&strings(&["0", "0", "0"])), too_many());
}

#[test]
fn error_message_names_the_fault() {
    let error = Command::from_word("exit").unwrap().build("1 2").unwrap_err();
    assert_eq!(error.message(), "invalid arguments: too many supplied");
    assert_eq!(CommandError::Argument(String::new()).message(), "invalid arguments: ");
}

#[test]
fn echo_keeps_its_argument_text_as_it_is() {
    let echo = || Command::from_word("echo").unwrap();
    assert_eq!(echo().build(""), Ok(Command::Echo { message: String::new() }));
    assert_eq!(
        echo().build("hello   world"),
        Ok(Command::Echo { message: "hello   world".to_string() })
    );
    assert_eq!(
        echo().build("'quoted  text' \\n"),
        Ok(Command::Echo { message: "'quoted  text' \\n".to_string() })
    );
}

#[test]
fn type_takes_the_words_of_its_argument_text() {
    let kind = || Command::from_word("type").unwrap();
    assert_eq!(kind().build(""), Ok(Command::Type { tokens: Vec::new() }));
    assert_eq!(
        kind().build("echo   ls\tcat"),
        Ok(Command::Type { tokens: strings(&["echo", "ls", "cat"]) })
    );
}

#[test]
fn build_replaces_what_the_command_held() {
    assert_eq!(
        Command::Echo { message: "old".to_string() }.build("new"),
        Ok(Command::Echo { message: "new".to_string() })
    );
    assert_eq!(
        Command::Type { tokens: strings(&["old"]) }.build("a b"),
        Ok(Command::Type { tokens: strings(&["a", "b"]) })
    );
    assert_eq!(Command::Exit { code: 5 }.build("6"), Ok(Command::Exit { code: 6 }));
}

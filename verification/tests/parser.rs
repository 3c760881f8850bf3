use download_bot::command::Command;
use download_bot::command::CommandKind;
use download_bot::parser::ParseError;
use download_bot::text::parse_u8;
use download_bot::text::push_decimal;

fn age_of(text: &str) -> Option<u8> {
    parse_u8(&text.chars().collect())
}

#[test]
fn parses_every_command() {
    assert_eq!(Command::parse("/help", "bot"), Ok(Command::Help));
    assert_eq!(
        Command::parse("/username alice", "bot"),
        Ok(Command::Username("alice".to_string()))
    );
    assert_eq!(
        Command::parse("/usernameandage alice 42", "bot"),
        Ok(Command::UsernameAndAge { username: "alice".to_string(), age: 42 })
    );
    assert_eq!(Command::parse("/aria2version", "bot"), Ok(Command::Aria2Version));
    assert_eq!(
        Command::parse("/download http://x/file", "bot"),
        Ok(Command::Download("http://x/file".to_string()))
    );
    assert_eq!(
        Command::parse("/downloadstatus gid001", "bot"),
        Ok(Command::DownloadStatus("gid001".to_string()))
    );
}

#[test]
fn command_names_ignore_case() {
    assert_eq!(Command::parse("/HELP", "bot"), Ok(Command::Help));
    assert_eq!(Command::parse("/Aria2Version", "bot"), Ok(Command::Aria2Version));
    assert_eq!(
        Command::parse("/DownLoad HTTP://X/File", "bot"),
        Ok(Command::Download("HTTP://X/File".to_string()))
    );
    assert_eq!(
        Command::parse("/UsernameAndAge Bob 7", "bot"),
        Ok(Command::UsernameAndAge { username: "Bob".to_string(), age: 7 })
    );
}

#[test]
fn arguments_start_after_the_run_of_blanks() {
    assert_eq!(
        Command::parse("/username    alice", "bot"),
        Ok(Command::Username("alice".to_string()))
    );
    assert_eq!(
        Command::parse("/download\t \nhttp://x/file", "bot"),
        Ok(Command::Download("http://x/file".to_string()))
    );
    assert_eq!(
        Command::parse("/usernameandage   alice 42", "bot"),
        Ok(Command::UsernameAndAge { username: "alice".to_string(), age: 42 })
    );
}

#[test]
fn single_argument_is_taken_whole() {
    assert_eq!(
        Command::parse("/username alice and bob ", "bot"),
        Ok(Command::Username("alice and bob ".to_string()))
    );
    assert_eq!(
        Command::parse("/downloadstatus \u{436}\u{443}\u{43a} 1", "bot"),
        Ok(Command::DownloadStatus("\u{436}\u{443}\u{43a} 1".to_string()))
    );
}

#[test]
fn commands_without_fields_ignore_arguments() {
    assert_eq!(Command::parse("/help me please", "bot"), Ok(Command::Help));
    assert_eq!(Command::parse("/aria2version now", "bot"), Ok(Command::Aria2Version));
}

#[test]
fn empty_download_is_accepted() {
    assert_eq!(Command::parse("/download", "bot"), Ok(Command::Download(String::new())));
    assert_eq!(Command::parse("/download ", "bot"), Ok(Command::Download(String::new())));
    assert_eq!(Command::parse("/download   ", "bot"), Ok(Command::Download(String::new())));
    assert_eq!(Command::parse("/username", "bot"), Ok(Command::Username(String::new())));
}

#[test]
fn mention_of_this_bot_is_accepted() {
    assert_eq!(Command::parse("/help@bot", "bot"), Ok(Command::Help));
    assert_eq!(Command::parse("/help@BoT", "bot"), Ok(Command::Help));
    assert_eq!(
        Command::parse("/download@bot http://x/file", "Bot"),
        Ok(Command::Download("http://x/file".to_string()))
    );
    assert_eq!(Command::parse("/help@bot@other", "bot"), Ok(Command::Help));
}

#[test]
fn mention_of_another_bot_is_refused() {
    assert_eq!(
        Command::parse("/help@Other", "bot"),
        Err(ParseError::WrongBotName("Other".to_string()))
    );
    assert_eq!(
        Command::parse("/nonsense@other x", "bot"),
        Err(ParseError::WrongBotName("other".to_string()))
    );
    assert_eq!(Command::parse("/help@", "bot"), Err(ParseError::WrongBotName(String::new())));
    assert_eq!(Command::parse("/help@", ""), Ok(Command::Help));
}

#[test]
fn unknown_texts_are_rejected() {
    assert_eq!(
        Command::parse("/start", "bot"),
        Err(ParseError::UnknownCommand("/start".to_string()))
    );
    assert_eq!(
        Command::parse("hello there", "bot"),
        Err(ParseError::UnknownCommand("hello".to_string()))
    );
    assert_eq!(Command::parse("help", "bot"), Err(ParseError::UnknownCommand("help".to_string())));
    assert_eq!(Command::parse("", "bot"), Err(ParseError::UnknownCommand(String::new())));
    assert_eq!(Command::parse(" /help", "bot"), Err(ParseError::UnknownCommand(String::new())));
    assert_eq!(
        Command::parse("/helpme", "bot"),
        Err(ParseError::UnknownCommand("/helpme".to_string()))
    );
    assert_eq!(
        Command::parse("/hel", "bot"),
        Err(ParseError::UnknownCommand("/hel".to_string()))
    );
    assert_eq!(
        Command::parse("/Start@bot now", "bot"),
        Err(ParseError::UnknownCommand("/Start".to_string()))
    );
}

#[test]
fn age_must_be_a_number_below_256() {
    for bad in ["256", "300", "1000000000000000000000", "-1", "abc", "4x", "1.5", "+", "++1", "0x10"] {
        assert_eq!(
            Command::parse(&format!("/usernameandage alice {}", bad), "bot"),
            Err(ParseError::IncorrectFormat),
            "age {:?}",
            bad
        );
    }
    assert_eq!(
        Command::parse("/usernameandage alice ", "bot"),
        Err(ParseError::IncorrectFormat)
    );
    assert_eq!(
        Command::parse("/usernameandage alice  5", "bot"),
        Err(ParseError::IncorrectFormat)
    );
}

#[test]
fn age_bounds_are_accepted() {
    for (text, age) in [("0", 0u8), ("255", 255), ("007", 7), ("+12", 12), ("0000000000000000000000255", 255)] {
        assert_eq!(
            Command::parse(&format!("/usernameandage alice {}", text), "bot"),
            Ok(Command::UsernameAndAge { username: "alice".to_string(), age }),
            "age {:?}",
            text
        );
    }
}

#[test]
fn name_and_age_need_exactly_two_arguments() {
    assert_eq!(
        Command::parse("/usernameandage alice", "bot"),
        Err(ParseError::TooFewArguments { expected: 2, found: 1 })
    );
    assert_eq!(
        Command::parse("/usernameandage", "bot"),
        Err(ParseError::TooFewArguments { expected: 2, found: 1 })
    );
    assert_eq!(
        Command::parse("/usernameandage alice 42 extra", "bot"),
        Err(ParseError::TooManyArguments { expected: 2, found: 3 })
    );
    assert_eq!(
        Command::parse("/usernameandage alice 42 ", "bot"),
        Err(ParseError::TooManyArguments { expected: 2, found: 3 })
    );
    assert_eq!(
        Command::parse("/usernameandage alice x y", "bot"),
        Err(ParseError::IncorrectFormat)
    );
}

#[test]
fn parse_u8_reads_plain_numbers_only() {
    assert_eq!(age_of("0"), Some(0));
    assert_eq!(age_of("9"), Some(9));
    assert_eq!(age_of("10"), Some(10));
    assert_eq!(age_of("255"), Some(255));
    assert_eq!(age_of("+255"), Some(255));
    assert_eq!(age_of("256"), None);
    assert_eq!(age_of("2550"), None);
    assert_eq!(age_of(""), None);
    assert_eq!(age_of(" 1"), None);
    assert_eq!(age_of("1 "), None);
    assert_eq!(age_of("-0"), None);
    assert_eq!(age_of("\u{661}"), None);
}

#[test]
fn parse_u8_agrees_with_the_standard_parser() {
    for text in ["", "+", "-", "0", "00", "1", "+1", "-1", "99", "255", "256", "999", "1a", "a1", "1 ", "+00255"] {
        assert_eq!(age_of(text), text.parse::<u8>().ok(), "text {:?}", text);
    }
    for n in 0u32..1000 {
        let text = n.to_string();
        assert_eq!(age_of(&text), text.parse::<u8>().ok());
    }
}

#[test]
fn decimal_text_of_numbers() {
    for n in [0u64, 7, 9, 10, 42, 99, 100, 255, 1000, 18446744073709551615] {
        let mut out = String::from("n=");
        push_decimal(&mut out, n);
        assert_eq!(out, format!("n={}", n));
    }
}

#[test]
fn written_commands_are_read_back() {
    let commands = vec![
        Command::Help,
        Command::Username("alice".to_string()),
        Command::Username(String::new()),
        Command::UsernameAndAge { username: "alice".to_string(), age: 0 },
        Command::UsernameAndAge { username: "bob".to_string(), age: 255 },
        Command::Aria2Version,
        Command::Download("http://x/file?a=1 2".to_string()),
        Command::DownloadStatus("2089b05ecca3d829".to_string()),
    ];
    for command in commands {
        let (kind, fields) = match &command {
            Command::Help => (CommandKind::Help, String::new()),
            Command::Username(name) => (CommandKind::Username, name.clone()),
            Command::UsernameAndAge { username, age } => {
                (CommandKind::UsernameAndAge, format!("{} {}", username, age))
            }
            Command::Aria2Version => (CommandKind::Aria2Version, String::new()),
            Command::Download(uri) => (CommandKind::Download, uri.clone()),
            Command::DownloadStatus(gid) => (CommandKind::DownloadStatus, gid.clone()),
        };
        let text = format!("/{} {}", kind.name(), fields);
        assert_eq!(Command::parse(&text, "bot"), Ok(command));
    }
}

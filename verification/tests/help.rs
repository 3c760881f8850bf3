use download_bot::command::Command;
use download_bot::command::CommandKind;
use teloxide::utils::command::CommandDescription;
use teloxide::utils::command::CommandDescriptions;

#[test]
fn help_text_is_the_listing_of_the_table() {
    assert_eq!(
        Command::descriptions(),
        "These commands are supported:\n\n\
         /help \u{2014} display this text.\n\
         /username \u{2014} handle a username.\n\
         /usernameandage \u{2014} handle a username and an age.\n\
         /aria2version \u{2014} get aria2 version\n\
         /download \u{2014} download file, params: uri\n\
         /downloadstatus \u{2014} download status, params: gid"
    );
}

#[test]
fn help_names_every_command_that_is_parsed() {
    let help = Command::descriptions();
    let table = CommandKind::all();
    assert_eq!(table.len(), 6);
    for kind in table {
        let name = format!("/{}", kind.name());
        assert!(help.contains(&name), "help lacks {}", name);
        assert!(help.contains(kind.description()));
        assert!(Command::parse(&name, "bot").is_ok() || kind == CommandKind::UsernameAndAge);
        assert!(Command::parse(&format!("{} a 1", name), "bot").is_ok());
    }
}

#[test]
fn help_text_is_what_the_chat_library_writes() {
    let rows: Vec<CommandDescription> = CommandKind::all()
        .into_iter()
        .map(|kind| CommandDescription {
            prefix: "/",
            command: kind.name(),
            description: kind.description(),
        })
        .collect();
    let expected = CommandDescriptions::new(&rows)
        .global_description("These commands are supported:")
        .to_string();
    assert_eq!(Command::descriptions(), expected);
}

#[test]
fn table_lists_the_commands_in_order() {
    let names: Vec<&str> = CommandKind::all().into_iter().map(|kind| kind.name()).collect();
    assert_eq!(
        names,
        vec!["help", "username", "usernameandage", "aria2version", "download", "downloadstatus"]
    );
}

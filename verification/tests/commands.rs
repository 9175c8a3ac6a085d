use rpass::commands::Command;

#[test]
fn every_command_has_its_word() {
    assert_eq!(Command::parse("create"), Some(Command::Create));
    assert_eq!(Command::parse("open"), Some(Command::Open));
    assert_eq!(Command::parse("list"), Some(Command::List));
    assert_eq!(Command::parse("new"), Some(Command::New));
    assert_eq!(Command::parse("show"), Some(Command::Show));
    assert_eq!(Command::parse("copy"), Some(Command::Copy));
    assert_eq!(Command::parse("edit"), Some(Command::Edit));
    assert_eq!(Command::parse("remove"), Some(Command::Remove));
}

#[test]
fn other_words_are_no_commands() {
    assert_eq!(Command::parse(""), None);
    assert_eq!(Command::parse("List"), None);
    assert_eq!(Command::parse("list "), None);
    assert_eq!(Command::parse("lis"), None);
    assert_eq!(Command::parse("add"), None);
    assert_eq!(Command::parse("quit"), None);
}

#[test]
fn create_and_open_need_no_database() {
    assert!(!Command::Create.needs_database());
    assert!(!Command::Open.needs_database());
    for command in [
        Command::List,
        Command::New,
        Command::Show,
        Command::Copy,
        Command::Edit,
        Command::Remove,
    ] {
        assert!(command.needs_database());
    }
}

#[test]
fn list_and_new_take_no_argument() {
    assert!(!Command::List.takes_argument());
    assert!(!Command::New.takes_argument());
    for command in [
        Command::Create,
        Command::Open,
        Command::Show,
        Command::Copy,
        Command::Edit,
        Command::Remove,
    ] {
        assert!(command.takes_argument());
    }
}

use jals::cli::{command_from_lower, is_exit, parse_command, Command};

#[test]
fn commands_parse_in_any_case() {
    assert_eq!(parse_command("shorten"), Some(Command::Shorten));
    assert_eq!(parse_command("GET"), Some(Command::Get));
    assert_eq!(parse_command("Delete"), Some(Command::Delete));
    assert_eq!(parse_command("LiSt"), Some(Command::List));
    assert_eq!(parse_command("show"), None);
    assert_eq!(parse_command(""), None);
}

#[test]
fn lower_case_words_name_commands() {
    assert_eq!(command_from_lower("list"), Some(Command::List));
    assert_eq!(command_from_lower("LIST"), None);
}

#[test]
fn exit_ignores_ascii_case() {
    assert!(is_exit("exit"));
    assert!(is_exit("EXIT"));
    assert!(is_exit("eXiT"));
    assert!(!is_exit("exits"));
    assert!(!is_exit("quit"));
    assert!(!is_exit(""));
}

use tpad::{
    backup_location, command_of, decimal, file_content, is_white, parse_index, split_lines,
    todo_location, Command, Location,
};

fn strings(xs: &[&str]) -> Vec<String> {
    xs.iter().map(|x| x.to_string()).collect()
}

#[test]
fn split_lines_handles_crlf_and_final_line() {
    assert_eq!(split_lines("a\r\nb\nc"), strings(&["a", "b", "c"]));
    assert_eq!(split_lines("a\n\nb\n"), strings(&["a", "", "b"]));
    assert_eq!(split_lines(""), strings(&[]));
    assert_eq!(split_lines("x\r"), strings(&["x\r"]));
}

#[test]
fn parse_index_cases() {
    assert_eq!(parse_index("3"), Some(3));
    assert_eq!(parse_index(" 12\t"), Some(12));
    assert_eq!(parse_index("+4"), Some(4));
    assert_eq!(parse_index("0"), Some(0));
    assert_eq!(parse_index("-1"), None);
    assert_eq!(parse_index("+"), None);
    assert_eq!(parse_index(""), None);
    assert_eq!(parse_index("1a"), None);
    assert_eq!(parse_index("abc"), None);
    assert_eq!(parse_index("18446744073709551615"), Some(usize::MAX));
    assert_eq!(parse_index("18446744073709551616"), None);
}

#[test]
fn whitespace_is_unicode_whitespace() {
    assert!(is_white(' '));
    assert!(is_white('\u{3000}'));
    assert!(!is_white('a'));
    assert!(!is_white('\u{200b}'));
}

#[test]
fn decimal_writes_numbers() {
    assert_eq!(decimal(0), "0");
    assert_eq!(decimal(7), "7");
    assert_eq!(decimal(120), "120");
}

#[test]
fn file_content_ends_each_line() {
    assert_eq!(file_content(&strings(&["a", "b"])), "a\nb\n");
    assert_eq!(file_content(&strings(&[])), "");
}

#[test]
fn commands_are_recognised() {
    assert_eq!(command_of(&strings(&["tpad"])), Command::List);
    assert_eq!(command_of(&strings(&["tpad", "init"])), Command::Init);
    assert_eq!(command_of(&strings(&["tpad", "list"])), Command::List);
    assert_eq!(command_of(&strings(&["tpad", "reset"])), Command::Reset);
    assert_eq!(command_of(&strings(&["tpad", "restore"])), Command::Restore);
    assert_eq!(command_of(&strings(&["tpad", "add"])), Command::Help);
    assert_eq!(command_of(&strings(&["tpad", "--help"])), Command::Help);
    assert_eq!(command_of(&strings(&["tpad", "add", "x"])), Command::Add);
    assert_eq!(command_of(&strings(&["tpad", "done", "1"])), Command::Done);
    assert_eq!(command_of(&strings(&["tpad", "undo", "1"])), Command::Undo);
    assert_eq!(command_of(&strings(&["tpad", "rm", "done"])), Command::Remove);
    assert_eq!(command_of(&strings(&["tpad", "list", "x"])), Command::Help);
}

#[test]
fn locations_follow_priority() {
    assert_eq!(todo_location(true, Some(true)), Location::Local);
    assert_eq!(todo_location(false, Some(true)), Location::EnvDir);
    assert_eq!(todo_location(false, Some(false)), Location::Home);
    assert_eq!(todo_location(false, None), Location::Home);
    assert_eq!(backup_location(Some(true)), Location::EnvDir);
    assert_eq!(backup_location(None), Location::Home);
}

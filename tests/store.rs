use tpad::{FileAction, Task, TaskError};

fn s(x: &str) -> String {
    x.to_string()
}

fn args(xs: &[&str]) -> Vec<String> {
    xs.iter().map(|x| x.to_string()).collect()
}

fn store(contents: &str) -> Task {
    Task::new(s("todo"), s("todo.bak"), false, contents)
}

fn rendered(t: &Task) -> Vec<String> {
    t.list().unwrap().iter().map(|i| i.render()).collect()
}

#[test]
fn scenario_add_done_list_rm_reset_restore() {
    let t = store("");
    let added = t.add(&args(&["a", "b"])).unwrap();
    assert_eq!(added, "[ ] a\n[ ] b\n");

    let mut t = store(&added);
    let file = t.done(&args(&["2"])).unwrap();
    assert_eq!(file, "[ ] a\n[*] b\n");

    let t = store(&file);
    assert_eq!(rendered(&t), vec![s("[ ] 1. a"), s("[*] 2. b")]);

    let mut t = store(&file);
    let file = t.remove(&args(&["1"])).unwrap();
    assert_eq!(file, "[*] b\n");

    let t = store(&file);
    assert_eq!(t.reset().unwrap(), FileAction::BackupAndClear);
    // after the reset the todo file is empty and the backup holds "[*] b\n"
    let t = Task::new(s("todo"), s("todo.bak"), true, "");
    assert_eq!(t.restore(), FileAction::CopyBackupOver);
}

#[test]
fn add_writes_one_line_per_text() {
    let t = store("[ ] x\n");
    let added = t.add(&args(&["one", "two", "three"])).unwrap();
    assert_eq!(added, "[ ] one\n[ ] two\n[ ] three\n");
    let whole = format!("{}{}", "[ ] x\n", added);
    let t = store(&whole);
    assert_eq!(t.tasks().len(), 4);
    assert_eq!(t.tasks()[3], "[ ] three");
}

#[test]
fn add_without_texts_fails() {
    let t = store("");
    assert!(matches!(t.add(&args(&[])), Err(TaskError::MissingArguments)));
}

#[test]
fn done_then_undo_restores_line() {
    let mut t = store("[ ] a\n[ ] b\n[*] c\n");
    t.done(&args(&["1", "2"])).unwrap();
    assert_eq!(t.tasks()[0], "[*] a");
    let file = t.undo(&args(&["1", "2"])).unwrap();
    assert_eq!(file, "[ ] a\n[ ] b\n[*] c\n");
}

#[test]
fn undo_opens_done_task() {
    let mut t = store("[*] a\n");
    assert_eq!(t.undo(&args(&["1"])).unwrap(), "[ ] a\n");
}

#[test]
fn list_skips_short_lines() {
    let t = store("[ ] a\n\n[*] \nxy\n[*] b\n");
    assert_eq!(rendered(&t), vec![s("[ ] 1. a"), s("[*] 5. b")]);
}

#[test]
fn list_of_empty_store_fails() {
    let t = store("");
    assert!(matches!(t.list(), Err(TaskError::EmptyList)));
}

#[test]
fn list_renders_raw_marker() {
    let t = store("abcdefg\n");
    assert_eq!(rendered(&t), vec![s("abcd1. efg")]);
}

#[test]
fn rm_done_removes_done_tasks_only() {
    let mut t = store("[*] a\n[ ] b\n[*] c\n[ ] d\n");
    let file = t.remove(&args(&["done"])).unwrap();
    assert_eq!(file, "[ ] b\n[ ] d\n");
}

#[test]
fn rm_keeps_order() {
    let mut t = store("[ ] a\n[ ] b\n[ ] c\n[ ] d\n");
    let file = t.remove(&args(&["3", "1", "1", "9"])).unwrap();
    assert_eq!(file, "[ ] b\n[ ] d\n");
}

#[test]
fn rm_done_among_others_is_an_index() {
    let mut t = store("[*] a\n");
    assert!(matches!(t.remove(&args(&["done", "1"])), Err(TaskError::InvalidIndex(ref x)) if x == "done"));
    assert_eq!(t.tasks().len(), 1);
}

#[test]
fn reset_then_restore_actions() {
    let t = store("[ ] a\n");
    assert_eq!(t.reset().unwrap(), FileAction::BackupAndClear);
    let next = Task::new(s("todo"), s("todo.bak"), true, "");
    assert_eq!(next.restore(), FileAction::CopyBackupOver);
}

#[test]
fn reset_of_empty_store_fails() {
    assert!(matches!(store("").reset(), Err(TaskError::EmptyList)));
}

#[test]
fn restore_without_backup_creates_one() {
    let t = store("[ ] a\n");
    assert_eq!(t.restore(), FileAction::CreateEmptyBackup);
}

#[test]
fn non_numeric_index_changes_nothing() {
    let mut t = store("[ ] a\n[ ] b\n");
    let r = t.done(&args(&["1", "abc", "x"]));
    assert!(matches!(r, Err(TaskError::InvalidIndex(ref x)) if x == "abc"));
    assert_eq!(t.tasks()[0], "[ ] a");
    let r = t.undo(&args(&["abc"]));
    assert!(matches!(r, Err(TaskError::InvalidIndex(_))));
    let r = t.remove(&args(&["2", "-1"]));
    assert!(matches!(r, Err(TaskError::InvalidIndex(ref x)) if x == "-1"));
    assert_eq!(t.tasks().len(), 2);
}

#[test]
fn out_of_range_index_is_passed_over() {
    let mut t = store("[ ] a\n[ ] b\n");
    assert_eq!(t.done(&args(&["99"])).unwrap(), "[ ] a\n[ ] b\n");
    assert_eq!(t.done(&args(&["0", "2"])).unwrap(), "[ ] a\n[*] b\n");
}

#[test]
fn done_without_arguments_fails() {
    let mut t = store("[ ] a\n");
    assert!(matches!(t.done(&args(&[])), Err(TaskError::MissingArguments)));
}

#[test]
fn done_on_empty_store_fails() {
    let mut t = store("");
    assert!(matches!(t.done(&args(&["1"])), Err(TaskError::EmptyList)));
    assert!(matches!(t.remove(&args(&["1"])), Err(TaskError::EmptyList)));
}

#[test]
fn done_on_short_line_fails() {
    let mut t = store("[ ] a\nab\n");
    assert!(matches!(t.done(&args(&["2"])), Err(TaskError::ShortLine(2))));
    assert_eq!(t.tasks()[1], "ab");
}

#[test]
fn index_arguments_are_trimmed() {
    let mut t = store("[ ] a\n[ ] b\n");
    assert_eq!(t.done(&args(&[" 2 ", "+1"])).unwrap(), "[*] a\n[*] b\n");
}

#[test]
fn init_refuses_existing_file() {
    let t = store("");
    assert!(matches!(t.init(true), Err(TaskError::AlreadyExists)));
    assert!(t.init(false).is_ok());
}

#[test]
fn every_line_is_read() {
    let t = store("[ ] a\n[ ] b\n[ ] a\n");
    assert_eq!(t.tasks().clone(), vec![s("[ ] a"), s("[ ] b"), s("[ ] a")]);
    let t = store("[ ] a\n\n\n[ ] b\n");
    assert_eq!(t.tasks().clone(), vec![s("[ ] a"), s(""), s(""), s("[ ] b")]);
}

#[test]
fn repeated_adds_keep_every_line() {
    let added = store("").add(&args(&["x", "x"])).unwrap();
    let t = store(&added);
    assert_eq!(t.tasks().len(), 2);
}

#[test]
fn add_counts_texts_ending_in_cr() {
    let added = store("[ ] a\n").add(&args(&["b\r", "b\r", "c"])).unwrap();
    let t = store(&format!("{}{}", "[ ] a\n", added));
    assert_eq!(t.tasks().len(), 4);
}

#[test]
fn done_on_repeated_lines_keeps_them() {
    let mut t = store("[ ] x\n[ ] x\n[ ] y\n");
    assert_eq!(t.done(&args(&["3"])).unwrap(), "[ ] x\n[ ] x\n[*] y\n");
}

#[test]
fn store_keeps_paths() {
    let t = Task::new(s("/x/.tpad"), s("/y/.tpad.bak"), true, "");
    assert_eq!(t.todo_path(), "/x/.tpad");
    assert_eq!(t.backup_path(), "/y/.tpad.bak");
    assert!(t.backed_up());
}

use raftcli::cmd_history::CommandHistory;

// The backing file is modelled as its list of lines: `add_command` returns
// whether the command entered the history, in which case the caller appends
// the same line to the file.

#[test]
fn test_command_history() {
    let history_file: Vec<String> = Vec::new();

    let mut command_history = CommandHistory::new(history_file);

    command_history.add_command("first command");
    command_history.add_command("second command");
    command_history.add_command("third command");

    command_history.move_up();
    assert_eq!(command_history.get_current(), "third command");
    command_history.move_up();
    assert_eq!(command_history.get_current(), "second command");
    command_history.move_up();
    assert_eq!(command_history.get_current(), "first command");
    command_history.move_up();
    assert_eq!(command_history.get_current(), "first command");

    command_history.move_down();
    assert_eq!(command_history.get_current(), "second command");
    command_history.move_down();
    assert_eq!(command_history.get_current(), "third command");
    command_history.move_down();
}

#[test]
fn history_ordering_keeps_non_consecutive_duplicates() {
    let mut h = CommandHistory::new(Vec::new());
    assert!(h.add_command("a"));
    assert!(h.add_command("b"));
    assert!(h.add_command("a"));
    // The history is now ["a", "b", "a"], newest last.
    h.move_up();
    assert_eq!(h.get_current(), "a");
    h.move_up();
    assert_eq!(h.get_current(), "b");
    h.move_up();
    assert_eq!(h.get_current(), "a");
    h.move_up();
    assert_eq!(h.get_current(), "a");
}

#[test]
fn history_ordering_suppresses_consecutive_duplicates() {
    let mut h = CommandHistory::new(Vec::new());
    assert!(h.add_command("a"));
    assert!(!h.add_command("a"));
    // The history is just ["a"].
    h.move_up();
    assert_eq!(h.get_current(), "a");
    h.move_up();
    assert_eq!(h.get_current(), "a");
    h.move_down();
    assert_eq!(h.get_current(), "");
}

#[test]
fn history_ordering_ignores_empty_submission() {
    let mut h = CommandHistory::new(Vec::new());
    assert!(!h.add_command(""));
    h.move_up();
    assert_eq!(h.get_current(), "");
}

#[test]
fn history_recall_round_trip() {
    let mut h = CommandHistory::new(Vec::new());
    assert!(h.add_command("first"));
    assert!(h.add_command("second"));
    assert!(h.add_command("third"));

    h.move_up();
    assert_eq!(h.get_current(), "third");
    h.move_up();
    assert_eq!(h.get_current(), "second");
    h.move_up();
    assert_eq!(h.get_current(), "first");
    // A fourth recall-up clamps at the oldest entry.
    h.move_up();
    assert_eq!(h.get_current(), "first");

    h.move_down();
    assert_eq!(h.get_current(), "second");
    h.move_down();
    assert_eq!(h.get_current(), "third");
    // The last step down reaches the live buffer again.
    h.move_down();
    assert_eq!(h.get_current(), "");
}

#[test]
fn history_file_persistence() {
    let mut file: Vec<String> = vec![
        "list".to_string(),
        "status".to_string(),
        "reset".to_string(),
    ];

    let mut h = CommandHistory::new(file.clone());
    if h.add_command("reboot") {
        file.push("reboot".to_string());
    }
    assert_eq!(
        file,
        vec![
            "list".to_string(),
            "status".to_string(),
            "reset".to_string(),
            "reboot".to_string(),
        ]
    );

    // A fresh instance loaded from the file reproduces the same order.
    let mut reloaded = CommandHistory::new(file.clone());
    reloaded.move_up();
    assert_eq!(reloaded.get_current(), "reboot");
    reloaded.move_up();
    assert_eq!(reloaded.get_current(), "reset");
    reloaded.move_up();
    assert_eq!(reloaded.get_current(), "status");
    reloaded.move_up();
    assert_eq!(reloaded.get_current(), "list");
}

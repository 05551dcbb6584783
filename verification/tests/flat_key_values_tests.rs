use raftcli::flat_key_values::FlatKeyValues;

// The file is modelled as its list of lines: `load_from_file` takes the
// lines read, `save` hands back the lines to write when modified.

fn test_file_lines() -> Vec<String> {
    vec![
        "# Comment".to_string(),
        "KEY1 = VALUE1".to_string(),
        "KEY2=VALUE2".to_string(),
        "  KEY3  =  VALUE3  ".to_string(),
        "".to_string(),
    ]
}

#[test]
fn test_load_file() {
    let config = FlatKeyValues::load_from_file(test_file_lines());

    assert_eq!(config.get("KEY1").unwrap(), "VALUE1");
    assert_eq!(config.get("KEY2").unwrap(), "VALUE2");
    assert_eq!(config.get("KEY3").unwrap(), "VALUE3");
    assert!(config.get("KEY4").is_none());
}

#[test]
fn test_insert_and_save() {
    let mut config = FlatKeyValues::load_from_file(test_file_lines());

    // Insert a new key-value pair
    config.insert("NEW_KEY".to_string(), "NEW_VALUE".to_string());
    assert_eq!(config.get("NEW_KEY").unwrap(), "NEW_VALUE");

    // Save the file
    let written = config.save().unwrap();

    // Reload the file and verify the new key-value pair is there
    let new_config = FlatKeyValues::load_from_file(written);
    assert_eq!(new_config.get("NEW_KEY").unwrap(), "NEW_VALUE");
}

#[test]
fn insert_rewrites_existing_line_in_place() {
    let mut config = FlatKeyValues::load_from_file(test_file_lines());
    config.insert("KEY2".to_string(), "OTHER".to_string());
    assert_eq!(config.get("KEY2").unwrap(), "OTHER");

    let written = config.save().unwrap();
    // The comment and the untouched lines survive, in order; the line that
    // carried the key was rewritten in place.
    assert_eq!(written[0], "# Comment");
    assert_eq!(written[1], "KEY1 = VALUE1");
    assert_eq!(written[2], "KEY2 = OTHER");
    assert_eq!(written[3], "  KEY3  =  VALUE3  ");
    assert_eq!(written[4], "");
    assert_eq!(written.len(), 5);
}

#[test]
fn save_without_changes_does_nothing() {
    let mut config = FlatKeyValues::load_from_file(test_file_lines());
    assert!(config.save().is_none());
}

#[test]
fn later_lines_win_for_duplicate_keys() {
    let lines = vec!["K = first".to_string(), "K = second".to_string()];
    let config = FlatKeyValues::load_from_file(lines);
    assert_eq!(config.get("K").unwrap(), "second");
}

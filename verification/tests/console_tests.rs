use raftcli::screen::Screen;
use raftcli::session::{run_scripted_session, ScriptStep, SessionState};
use raftcli::terminal_io::{KeyEvent, KeyInput, TerminalIO};

fn key(code: KeyInput) -> KeyEvent {
    KeyEvent { code, ctrl: false }
}

fn padded(line: &str, cols: usize) -> String {
    let mut s = line.to_string();
    while s.chars().count() < cols {
        s.push(' ');
    }
    s
}

#[test]
fn render_invariant_across_chunk_boundaries() {
    let mut t = TerminalIO::new(Vec::new());
    let mut screen = Screen::new(20, 5);
    let ops = t.init(20, 5);
    screen.apply_all(&ops);

    // Type a partial command.
    for c in ['h', 'e'] {
        let outcome = t.handle_key_event(key(KeyInput::Char(c)));
        assert!(outcome.continue_running);
        screen.apply_all(&outcome.ops);
    }
    assert_eq!(screen.bottom_text(), padded("> he", 20));

    // Inbound chunks of every awkward shape: empty, no terminator, a chunk
    // completing the line started by the previous one, carriage returns,
    // text long enough to wrap and to run over the bottom row.
    let chunks = [
        "",
        "boot: partial line without newline",
        " ... completed\n",
        "a\r\nb\r\nc\r\n",
        "a much longer chunk that wraps around the narrow screen several times\n",
    ];
    for chunk in chunks {
        let ops = t.print(chunk, true);
        screen.apply_all(&ops);
        assert_eq!(screen.bottom_text(), padded("> he", 20));
    }
}

#[test]
fn error_banner_owns_bottom_row_until_cleared() {
    let mut t = TerminalIO::new(Vec::new());
    let mut screen = Screen::new(30, 4);
    let ops = t.init(30, 4);
    screen.apply_all(&ops);

    let outcome = t.handle_key_event(key(KeyInput::Char('x')));
    screen.apply_all(&outcome.ops);
    assert_eq!(screen.bottom_text(), padded("> x", 30));

    let ops = t.show_error("read failed");
    screen.apply_all(&ops);
    assert_eq!(screen.bottom_text(), padded("! read failed", 30));

    // Without force_show, rendering is suppressed while the banner shows.
    let ops = t.print("device text\n", false);
    assert!(ops.is_empty());
    assert_eq!(screen.bottom_text(), padded("! read failed", 30));

    // A forced render clears the banner and restores the literal buffer.
    let ops = t.print("more device text\n", true);
    screen.apply_all(&ops);
    assert_eq!(screen.bottom_text(), padded("> x", 30));
}

#[test]
fn info_banner_then_clear_restores_empty_prompt() {
    let mut t = TerminalIO::new(Vec::new());
    let mut screen = Screen::new(30, 4);
    let ops = t.init(30, 4);
    screen.apply_all(&ops);

    let ops = t.show_info("Connecting to device...");
    screen.apply_all(&ops);
    assert_eq!(screen.bottom_text(), padded("> Connecting to device...", 30));

    let ops = t.clear_info();
    screen.apply_all(&ops);
    assert_eq!(screen.bottom_text(), padded("> ", 30));
}

#[test]
fn key_handling_edits_submits_and_recalls() {
    let mut t = TerminalIO::new(vec!["older".to_string()]);
    let _ = t.init(40, 6);

    for c in ['p', 'i', 'n', 'g', 'x'] {
        t.handle_key_event(key(KeyInput::Char(c)));
    }
    t.handle_key_event(key(KeyInput::Backspace));
    assert_eq!(t.get_command_buffer(), "ping");

    let outcome = t.handle_key_event(key(KeyInput::Enter));
    assert!(outcome.continue_running);
    assert_eq!(outcome.submitted.as_deref(), Some("ping"));
    assert!(outcome.history_appended);
    assert_eq!(t.get_command_buffer(), "");

    // Recall walks newest first and replaces the buffer wholesale.
    t.handle_key_event(key(KeyInput::Up));
    assert_eq!(t.get_command_buffer(), "ping");
    t.handle_key_event(key(KeyInput::Up));
    assert_eq!(t.get_command_buffer(), "older");
    t.handle_key_event(key(KeyInput::Down));
    assert_eq!(t.get_command_buffer(), "ping");
    t.handle_key_event(key(KeyInput::Down));
    assert_eq!(t.get_command_buffer(), "");

    // Submitting the same line twice does not duplicate the history entry.
    for c in ['p', 'i', 'n', 'g'] {
        t.handle_key_event(key(KeyInput::Char(c)));
    }
    let outcome = t.handle_key_event(key(KeyInput::Enter));
    assert!(!outcome.history_appended);
}

#[test]
fn exit_keys_end_the_session() {
    let mut t = TerminalIO::new(Vec::new());
    let _ = t.init(40, 6);
    let outcome = t.handle_key_event(KeyEvent { code: KeyInput::Esc, ctrl: false });
    assert!(!outcome.continue_running);
    let outcome = t.handle_key_event(KeyEvent { code: KeyInput::Char('c'), ctrl: true });
    assert!(!outcome.continue_running);
    let outcome = t.handle_key_event(KeyEvent { code: KeyInput::Char('x'), ctrl: true });
    assert!(!outcome.continue_running);
    // A plain 'c' is just a character.
    let outcome = t.handle_key_event(KeyEvent { code: KeyInput::Char('c'), ctrl: false });
    assert!(outcome.continue_running);
    assert_eq!(t.get_command_buffer(), "c");
}

#[test]
fn reconnect_transparency() {
    // One scripted failure followed by a successful reopen: the session
    // ends connected; the command written before the failure was
    // delivered, the one written while the connection was down was
    // dropped, and nothing else was lost.
    let script = vec![
        ScriptStep::Recv("boot\n".to_string()),
        ScriptStep::Submit("before".to_string()),
        ScriptStep::ReadTimeout,
        ScriptStep::ReadFail,
        ScriptStep::Submit("during".to_string()),
        ScriptStep::OpenResult(true),
        ScriptStep::Submit("after".to_string()),
    ];
    let out = run_scripted_session(&script, true);
    assert_eq!(out.state, SessionState::Connected);
    assert_eq!(out.delivered, vec!["before".to_string(), "after".to_string()]);
    assert_eq!(out.dropped, vec!["during".to_string()]);
    assert!(!out.failed);
}

#[test]
fn reconnect_disabled() {
    // The same single failure with reconnection disabled: the session ends
    // disconnected with a failure signalled, and no retry is attempted
    // (the scripted reopen changes nothing).
    let script = vec![
        ScriptStep::Submit("before".to_string()),
        ScriptStep::ReadFail,
        ScriptStep::OpenResult(true),
        ScriptStep::Submit("after".to_string()),
    ];
    let out = run_scripted_session(&script, false);
    assert_eq!(out.state, SessionState::Disconnected);
    assert!(out.failed);
    assert_eq!(out.delivered, vec!["before".to_string()]);
    assert!(out.dropped.is_empty());
}

#[test]
fn quit_key_ends_cleanly() {
    let script = vec![
        ScriptStep::Recv("ok\n".to_string()),
        ScriptStep::Quit,
        ScriptStep::Submit("late".to_string()),
    ];
    let out = run_scripted_session(&script, true);
    assert_eq!(out.state, SessionState::Disconnected);
    assert!(!out.failed);
    assert!(out.delivered.is_empty());
    assert!(out.dropped.is_empty());
}

#[test]
fn console_round_trip_logic() {
    // The logic half of an end-to-end exchange: the remote writes "ok\n",
    // which reaches the inbound side (and the log); the user types "ping"
    // and presses Enter, the line goes out on the outbound channel and
    // lands in the history file.
    let mut history_file: Vec<String> = Vec::new();
    let mut t = TerminalIO::new(history_file.clone());
    let _ = t.init(40, 6);

    let mut script = vec![ScriptStep::Recv("ok\n".to_string())];
    for c in ['p', 'i', 'n', 'g'] {
        t.handle_key_event(key(KeyInput::Char(c)));
    }
    let outcome = t.handle_key_event(key(KeyInput::Enter));
    let submitted = outcome.submitted.expect("enter submits the line");
    if outcome.history_appended {
        history_file.push(submitted.clone());
    }
    script.push(ScriptStep::Submit(submitted));

    let out = run_scripted_session(&script, true);
    assert_eq!(out.logged, vec!["ok\n".to_string()]);
    assert_eq!(out.delivered, vec!["ping".to_string()]);
    assert_eq!(history_file.last().unwrap(), "ping");
}

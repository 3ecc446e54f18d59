use amuxd::error::AppError;
use amuxd::terminal::{TerminalCursor, TerminalInputEvent, TerminalKey, TerminalNamedKey};
use amuxd::tmux::{
    list_failure_outcome, normalize_tmux_capture_stream, parse_cursor, parse_pane_size,
    parse_tmux_session_line, parse_tmux_session_list, plan_tmux_input, tmux_capture_line_count,
    tmux_command_failure, tmux_key_sequence, TmuxInputCommand,
};

fn runtime_message(error: AppError) -> String {
    match error {
        AppError::Runtime(message) => message,
        other => panic!("expected a runtime error, got {other:?}"),
    }
}

fn bad_request_message(error: AppError) -> String {
    match error {
        AppError::BadRequest { code, message } => {
            assert_eq!(code, "invalid_request");
            message
        }
        other => panic!("expected a bad request, got {other:?}"),
    }
}

fn named(key: TerminalNamedKey) -> TerminalKey {
    TerminalKey::Named { key }
}

fn character(text: &str) -> TerminalKey {
    TerminalKey::Character { text: text.to_string() }
}

#[test]
fn tmux_capture_normalization_inserts_carriage_returns_before_linefeeds() {
    let normalized = normalize_tmux_capture_stream(b"prompt 1\nprompt 2\n");
    assert_eq!(normalized, b"prompt 1\r\nprompt 2\r\n");

    let already_normalized = normalize_tmux_capture_stream(b"prompt 1\r\nprompt 2\r\n");
    assert_eq!(already_normalized, b"prompt 1\r\nprompt 2\r\n");
}

#[test]
fn normalization_is_idempotent_on_mixed_input() {
    let once = normalize_tmux_capture_stream(b"\na\r\nb\n\n\rc");
    assert_eq!(once, b"\r\na\r\nb\r\n\r\n\rc");
    let twice = normalize_tmux_capture_stream(&once);
    assert_eq!(twice, once);
    assert!(normalize_tmux_capture_stream(b"").is_empty());
}

#[test]
fn capture_line_count_is_bounded_below_by_the_pane_and_one() {
    assert_eq!(tmux_capture_line_count(b"a\r\nb\r\n", 1), 2);
    assert_eq!(tmux_capture_line_count(b"a\r\nb\r\nc", 1), 3);
    assert_eq!(tmux_capture_line_count(b"a\r\nb\r\n", 24), 24);
    assert_eq!(tmux_capture_line_count(b"", 0), 1);
    assert_eq!(tmux_capture_line_count(b"\r\n\r\n\r\n", 2), 3);
}

#[test]
fn named_keys_map_to_tmux_names() {
    assert_eq!(tmux_key_sequence(&named(TerminalNamedKey::Enter), false, false).unwrap(), vec!["Enter"]);
    assert_eq!(tmux_key_sequence(&named(TerminalNamedKey::ArrowLeft), false, false).unwrap(), vec!["Left"]);
    assert_eq!(tmux_key_sequence(&named(TerminalNamedKey::Tab), false, true).unwrap(), vec!["Escape", "Tab"]);
    assert_eq!(tmux_key_sequence(&named(TerminalNamedKey::Escape), false, false).unwrap(), vec!["Escape"]);
}

#[test]
fn ctrl_chords_on_named_keys_drop_the_alt_prefix() {
    assert_eq!(tmux_key_sequence(&named(TerminalNamedKey::ArrowUp), true, false).unwrap(), vec!["C-Up"]);
    assert_eq!(tmux_key_sequence(&named(TerminalNamedKey::Enter), true, true).unwrap(), vec!["C-m"]);
    assert_eq!(tmux_key_sequence(&named(TerminalNamedKey::Tab), true, false).unwrap(), vec!["C-i"]);
    assert_eq!(tmux_key_sequence(&named(TerminalNamedKey::Escape), true, false).unwrap(), vec!["C-["]);
}

#[test]
fn character_keys_send_text_or_ctrl_chords() {
    assert_eq!(tmux_key_sequence(&character("x"), false, false).unwrap(), vec!["x"]);
    assert_eq!(tmux_key_sequence(&character("C"), true, false).unwrap(), vec!["C-c"]);
    assert_eq!(tmux_key_sequence(&character("d"), true, true).unwrap(), vec!["Escape", "C-d"]);
    assert_eq!(tmux_key_sequence(&character("é"), false, false).unwrap(), vec!["é"]);
}

#[test]
fn malformed_key_events_are_refused() {
    let bare = tmux_key_sequence(&named(TerminalNamedKey::Ctrl), false, false).unwrap_err();
    assert_eq!(
        bad_request_message(bare),
        "bare ctrl key events are not supported; send a ctrl character chord"
    );
    let bare_chord = tmux_key_sequence(&named(TerminalNamedKey::Ctrl), true, false).unwrap_err();
    assert_eq!(
        bad_request_message(bare_chord),
        "bare ctrl key events are not supported; send a ctrl character chord"
    );
    let empty = tmux_key_sequence(&character(""), false, false).unwrap_err();
    assert_eq!(bad_request_message(empty), "character key events require one character");
    let long = tmux_key_sequence(&character("ab"), false, false).unwrap_err();
    assert_eq!(
        bad_request_message(long),
        "character key events require exactly one character"
    );
    let wide = tmux_key_sequence(&character("é"), true, false).unwrap_err();
    assert_eq!(
        bad_request_message(wide),
        "ctrl character chords currently require ASCII input"
    );
}

#[test]
fn input_plans_batch_literal_text_between_keys() {
    let events = vec![
        TerminalInputEvent::Text { text: "ls".to_string() },
        TerminalInputEvent::Paste { text: " -la".to_string() },
        TerminalInputEvent::Key { key: named(TerminalNamedKey::Enter), ctrl: false, alt: false, shift: false },
        TerminalInputEvent::Resize { rows: 30, cols: 100 },
        TerminalInputEvent::Text { text: "q".to_string() },
    ];
    let plan = plan_tmux_input(&events);
    assert!(plan.error.is_none());
    assert_eq!(
        plan.commands,
        vec![
            TmuxInputCommand::Literal("ls -la".to_string()),
            TmuxInputCommand::Key("Enter".to_string()),
            TmuxInputCommand::Resize { rows: 30, cols: 100 },
            TmuxInputCommand::Literal("q".to_string()),
        ]
    );
    let response = plan.finish(events.len()).unwrap();
    assert_eq!(response.accepted_events, 5);
}

#[test]
fn input_plans_stop_at_the_first_refused_event() {
    let events = vec![
        TerminalInputEvent::Text { text: "abc".to_string() },
        TerminalInputEvent::Key { key: named(TerminalNamedKey::Ctrl), ctrl: false, alt: false, shift: false },
        TerminalInputEvent::Text { text: "never".to_string() },
    ];
    let plan = plan_tmux_input(&events);
    assert_eq!(plan.commands, vec![TmuxInputCommand::Literal("abc".to_string())]);
    let error = plan.finish(events.len()).unwrap_err();
    assert_eq!(
        bad_request_message(error),
        "bare ctrl key events are not supported; send a ctrl character chord"
    );
}

#[test]
fn pane_sizes_parse_or_name_the_missing_part() {
    assert_eq!(parse_pane_size("24|80\n").unwrap(), (24, 80));
    assert_eq!(parse_pane_size("  +3|7  ").unwrap(), (3, 7));
    assert_eq!(runtime_message(parse_pane_size("x|80").unwrap_err()), "failed parsing tmux pane height");
    assert_eq!(runtime_message(parse_pane_size("24").unwrap_err()), "failed parsing tmux pane width");
    assert_eq!(runtime_message(parse_pane_size("24|-1").unwrap_err()), "failed parsing tmux pane width");
    assert_eq!(runtime_message(parse_pane_size("70000|1").unwrap_err()), "failed parsing tmux pane height");
}

#[test]
fn cursors_parse_with_visibility_flag() {
    assert_eq!(parse_cursor("3|5|1\n"), Some(TerminalCursor { row: 3, col: 5, visible: true }));
    assert_eq!(parse_cursor("3|5|0"), Some(TerminalCursor { row: 3, col: 5, visible: false }));
    assert_eq!(parse_cursor("3|5"), Some(TerminalCursor { row: 3, col: 5, visible: false }));
    assert_eq!(parse_cursor("a|5|1"), None);
    assert_eq!(parse_cursor("3"), None);
}

#[test]
fn session_listings_keep_well_formed_lines() {
    let records = parse_tmux_session_list("alpha-1|100|200\nnot a record\nbeta|x|y\ngamma|5|z\n");
    assert_eq!(records.len(), 3);
    assert_eq!(records[0].runtime_name, "alpha-1");
    assert_eq!((records[0].created_epoch, records[0].activity_epoch), (100, 200));
    assert_eq!(records[1].runtime_name, "beta");
    assert_eq!((records[1].created_epoch, records[1].activity_epoch), (0, 0));
    assert_eq!(records[2].runtime_name, "gamma");
    assert_eq!((records[2].created_epoch, records[2].activity_epoch), (5, 5));
    assert!(parse_tmux_session_line("a|b").is_none());
    assert!(parse_tmux_session_line("a|1|2|3").is_none());
}

#[test]
fn listing_failures_without_a_server_mean_no_sessions() {
    assert!(list_failure_outcome("no server running on /tmp/tmux-0/default\n").unwrap().is_empty());
    let error = list_failure_outcome("  permission denied \n").unwrap_err();
    assert_eq!(runtime_message(error), "tmux list-sessions failed: permission denied");
    assert_eq!(
        runtime_message(tmux_command_failure("kill-session", "\tcan't find session\n")),
        "tmux kill-session failed: can't find session"
    );
}

#[test]
fn raw_input_becomes_hex_keys_byte_for_byte() {
    let keys = amuxd::tmux::raw_input_keys(&[0x6c, 0x73, 0x0d, 0x00, 0xff, 0xa9]);
    assert_eq!(keys, vec!["6c", "73", "0d", "00", "ff", "a9"]);
    assert!(amuxd::tmux::raw_input_keys(&[]).is_empty());
}

use amuxd::error::AppError;
use amuxd::screen::{map_cell, snapshot_from_screen, ScreenCell, ScreenState};
use amuxd::stream::{
    CaptureAction, SendAction, TerminalStreamProducer, TerminalStreamSender, TerminalStreamUpdate,
};
use amuxd::terminal::{
    EscapeSequenceMetrics, TerminalCell, TerminalColor, TerminalCursor, TerminalLine, TerminalModes,
    TerminalSnapshot,
};

fn cell(column: u16, text: &str) -> TerminalCell {
    TerminalCell {
        column,
        text: text.to_string(),
        column_span: 1,
        unicode_width: 1,
        grapheme_count: 1,
        is_wide: false,
        is_wide_continuation: false,
        foreground: TerminalColor::Default,
        background: TerminalColor::Default,
        bold: false,
        italic: false,
        underline: false,
        inverse: false,
    }
}

fn line(row: u16, text: &str) -> TerminalLine {
    TerminalLine {
        row,
        wrapped: false,
        cells: text.chars().enumerate().map(|(i, c)| cell(i as u16, &c.to_string())).collect(),
    }
}

fn snapshot_with_text(first: &str, second: &str) -> TerminalSnapshot {
    TerminalSnapshot {
        rows: 2,
        cols: 4,
        cursor: TerminalCursor { row: 1, col: 2, visible: true },
        modes: TerminalModes {
            application_cursor: false,
            application_keypad: false,
            bracketed_paste: true,
            alternate_screen: false,
        },
        escape_sequence_metrics: EscapeSequenceMetrics::default(),
        lines: vec![line(0, first), line(1, second)],
        scrollback: Vec::new(),
        plain_text: format!("{first}\n{second}"),
    }
}

fn frame_of(action: SendAction) -> amuxd::terminal::TerminalStreamFrame {
    match action {
        SendAction::Send(frame) => frame,
        SendAction::Close => panic!("expected a frame"),
    }
}

#[test]
fn stream_frames_are_numbered_consecutively() {
    let (mut sender, first) = TerminalStreamSender::start("session-1", snapshot_with_text("abc", "def"));
    assert_eq!(first.sequence, 1);
    assert_eq!(first.lines.len(), 2);
    assert_eq!(sender.sequence(), 1);

    let second = frame_of(sender.on_update(TerminalStreamUpdate::Snapshot(snapshot_with_text("cde", "def"))));
    assert_eq!(second.sequence, 2);
    assert_eq!(second.session_id, "session-1");
    assert_eq!(second.lines, vec![line(0, "cde")]);

    let third = frame_of(sender.on_update(TerminalStreamUpdate::Snapshot(snapshot_with_text("cde", "uvw"))));
    assert_eq!(third.sequence, 3);
    assert_eq!(third.lines, vec![line(1, "uvw")]);

    let fourth = frame_of(sender.on_update(TerminalStreamUpdate::Snapshot(snapshot_with_text("xyz", "uvw"))));
    assert!(fourth.sequence > third.sequence);
    assert!(matches!(sender.on_update(TerminalStreamUpdate::Closed), SendAction::Close));
    assert_eq!(sender.sequence(), 4);
}

#[test]
fn captures_publish_only_changes_and_close_on_failure() {
    let mut producer = TerminalStreamProducer::new(snapshot_with_text("abc", "def"));
    assert!(matches!(producer.on_capture(Ok(snapshot_with_text("abc", "def"))), CaptureAction::Skip));
    match producer.on_capture(Ok(snapshot_with_text("uvw", "def"))) {
        CaptureAction::Publish(snapshot) => assert_eq!(snapshot, snapshot_with_text("uvw", "def")),
        _ => panic!("a changed capture is published"),
    }
    assert!(matches!(producer.on_capture(Ok(snapshot_with_text("uvw", "def"))), CaptureAction::Skip));
    assert!(matches!(
        producer.on_capture(Err(AppError::Runtime("tmux capture-pane failed".to_string()))),
        CaptureAction::Close
    ));
}

fn screen_cell(text: &str) -> ScreenCell {
    ScreenCell {
        contents: text.to_string(),
        is_wide: false,
        is_wide_continuation: false,
        fgcolor: TerminalColor::Default,
        bgcolor: TerminalColor::Default,
        bold: false,
        italic: false,
        underline: false,
        inverse: false,
    }
}

#[test]
fn screen_cells_carry_width_and_grapheme_counts() {
    let emoji = ScreenCell { is_wide: true, ..screen_cell("😀") };
    let mapped = map_cell(0, Some(&emoji));
    assert_eq!(mapped.text, "😀");
    assert_eq!(mapped.column_span, 2);
    assert_eq!(mapped.unicode_width, 2);
    assert_eq!(mapped.grapheme_count, 1);

    let accent = map_cell(3, Some(&screen_cell("e\u{301}")));
    assert_eq!(accent.column, 3);
    assert_eq!(accent.unicode_width, 1);
    assert_eq!(accent.grapheme_count, 1);

    let continuation = map_cell(1, Some(&ScreenCell { is_wide_continuation: true, ..screen_cell("") }));
    assert_eq!(continuation.column_span, 0);
    assert_eq!(continuation.unicode_width, 0);

    let missing = map_cell(2, None);
    assert_eq!(missing.text, "");
    assert_eq!(missing.column_span, 1);
    assert_eq!(missing.foreground, TerminalColor::Default);
}

#[test]
fn screens_become_snapshots_row_by_row() {
    let red = ScreenCell { fgcolor: TerminalColor::Indexed(1), ..screen_cell("c") };
    let screen = ScreenState {
        rows: 2,
        cols: 3,
        cursor_row: 1,
        cursor_col: 0,
        hide_cursor: false,
        application_cursor: true,
        application_keypad: false,
        bracketed_paste: false,
        alternate_screen: false,
        row_wrapped: vec![true, false],
        cells: vec![
            vec![Some(screen_cell("a")), Some(screen_cell("b")), Some(red)],
            vec![Some(screen_cell("x"))],
        ],
        contents: "abc\nx".to_string(),
    };
    let metrics = EscapeSequenceMetrics { print: 4, execute: 2, csi: 2, esc: 0, osc: 0, dcs: 0 };
    let snapshot = snapshot_from_screen(&screen, metrics);
    assert_eq!((snapshot.rows, snapshot.cols), (2, 3));
    assert_eq!(snapshot.cursor, TerminalCursor { row: 1, col: 0, visible: true });
    assert!(snapshot.modes.application_cursor);
    assert_eq!(snapshot.escape_sequence_metrics.csi, 2);
    assert_eq!(snapshot.lines.len(), 2);
    assert!(snapshot.lines[0].wrapped);
    assert_eq!(snapshot.lines[0].cells.len(), 3);
    assert_eq!(snapshot.lines[0].cells[2].foreground, TerminalColor::Indexed(1));
    assert_eq!(snapshot.lines[1].cells[0].text, "x");
    assert_eq!(snapshot.lines[1].cells[1].text, "");
    assert!(snapshot.scrollback.is_empty());
    assert_eq!(snapshot.plain_text, "abc\nx");
}

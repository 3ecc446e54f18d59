use amuxd::terminal::{
    reindex_terminal_lines, snapshot_eq, split_snapshot_scrollback, EscapeEvent, EscapeSequenceMetrics,
    MilestoneFidelityResult, TerminalCell, TerminalColor, TerminalCursor, TerminalFallbackPolicy,
    TerminalFidelityClass, TerminalInputCapabilities, TerminalLine, TerminalModes,
    TerminalNamedKey, TerminalSnapshot, TerminalStack, TerminalStateCore, TerminalSurfaceState,
};

fn cell(column: u16, text: &str) -> TerminalCell {
    TerminalCell {
        column,
        text: text.to_string(),
        column_span: 1,
        unicode_width: 1,
        grapheme_count: 1,
        is_wide: false,
        is_wide_continuation: false,
        foreground: TerminalColor::Default,
        background: TerminalColor::Default,
        bold: false,
        italic: false,
        underline: false,
        inverse: false,
    }
}

fn line(row: u16, text: &str) -> TerminalLine {
    TerminalLine {
        row,
        wrapped: false,
        cells: text
            .chars()
            .enumerate()
            .map(|(i, ch)| cell(i as u16, &ch.to_string()))
            .collect(),
    }
}

fn snapshot_with_text(first: &str, second: &str) -> TerminalSnapshot {
    TerminalSnapshot {
        rows: 2,
        cols: 4,
        cursor: TerminalCursor { row: 1, col: 2, visible: true },
        modes: TerminalModes {
            application_cursor: false,
            application_keypad: false,
            bracketed_paste: true,
            alternate_screen: false,
        },
        escape_sequence_metrics: EscapeSequenceMetrics {
            print: 3,
            execute: 1,
            csi: 1,
            esc: 0,
            osc: 0,
            dcs: 0,
        },
        lines: vec![line(0, first), line(1, second)],
        scrollback: Vec::new(),
        plain_text: format!("{first}\n{second}"),
    }
}

#[test]
fn fallback_policy_requires_two_consecutive_milestones() {
    let policy = TerminalFallbackPolicy::baseline();
    let milestones = vec![
        MilestoneFidelityResult {
            milestone: "m3".to_string(),
            failed_classes: vec![TerminalFidelityClass::Ime],
        },
        MilestoneFidelityResult {
            milestone: "m4".to_string(),
            failed_classes: vec![TerminalFidelityClass::Ime],
        },
    ];

    assert!(policy.should_evaluate_alternate_state_core(&milestones));
}

#[test]
fn fallback_policy_ignores_non_consecutive_failures() {
    let policy = TerminalFallbackPolicy::baseline();
    let milestones = vec![
        MilestoneFidelityResult {
            milestone: "m3".to_string(),
            failed_classes: vec![TerminalFidelityClass::Wrapping],
        },
        MilestoneFidelityResult {
            milestone: "m4".to_string(),
            failed_classes: Vec::new(),
        },
        MilestoneFidelityResult {
            milestone: "m5".to_string(),
            failed_classes: vec![TerminalFidelityClass::Wrapping],
        },
    ];

    assert!(!policy.should_evaluate_alternate_state_core(&milestones));
}

#[test]
fn fallback_policy_needs_enough_milestones_and_a_shared_class() {
    let policy = TerminalFallbackPolicy::baseline();
    let one = vec![MilestoneFidelityResult {
        milestone: "m1".to_string(),
        failed_classes: vec![TerminalFidelityClass::Ime],
    }];
    assert!(!policy.should_evaluate_alternate_state_core(&one));

    let different = vec![
        MilestoneFidelityResult {
            milestone: "m1".to_string(),
            failed_classes: vec![TerminalFidelityClass::Ime],
        },
        MilestoneFidelityResult {
            milestone: "m2".to_string(),
            failed_classes: vec![TerminalFidelityClass::Wrapping],
        },
    ];
    assert!(!policy.should_evaluate_alternate_state_core(&different));

    let untracked = TerminalFallbackPolicy {
        alternate_state_core: TerminalStateCore::AlacrittyTerminal,
        tracked_failure_classes: vec![TerminalFidelityClass::Wrapping],
        consecutive_milestones_required: 2,
    };
    let ime_twice = vec![
        MilestoneFidelityResult {
            milestone: "m1".to_string(),
            failed_classes: vec![TerminalFidelityClass::Ime],
        },
        MilestoneFidelityResult {
            milestone: "m2".to_string(),
            failed_classes: vec![TerminalFidelityClass::Ime, TerminalFidelityClass::Wrapping],
        },
    ];
    assert!(!untracked.should_evaluate_alternate_state_core(&ime_twice));
    assert!(policy.should_evaluate_alternate_state_core(&ime_twice));
}

#[test]
fn baseline_stack_and_capabilities() {
    let stack = TerminalStack::baseline();
    assert_eq!(stack.escape_parser, "vte");
    assert_eq!(stack.state_core, TerminalStateCore::Vt100);
    assert_eq!(stack.width_engine, "unicode-width");
    assert_eq!(stack.grapheme_engine, "unicode-segmentation");

    let capabilities = TerminalInputCapabilities::baseline();
    assert!(capabilities.text && capabilities.paste && capabilities.resize);
    assert!(capabilities.ctrl_character_chords && capabilities.alt_prefix);
    assert_eq!(capabilities.named_keys.len(), 8);
    assert_eq!(capabilities.named_keys[0], TerminalNamedKey::Ctrl);
    assert_eq!(capabilities.named_keys[7], TerminalNamedKey::Enter);

    let surface = TerminalSurfaceState::baseline("s-1".to_string(), snapshot_with_text("ab", "cd"));
    assert_eq!(surface.session_id, "s-1");
    assert_eq!(surface.stack, stack);
    assert_eq!(surface.fallback_policy, TerminalFallbackPolicy::baseline());
    assert_eq!(surface.snapshot, snapshot_with_text("ab", "cd"));
    assert_eq!(EscapeSequenceMetrics::default().csi, 0);
}

#[test]
fn first_frame_carries_every_line() {
    let snapshot = snapshot_with_text("cde", "uvw");
    let frame = snapshot.diff_frame("session-1", 1, None);
    assert_eq!(frame.session_id, "session-1");
    assert_eq!(frame.sequence, 1);
    assert_eq!((frame.rows, frame.cols), (2, 4));
    assert_eq!(frame.cursor, snapshot.cursor);
    assert_eq!(frame.lines, snapshot.lines);
}

#[test]
fn later_frames_carry_only_changed_lines() {
    let first = snapshot_with_text("cde", "uvw");
    let second = snapshot_with_text("cde", "xyz");
    let frame = second.diff_frame("session-1", 2, Some(&first));
    assert_eq!(frame.sequence, 2);
    assert_eq!(frame.lines, vec![line(1, "xyz")]);

    let unchanged = first.diff_frame("session-1", 3, Some(&first));
    assert!(unchanged.lines.is_empty());
}

#[test]
fn a_resize_resends_every_line() {
    let first = snapshot_with_text("cde", "uvw");
    let mut resized = snapshot_with_text("cde", "uvw");
    resized.cols = 5;
    let frame = resized.diff_frame("session-1", 2, Some(&first));
    assert_eq!(frame.lines.len(), 2);
    assert_eq!(frame.cols, 5);
}

#[test]
fn scrollback_is_the_lines_above_the_visible_rows() {
    let mut full = snapshot_with_text("ab", "cd");
    full.lines = vec![line(0, "$"), line(1, "ab"), line(2, "cd")];
    full.plain_text = "$\nab\ncd".to_string();
    let (scrollback, plain) = split_snapshot_scrollback(&full, 2);
    assert_eq!(scrollback, vec![line(0, "$")]);
    assert_eq!(plain, "$\nab\ncd");

    let (none, _) = split_snapshot_scrollback(&full, 5);
    assert!(none.is_empty());

    let reindexed = reindex_terminal_lines(&[line(7, "x"), line(9, "y")]);
    assert_eq!(reindexed, vec![line(0, "x"), line(1, "y")]);

    let with = snapshot_with_text("ab", "cd").with_scrollback(scrollback, plain);
    assert_eq!(with.scrollback, vec![line(0, "$")]);
    assert_eq!(with.plain_text, "$\nab\ncd");
}

#[test]
fn snapshot_equality_compares_every_field() {
    let a = snapshot_with_text("ab", "cd");
    let mut b = snapshot_with_text("ab", "cd");
    assert!(snapshot_eq(&a, &b));
    b.lines[0].cells[1].foreground = TerminalColor::Rgb([1, 2, 3]);
    assert!(!snapshot_eq(&a, &b));
    let mut c = snapshot_with_text("ab", "cd");
    c.cursor.visible = false;
    assert!(!snapshot_eq(&a, &c));
}

#[test]
fn escape_events_are_counted_by_kind() {
    let mut metrics = EscapeSequenceMetrics::default();
    metrics.record(EscapeEvent::Print);
    metrics.record(EscapeEvent::Print);
    metrics.record(EscapeEvent::Csi);
    metrics.record(EscapeEvent::Execute);
    metrics.record(EscapeEvent::Osc);
    metrics.record(EscapeEvent::Dcs);
    metrics.record(EscapeEvent::Esc);
    assert_eq!(
        metrics,
        EscapeSequenceMetrics { print: 2, execute: 1, csi: 1, esc: 1, osc: 1, dcs: 1 }
    );
}

#[test]
fn tmux_capture_surfaces_name_their_own_stack() {
    let stack = amuxd::terminal_io::TerminalStack::baseline();
    assert_eq!(stack.escape_parser, "tmux-capture");
    assert_eq!(stack.state_core, amuxd::terminal_io::TerminalStateCore::TmuxCapture);
    assert_eq!(stack.width_engine, "browser");
    assert_eq!(stack.grapheme_engine, "browser");
    let policy = amuxd::terminal_io::TerminalFallbackPolicy::baseline();
    assert!(policy.tracked_failure_classes.is_empty());
    assert_eq!(policy.consecutive_milestones_required, 1);
    let surface = amuxd::terminal_io::TerminalSurfaceState::baseline("s".to_string(), snapshot_with_text("a", "b"));
    assert_eq!(surface.stack, stack);
    assert_eq!(surface.input_capabilities.named_keys.len(), 8);
    assert_eq!(surface.snapshot.plain_text, "a\nb");
}

#[test]
fn applying_a_diff_frame_rebuilds_the_current_lines() {
    let previous = snapshot_with_text("abc", "def");
    let current = snapshot_with_text("abc", "dxf");
    let frame = current.diff_frame("s", 2, Some(&previous));
    let rebuilt: Vec<TerminalLine> = previous
        .lines
        .iter()
        .map(|line| {
            frame
                .lines
                .iter()
                .find(|candidate| candidate.row == line.row)
                .cloned()
                .unwrap_or_else(|| line.clone())
        })
        .collect();
    assert_eq!(rebuilt, current.lines);
    assert_eq!(frame.lines.len(), 1);
}

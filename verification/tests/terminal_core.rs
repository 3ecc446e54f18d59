use amuxd::screen::{build_tmux_terminal_snapshot, TerminalCore};
use amuxd::stream::{ClientAction, ClientMessage, TerminalStreamSender};
use amuxd::terminal::{
    EscapeEvent, EscapeSequenceMetrics, TerminalColor, TerminalStack,
    TerminalStateCore,
};
use amuxd::terminal_io::TerminalControlMessage;

#[derive(Default)]
struct EventLog {
    events: Vec<EscapeEvent>,
}

impl vte::Perform for EventLog {
    fn print(&mut self, _c: char) {
        self.events.push(EscapeEvent::Print);
    }

    fn execute(&mut self, _byte: u8) {
        self.events.push(EscapeEvent::Execute);
    }

    fn hook(&mut self, _params: &vte::Params, _intermediates: &[u8], _ignore: bool, _action: char) {
        self.events.push(EscapeEvent::Dcs);
    }

    fn osc_dispatch(&mut self, _params: &[&[u8]], _bell_terminated: bool) {
        self.events.push(EscapeEvent::Osc);
    }

    fn csi_dispatch(&mut self, _params: &vte::Params, _intermediates: &[u8], _ignore: bool, _action: char) {
        self.events.push(EscapeEvent::Csi);
    }

    fn esc_dispatch(&mut self, _intermediates: &[u8], _ignore: bool, _byte: u8) {
        self.events.push(EscapeEvent::Esc);
    }
}

fn events_of(bytes: &[u8]) -> Vec<EscapeEvent> {
    let mut parser = vte::Parser::new();
    let mut log = EventLog::default();
    for byte in bytes {
        parser.advance(&mut log, *byte);
    }
    log.events
}

#[test]
fn terminal_core_emits_baseline_snapshot() {
    let bytes: &[u8] = b"ab\x1b[31mc\x1b[m\r\n\xF0\x9F\x98\x80";
    let mut core = TerminalCore::new(3, 8, 0);
    core.ingest(bytes, &events_of(bytes));
    let snapshot = core.snapshot();

    assert_eq!(TerminalStack::baseline().escape_parser, "vte");
    assert_eq!(TerminalStack::baseline().state_core, TerminalStateCore::Vt100);
    assert_eq!(snapshot.rows, 3);
    assert_eq!(snapshot.cols, 8);
    assert_eq!(snapshot.escape_sequence_metrics.csi, 2);
    assert_eq!(snapshot.lines[0].cells[2].foreground, TerminalColor::Indexed(1));
    assert_eq!(snapshot.lines[1].cells[0].text, "😀");
    assert!(snapshot.lines[1].cells[0].unicode_width >= 2);
    assert_eq!(snapshot.lines[1].cells[0].grapheme_count, 1);
}

#[test]
fn terminal_core_reads_output_fed_in_pieces() {
    let first: &[u8] = b"he\x1b[32m";
    let second: &[u8] = b"llo";
    let mut pieces = TerminalCore::new(2, 6, 0);
    pieces.ingest(first, &events_of(first));
    pieces.ingest(second, &events_of(second));
    let whole_bytes: &[u8] = b"he\x1b[32mllo";
    let mut whole = TerminalCore::new(2, 6, 0);
    whole.ingest(whole_bytes, &events_of(whole_bytes));
    let a = pieces.snapshot();
    let b = whole.snapshot();
    assert_eq!(a.lines, b.lines);
    assert_eq!(a.plain_text, "hello");
    assert_eq!(a.lines[0].cells[2].foreground, TerminalColor::Indexed(2));
    assert_eq!(a.cursor.col, 5);
    assert_eq!(a.escape_sequence_metrics, b.escape_sequence_metrics);
}

#[test]
fn escape_event_runs_are_counted_together() {
    let events = [EscapeEvent::Print, EscapeEvent::Csi, EscapeEvent::Print, EscapeEvent::Osc];
    let mut metrics = EscapeSequenceMetrics::default();
    metrics.record_all(&events);
    assert_eq!(
        metrics,
        EscapeSequenceMetrics { print: 2, execute: 0, csi: 1, esc: 0, osc: 1, dcs: 0 }
    );
    let mut core = TerminalCore::new(1, 2, 0);
    core.ingest(b"", &[]);
    assert_eq!(core.snapshot().escape_sequence_metrics, EscapeSequenceMetrics::default());
}

#[test]
fn tmux_captures_keep_lines_above_the_pane_as_scrollback() {
    let capture: &[u8] = b"one\r\ntwo\r\nthree";
    let snapshot = build_tmux_terminal_snapshot(2, 5, capture, &events_of(capture));
    assert_eq!((snapshot.rows, snapshot.cols), (2, 5));
    assert_eq!(snapshot.scrollback.len(), 1);
    assert_eq!(snapshot.scrollback[0].row, 0);
    assert_eq!(snapshot.scrollback[0].cells[0].text, "o");
    assert_eq!(snapshot.lines.len(), 2);
    assert_eq!(snapshot.lines[0].cells[0].text, "t");
    assert_eq!(snapshot.lines[1].cells[0].text, "t");
    assert_eq!(snapshot.lines[1].cells[1].text, "h");
    assert_eq!(snapshot.plain_text, "one\ntwo\nthree");
    assert_eq!(snapshot.escape_sequence_metrics.execute, 4);
}

#[test]
fn short_tmux_captures_have_no_scrollback() {
    let capture: &[u8] = b"hi";
    let snapshot = build_tmux_terminal_snapshot(3, 4, capture, &events_of(capture));
    assert!(snapshot.scrollback.is_empty());
    assert_eq!(snapshot.lines.len(), 3);
    assert_eq!(snapshot.plain_text, "hi");
}

fn sender() -> TerminalStreamSender {
    let capture: &[u8] = b"x";
    let snapshot = build_tmux_terminal_snapshot(1, 2, capture, &events_of(capture));
    TerminalStreamSender::start("s", snapshot).0
}

#[test]
fn binary_client_messages_become_input() {
    let action = sender().on_client_message(ClientMessage::Binary(b"ls\r".to_vec()));
    assert!(matches!(action, ClientAction::Input(ref bytes) if bytes == b"ls\r"));
}

#[test]
fn resize_control_messages_resize_the_session() {
    let resize = TerminalControlMessage { message_type: "resize".to_string(), rows: Some(40), cols: Some(120) };
    let action = sender().on_client_message(ClientMessage::Control(resize));
    assert!(matches!(action, ClientAction::Resize { rows: 40, cols: 120 }));
}

#[test]
fn other_client_messages_are_ignored() {
    let partial = TerminalControlMessage { message_type: "resize".to_string(), rows: Some(40), cols: None };
    assert!(matches!(sender().on_client_message(ClientMessage::Control(partial)), ClientAction::Ignore));
    let other = TerminalControlMessage { message_type: "ping".to_string(), rows: Some(1), cols: Some(1) };
    assert!(matches!(sender().on_client_message(ClientMessage::Control(other)), ClientAction::Ignore));
    assert!(matches!(sender().on_client_message(ClientMessage::Other), ClientAction::Ignore));
}

#[test]
fn terminal_core_resizes_its_screen() {
    let bytes: &[u8] = b"ab";
    let mut core = TerminalCore::new(2, 4, 0);
    core.ingest(bytes, &events_of(bytes));
    core.resize(3, 6);
    let more: &[u8] = b"cd";
    core.ingest(more, &events_of(more));
    let snapshot = core.snapshot();
    assert_eq!((snapshot.rows, snapshot.cols), (3, 6));
    assert_eq!(snapshot.lines.len(), 3);
    assert_eq!(snapshot.lines[0].cells.len(), 6);
    assert_eq!(snapshot.lines[0].cells[1].text, "b");
    assert_eq!(snapshot.lines[0].cells[3].text, "d");
    assert_eq!(snapshot.escape_sequence_metrics.print, 4);
}

#[test]
fn wide_characters_fill_two_columns() {
    let bytes = "日".as_bytes();
    let mut core = TerminalCore::new(1, 2, 0);
    core.ingest(bytes, &events_of(bytes));
    let snapshot = core.snapshot();
    assert_eq!((snapshot.rows, snapshot.cols), (1, 2));
    assert_eq!(snapshot.lines[0].cells[0].text, "日");
    assert_eq!(snapshot.lines[0].cells[0].column_span, 2);
}

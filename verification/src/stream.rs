//! The decisions of a terminal stream: which captures are published, and which frames are
//! sent for them. The socket, the timer and the channel between the two halves stay with
//! the caller, which performs the actions these steps return.
use vstd::prelude::*;

use crate::error::AppError;
use crate::terminal::{
    clone_snapshot, diff_lines_spec, lines_view, snapshot_eq, EscapeSequenceMetrics,
    TerminalCursor, TerminalLineView, TerminalModes, TerminalSnapshot, TerminalSnapshotView,
    TerminalStreamFrame,
};
use crate::terminal_io::TerminalControlMessage;
use crate::text::{owned, str_eq};

verus! {

/// What the capturing half hands to the sending half: the latest snapshot, or the end.
#[derive(Debug, Clone, PartialEq, Eq)]
pub enum TerminalStreamUpdate {
    Snapshot(TerminalSnapshot),
    Closed,
}

/// What the capturing half does with one capture.
#[derive(Debug)]
pub enum CaptureAction {
    /// Hand this snapshot to the sending half.
    Publish(TerminalSnapshot),
    /// Nothing changed since the last published snapshot.
    Skip,
    /// The session is gone: tell the sending half to close, and stop capturing.
    Close,
}

/// The capturing half of a terminal stream: remembers the last published snapshot.
#[derive(Debug)]
pub struct TerminalStreamProducer {
    latest: TerminalSnapshot,
}

impl TerminalStreamProducer {
    pub closed spec fn latest_view(&self) -> TerminalSnapshotView {
        self.latest@
    }

    /// Starts from the snapshot that was sent first.
    pub fn new(initial: TerminalSnapshot) -> (r: Self)
        ensures
            r.latest_view() == initial@,
    {
        TerminalStreamProducer { latest: initial }
    }

    /// One poll: a failed capture closes the stream; a capture equal to the last published
    /// one is skipped; any other is published and remembered.
    pub fn on_capture(&mut self, result: Result<TerminalSnapshot, AppError>) -> (r: CaptureAction)
        ensures
            match result {
                Err(_) => r is Close && final(self).latest_view() == old(self).latest_view(),
                Ok(s) => if s@ == old(self).latest_view() {
                    r is Skip && final(self).latest_view() == old(self).latest_view()
                } else {
                    r matches CaptureAction::Publish(p) && p@ == s@ && final(self).latest_view()
                        == s@
                },
            },
    {
        match result {
            Err(_) => CaptureAction::Close,
            Ok(snapshot) => {
                if snapshot_eq(&snapshot, &self.latest) {
                    CaptureAction::Skip
                } else {
                    self.latest = clone_snapshot(&snapshot);
                    CaptureAction::Publish(snapshot)
                }
            },
        }
    }
}

/// What the sending half does with one update.
#[derive(Debug)]
pub enum SendAction {
    /// Send this frame.
    Send(TerminalStreamFrame),
    /// Close the socket and stop.
    Close,
}

/// A stream frame as values.
pub struct FrameView {
    pub session_id: Seq<char>,
    pub sequence: int,
    pub rows: u16,
    pub cols: u16,
    pub cursor: TerminalCursor,
    pub modes: TerminalModes,
    pub escape_sequence_metrics: EscapeSequenceMetrics,
    pub lines: Seq<TerminalLineView>,
}

pub open spec fn frame_view(f: TerminalStreamFrame) -> FrameView {
    FrameView {
        session_id: f.session_id@,
        sequence: f.sequence as int,
        rows: f.rows,
        cols: f.cols,
        cursor: f.cursor,
        modes: f.modes,
        escape_sequence_metrics: f.escape_sequence_metrics,
        lines: lines_view(f.lines@),
    }
}

/// The frame numbered `sequence` of session `session` that brings a client from `previous`
/// (nothing, for the first frame) to snapshot `s`.
pub open spec fn snapshot_frame(
    session: Seq<char>,
    sequence: int,
    s: TerminalSnapshot,
    previous: Option<TerminalSnapshot>,
) -> FrameView {
    FrameView {
        session_id: session,
        sequence,
        rows: s.rows,
        cols: s.cols,
        cursor: s.cursor,
        modes: s.modes,
        escape_sequence_metrics: s.escape_sequence_metrics,
        lines: diff_lines_spec(s, previous),
    }
}

/// The sending half of a terminal stream: the session, the number of the last frame sent,
/// and the snapshot that frame brought the client to.
#[derive(Debug)]
pub struct TerminalStreamSender {
    session_id: String,
    sequence: u64,
    sent: TerminalSnapshot,
}

pub open spec fn some_snapshot(s: TerminalSnapshot) -> Option<TerminalSnapshot> {
    Some(s)
}

impl TerminalStreamSender {
    pub closed spec fn session_view(&self) -> Seq<char> {
        self.session_id@
    }

    pub closed spec fn sequence_view(&self) -> u64 {
        self.sequence
    }

    pub closed spec fn sent_view(&self) -> TerminalSnapshot {
        self.sent
    }

    /// The number of the last frame sent.
    pub fn sequence(&self) -> (r: u64)
        ensures
            r == self.sequence_view(),
    {
        self.sequence
    }

    /// The first frame of a stream, numbered 1, carrying every line of the initial snapshot.
    pub fn start(session_id: &str, initial: TerminalSnapshot) -> (r: (Self, TerminalStreamFrame))
        ensures
            r.0.session_view() == session_id@,
            r.0.sequence_view() == 1,
            r.0.sent_view() == initial,
            r.1.sequence == 1,
            r.1.session_id@ == session_id@,
            r.1.rows == initial.rows,
            r.1.cols == initial.cols,
            r.1.cursor == initial.cursor,
            r.1.modes == initial.modes,
            r.1.escape_sequence_metrics == initial.escape_sequence_metrics,
            lines_view(r.1.lines@) == lines_view(initial.lines@),
            frame_view(r.1) == snapshot_frame(session_id@, 1, initial, None),
    {
        let frame = initial.diff_frame(session_id, 1, None);
        (TerminalStreamSender { session_id: owned(session_id), sequence: 1, sent: initial }, frame)
    }

    /// One update: a snapshot becomes the next frame, numbered one more than the last,
    /// holding what changed since the snapshot last sent; the end closes the stream.
    pub fn on_update(&mut self, update: TerminalStreamUpdate) -> (r: SendAction)
        requires
            old(self).sequence_view() < u64::MAX,
        ensures
            match update {
                TerminalStreamUpdate::Closed => r is Close && *final(self) == *old(self),
                TerminalStreamUpdate::Snapshot(s) => {
                    &&& r matches SendAction::Send(frame)
                    &&& frame.sequence == old(self).sequence_view() + 1
                    &&& frame.session_id@ == old(self).session_view()
                    &&& frame.rows == s.rows
                    &&& frame.cols == s.cols
                    &&& frame.cursor == s.cursor
                    &&& frame.modes == s.modes
                    &&& frame.escape_sequence_metrics == s.escape_sequence_metrics
                    &&& lines_view(frame.lines@) == diff_lines_spec(s, some_snapshot(old(self).sent_view()))
                    &&& frame_view(frame) == snapshot_frame(
                        old(self).session_view(),
                        old(self).sequence_view() + 1,
                        s,
                        Some(old(self).sent_view()),
                    )
                    &&& final(self).sequence_view() == frame.sequence
                    &&& final(self).sent_view() == s
                    &&& final(self).session_view() == old(self).session_view()
                },
            },
    {
        match update {
            TerminalStreamUpdate::Closed => SendAction::Close,
            TerminalStreamUpdate::Snapshot(snapshot) => {
                self.sequence = self.sequence + 1;
                let frame = snapshot.diff_frame(
                    self.session_id.as_str(),
                    self.sequence,
                    Some(&self.sent),
                );
                self.sent = snapshot;
                SendAction::Send(frame)
            },
        }
    }
}

/// What a client sends on a terminal stream: a binary frame of raw terminal input, a text
/// frame holding a control message, or anything else.
#[derive(Debug, Clone, PartialEq, Eq)]
pub enum ClientMessage {
    Binary(Vec<u8>),
    Control(TerminalControlMessage),
    Other,
}

/// What the stream does with a client message.
#[derive(Debug, Clone, PartialEq, Eq)]
pub enum ClientAction {
    /// Write these bytes to the session as input.
    Input(Vec<u8>),
    /// Resize the session.
    Resize { rows: u16, cols: u16 },
    /// Nothing.
    Ignore,
}

impl TerminalStreamSender {
    /// A client message: binary bytes become input to the session, exactly those bytes; a
    /// `resize` control message with both rows and columns resizes it; anything else is
    /// ignored.
    pub fn on_client_message(&self, message: ClientMessage) -> (r: ClientAction)
        ensures
            match message {
                ClientMessage::Binary(bytes) => r matches ClientAction::Input(b) && b@ == bytes@,
                ClientMessage::Control(c) => if c.message_type@ == "resize"@ && c.rows is Some
                    && c.cols is Some {
                    r == (ClientAction::Resize { rows: c.rows->0, cols: c.cols->0 })
                } else {
                    r == ClientAction::Ignore
                },
                ClientMessage::Other => r == ClientAction::Ignore,
            },
    {
        match message {
            ClientMessage::Binary(bytes) => ClientAction::Input(bytes),
            ClientMessage::Control(c) => {
                if str_eq(c.message_type.as_str(), "resize") {
                    match (c.rows, c.cols) {
                        (Some(rows), Some(cols)) => ClientAction::Resize { rows, cols },
                        _ => ClientAction::Ignore,
                    }
                } else {
                    ClientAction::Ignore
                }
            },
            ClientMessage::Other => ClientAction::Ignore,
        }
    }
}

/// How many updates come before the first end (all of them if none ends the run).
pub open spec fn updates_before_end(updates: Seq<TerminalStreamUpdate>) -> nat
    decreases updates.len(),
{
    if updates.len() == 0 {
        0
    } else {
        match updates[0] {
            TerminalStreamUpdate::Closed => 0,
            TerminalStreamUpdate::Snapshot(_) => 1 + updates_before_end(updates.drop_first()),
        }
    }
}

/// The frames a sender whose last frame was numbered `sequence` and brought the client to
/// `sent` sends for a run of updates: one per snapshot, up to the end.
pub open spec fn stream_run(
    session: Seq<char>,
    sequence: int,
    sent: TerminalSnapshot,
    updates: Seq<TerminalStreamUpdate>,
) -> Seq<FrameView>
    decreases updates.len(),
{
    if updates.len() == 0 {
        seq![]
    } else {
        match updates[0] {
            TerminalStreamUpdate::Closed => seq![],
            TerminalStreamUpdate::Snapshot(s) => seq![
                snapshot_frame(session, sequence + 1, s, Some(sent)),
            ] + stream_run(session, sequence + 1, s, updates.drop_first()),
        }
    }
}

/// All the frames of a stream of session `session` that starts at `initial` and then gets
/// `updates`: the frame [`TerminalStreamSender::start`] gives, then the frame
/// [`TerminalStreamSender::on_update`] gives for each update, up to the end.
pub open spec fn stream_frames(
    session: Seq<char>,
    initial: TerminalSnapshot,
    updates: Seq<TerminalStreamUpdate>,
) -> Seq<FrameView> {
    seq![snapshot_frame(session, 1, initial, None)] + stream_run(session, 1, initial, updates)
}

/// The snapshot the client holds after frame `i` of a stream (frame 0 is the first).
pub open spec fn shown_after(initial: TerminalSnapshot, updates: Seq<TerminalStreamUpdate>, i: int) -> TerminalSnapshot {
    if i == 0 {
        initial
    } else {
        updates[i - 1]->Snapshot_0
    }
}

proof fn lemma_stream_run(
    session: Seq<char>,
    sequence: int,
    sent: TerminalSnapshot,
    updates: Seq<TerminalStreamUpdate>,
)
    ensures
        stream_run(session, sequence, sent, updates).len() == updates_before_end(updates),
        updates_before_end(updates) <= updates.len(),
        forall|i: int| 0 <= i < updates_before_end(updates) ==> (#[trigger] updates[i]) is Snapshot,
        updates_before_end(updates) < updates.len() ==> updates[updates_before_end(updates) as int] is Closed,
        forall|i: int|
            0 <= i < updates_before_end(updates) ==> #[trigger] stream_run(session, sequence, sent, updates)[i]
                == snapshot_frame(
                session,
                sequence + 1 + i,
                updates[i]->Snapshot_0,
                Some(if i == 0 { sent } else { updates[i - 1]->Snapshot_0 }),
            ),
    decreases updates.len(),
{
    if updates.len() > 0 {
        if let TerminalStreamUpdate::Snapshot(s) = updates[0] {
            let rest = updates.drop_first();
            lemma_stream_run(session, sequence + 1, s, rest);
            let run = stream_run(session, sequence, sent, updates);
            let tail = stream_run(session, sequence + 1, s, rest);
            assert forall|i: int| 0 <= i < updates_before_end(updates) implies (#[trigger] updates[i]) is Snapshot by {
                if i > 0 {
                    assert(updates[i] == rest[i - 1]);
                }
            }
            if updates_before_end(updates) < updates.len() {
                assert(updates[updates_before_end(updates) as int] == rest[updates_before_end(rest) as int]);
            }
            assert forall|i: int| 0 <= i < updates_before_end(updates) implies #[trigger] run[i]
                == snapshot_frame(
                session,
                sequence + 1 + i,
                updates[i]->Snapshot_0,
                Some(if i == 0 { sent } else { updates[i - 1]->Snapshot_0 }),
            ) by {
                if i > 0 {
                    assert(run[i] == tail[i - 1]);
                    assert(updates[i] == rest[i - 1]);
                    if i > 1 {
                        assert(updates[i - 1] == rest[i - 2]);
                    }
                }
            }
        }
    }
}

/// A stream sends one frame for its start and one for each snapshot before the end, and no
/// more; its frames are numbered 1, 2, 3, ... in order, all of the stream's session; the
/// first carries every line of the initial snapshot, and each later one carries the lines
/// of its snapshot that differ from the snapshot the frame before it brought the client to.
pub proof fn lemma_stream_frames(
    session: Seq<char>,
    initial: TerminalSnapshot,
    updates: Seq<TerminalStreamUpdate>,
)
    ensures
        stream_frames(session, initial, updates).len() == 1 + updates_before_end(updates),
        updates_before_end(updates) < updates.len() ==> updates[updates_before_end(updates) as int] is Closed,
        forall|i: int|
            0 <= i < stream_frames(session, initial, updates).len() ==> {
                &&& (#[trigger] stream_frames(session, initial, updates)[i]).sequence == i + 1
                &&& stream_frames(session, initial, updates)[i].session_id == session
                &&& stream_frames(session, initial, updates)[i] == snapshot_frame(
                    session,
                    i + 1,
                    shown_after(initial, updates, i),
                    if i == 0 {
                        None
                    } else {
                        Some(shown_after(initial, updates, i - 1))
                    },
                )
            },
{
    lemma_stream_run(session, 1, initial, updates);
    let f = stream_frames(session, initial, updates);
    let run = stream_run(session, 1, initial, updates);
    assert forall|i: int| 0 <= i < f.len() implies {
        &&& (#[trigger] f[i]).sequence == i + 1
        &&& f[i].session_id == session
        &&& f[i] == snapshot_frame(
            session,
            i + 1,
            shown_after(initial, updates, i),
            if i == 0 {
                None
            } else {
                Some(shown_after(initial, updates, i - 1))
            },
        )
    } by {
        if i > 0 {
            assert(f[i] == run[i - 1]);
        }
    }
}

/// What the capturing half hands on for a run of polls, starting from the snapshot
/// `latest` (`None` for a failed capture): each captured snapshot that differs from the
/// last one handed on, and at the first failure the end (`None`), after which it stops.
pub open spec fn published_run(
    latest: TerminalSnapshotView,
    captures: Seq<Option<TerminalSnapshotView>>,
) -> Seq<Option<TerminalSnapshotView>>
    decreases captures.len(),
{
    if captures.len() == 0 {
        seq![]
    } else {
        match captures[0] {
            None => seq![None],
            Some(s) => if s == latest {
                published_run(latest, captures.drop_first())
            } else {
                seq![Some(s)] + published_run(s, captures.drop_first())
            },
        }
    }
}

/// Over a run of polls the capturing half hands on no snapshot equal to the one it handed
/// on before (the first differs from the starting snapshot), hands on the end exactly when
/// some capture failed, and hands on nothing after the end.
pub proof fn lemma_published_run(latest: TerminalSnapshotView, captures: Seq<Option<TerminalSnapshotView>>)
    ensures
        ({
            let r = published_run(latest, captures);
            &&& forall|i: int| 0 <= i < r.len() - 1 ==> (#[trigger] r[i]) is Some
            &&& (r.len() > 0 && r[r.len() - 1] is None) <==> exists|j: int|
                0 <= j < captures.len() && (#[trigger] captures[j]) is None
            &&& r.len() > 0 && r[0] is Some ==> r[0]->0 != latest
            &&& forall|i: int|
                0 <= i < r.len() - 1 && (#[trigger] r[i + 1]) is Some ==> r[i + 1]->0 != r[i]->0
        }),
    decreases captures.len(),
{
    if captures.len() > 0 {
        let rest = captures.drop_first();
        match captures[0] {
            None => {
                assert(captures[0] is None);
            },
            Some(s) => {
                let r = published_run(latest, captures);
                if s == latest {
                    lemma_published_run(latest, rest);
                    assert forall|j: int| 0 <= j < rest.len() && (#[trigger] rest[j]) is None implies
                        captures[j + 1] is None by {
                        assert(captures[j + 1] == rest[j]);
                    }
                    if exists|j: int| 0 <= j < captures.len() && (#[trigger] captures[j]) is None {
                        let j = choose|j: int| 0 <= j < captures.len() && (#[trigger] captures[j]) is None;
                        assert(rest[j - 1] == captures[j]);
                    }
                } else {
                    lemma_published_run(s, rest);
                    let t = published_run(s, rest);
                    assert(r == seq![Some(s)] + t);
                    assert forall|i: int| 0 <= i < r.len() - 1 implies (#[trigger] r[i]) is Some by {
                        if i > 0 {
                            assert(r[i] == t[i - 1]);
                        }
                    }
                    assert forall|i: int|
                        0 <= i < r.len() - 1 && (#[trigger] r[i + 1]) is Some implies r[i + 1]->0
                            != r[i]->0 by {
                        assert(r[i + 1] == t[i]);
                        if i > 0 {
                            assert(r[i] == t[i - 1]);
                            let k = i - 1;
                            assert(t[k + 1] is Some);
                        } else {
                            assert(t[0] is Some);
                        }
                    }
                    assert forall|j: int| 0 <= j < rest.len() && (#[trigger] rest[j]) is None implies
                        captures[j + 1] is None by {
                        assert(captures[j + 1] == rest[j]);
                    }
                    if exists|j: int| 0 <= j < captures.len() && (#[trigger] captures[j]) is None {
                        let j = choose|j: int| 0 <= j < captures.len() && (#[trigger] captures[j]) is None;
                        assert(rest[j - 1] == captures[j]);
                    }
                    if t.len() > 0 {
                        assert(r[r.len() - 1] == t[t.len() - 1]);
                    }
                }
            },
        }
    }
}

} // verus!

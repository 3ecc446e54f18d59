//! The terminal surface contract: snapshots, frames, input events and the baseline stack.
use vstd::prelude::*;

use crate::text::owned;

verus! {

#[derive(Debug, Clone, Copy, PartialEq, Eq, Structural)]
pub enum TerminalStateCore {
    Vt100,
    AlacrittyTerminal,
}

/// The parsing and state engines that a surface is rendered with.
#[derive(Debug, Clone, PartialEq, Eq)]
pub struct TerminalStack {
    pub escape_parser: String,
    pub state_core: TerminalStateCore,
    pub width_engine: String,
    pub grapheme_engine: String,
}

impl TerminalStack {
    /// `vte` escapes, a `vt100` state core, `unicode-width` and `unicode-segmentation`.
    pub fn baseline() -> (r: Self)
        ensures
            r.escape_parser@ == "vte"@,
            r.state_core == TerminalStateCore::Vt100,
            r.width_engine@ == "unicode-width"@,
            r.grapheme_engine@ == "unicode-segmentation"@,
    {
        TerminalStack {
            escape_parser: owned("vte"),
            state_core: TerminalStateCore::Vt100,
            width_engine: owned("unicode-width"),
            grapheme_engine: owned("unicode-segmentation"),
        }
    }
}

#[derive(Debug, Clone, Copy, PartialEq, Eq, Structural)]
pub enum TerminalFidelityClass {
    Ime,
    Wrapping,
    AnsiEdgeFixtures,
}

/// The fidelity classes that failed at one milestone.
#[derive(Debug, Clone, PartialEq, Eq)]
pub struct MilestoneFidelityResult {
    pub milestone: String,
    pub failed_classes: Vec<TerminalFidelityClass>,
}

/// When to evaluate the alternate state core.
#[derive(Debug, Clone, PartialEq, Eq)]
pub struct TerminalFallbackPolicy {
    pub alternate_state_core: TerminalStateCore,
    pub tracked_failure_classes: Vec<TerminalFidelityClass>,
    pub consecutive_milestones_required: u8,
}

/// A watched class failed both at milestone `i` and at milestone `i + 1`.
pub open spec fn fails_twice_at(
    watched: Seq<TerminalFidelityClass>,
    milestones: Seq<MilestoneFidelityResult>,
    i: int,
) -> bool {
    0 <= i && i + 1 < milestones.len() && exists|c: TerminalFidelityClass|
        #![trigger milestones[i].failed_classes@.contains(c)]
        milestones[i].failed_classes@.contains(c) && watched.contains(c) && milestones[i
            + 1].failed_classes@.contains(c)
}

/// Whether a policy asks for the alternate state core on these milestones.
pub open spec fn should_evaluate_spec(
    policy: TerminalFallbackPolicy,
    milestones: Seq<MilestoneFidelityResult>,
) -> bool {
    &&& policy.consecutive_milestones_required <= milestones.len()
    &&& exists|i: int| #[trigger] fails_twice_at(policy.tracked_failure_classes@, milestones, i)
}

fn class_in(classes: &Vec<TerminalFidelityClass>, c: TerminalFidelityClass) -> (r: bool)
    ensures
        r == classes@.contains(c),
{
    let mut i: usize = 0;
    while i < classes.len()
        invariant
            i <= classes@.len(),
            forall|k: int| 0 <= k < i ==> classes@[k] != c,
        decreases classes@.len() - i,
    {
        if classes[i] == c {
            assert(classes@[i as int] == c);
            return true;
        }
        i += 1;
    }
    false
}

impl TerminalFallbackPolicy {
    /// Alacritty as the alternate core, tracking IME, wrapping and ANSI edge fixtures, after
    /// two consecutive milestones.
    pub fn baseline() -> (r: Self)
        ensures
            r.alternate_state_core == TerminalStateCore::AlacrittyTerminal,
            r.tracked_failure_classes@ == seq![
                TerminalFidelityClass::Ime,
                TerminalFidelityClass::Wrapping,
                TerminalFidelityClass::AnsiEdgeFixtures,
            ],
            r.consecutive_milestones_required == 2,
    {
        let mut watched = Vec::new();
        watched.push(TerminalFidelityClass::Ime);
        watched.push(TerminalFidelityClass::Wrapping);
        watched.push(TerminalFidelityClass::AnsiEdgeFixtures);
        proof {
            assert(watched@ =~= seq![
                TerminalFidelityClass::Ime,
                TerminalFidelityClass::Wrapping,
                TerminalFidelityClass::AnsiEdgeFixtures,
            ]);
        }
        TerminalFallbackPolicy {
            alternate_state_core: TerminalStateCore::AlacrittyTerminal,
            tracked_failure_classes: watched,
            consecutive_milestones_required: 2,
        }
    }

    /// True when there are at least `consecutive_milestones_required` milestones and some
    /// watched class failed at two consecutive milestones.
    pub fn should_evaluate_alternate_state_core(&self, milestones: &[MilestoneFidelityResult]) -> (r:
        bool)
        ensures
            r == should_evaluate_spec(*self, milestones@),
    {
        if (self.consecutive_milestones_required as usize) > milestones.len() {
            return false;
        }
        let n = milestones.len();
        if n < 2 {
            proof {
                assert forall|i: int|
                    !#[trigger] fails_twice_at(
                        self.tracked_failure_classes@,
                        milestones@,
                        i,
                    ) by {}
            }
            return false;
        }
        let mut i: usize = 0;
        while i + 1 < n
            invariant
                n == milestones@.len(),
                n >= 2,
                i + 1 <= n,
                self.consecutive_milestones_required <= n,
                forall|k: int|
                    0 <= k < i ==> !#[trigger] fails_twice_at(
                        self.tracked_failure_classes@,
                        milestones@,
                        k,
                    ),
            decreases n - i,
        {
            let first = &milestones[i].failed_classes;
            let second = &milestones[i + 1].failed_classes;
            let mut j: usize = 0;
            while j < first.len()
                invariant
                    i + 1 < n,
                    n == milestones@.len(),
                    self.consecutive_milestones_required <= n,
                    *first == milestones@[i as int].failed_classes,
                    *second == milestones@[i + 1].failed_classes,
                    j <= first@.len(),
                    forall|k: int|
                        0 <= k < j ==> !(self.tracked_failure_classes@.contains(first@[k])
                            && second@.contains(first@[k])),
                decreases first@.len() - j,
            {
                let c = first[j];
                if class_in(&self.tracked_failure_classes, c) && class_in(second, c) {
                    assert(first@.contains(c)) by {
                        assert(first@[j as int] == c);
                    }
                    assert(fails_twice_at(self.tracked_failure_classes@, milestones@, i as int));
                    return true;
                }
                j += 1;
            }
            proof {
                assert(!fails_twice_at(self.tracked_failure_classes@, milestones@, i as int)) by {
                    assert forall|c: TerminalFidelityClass|
                        milestones@[i as int].failed_classes@.contains(c) implies !(
                        self.tracked_failure_classes@.contains(c) && milestones@[i
                            + 1].failed_classes@.contains(c)) by {
                        let k = choose|k: int| 0 <= k < first@.len() && first@[k] == c;
                        assert(0 <= k < j);
                    }
                }
            }
            i += 1;
        }
        proof {
            assert forall|k: int|
                !#[trigger] fails_twice_at(self.tracked_failure_classes@, milestones@, k) by {
                if 0 <= k < i {
                }
            }
        }
        false
    }
}

#[derive(Debug, Clone, Copy, PartialEq, Eq, Structural)]
pub enum TerminalNamedKey {
    Ctrl,
    Escape,
    Tab,
    ArrowUp,
    ArrowDown,
    ArrowLeft,
    ArrowRight,
    Enter,
}

/// The eight named keys, in the order the capabilities list them.
pub open spec fn all_named_keys() -> Seq<TerminalNamedKey> {
    seq![
        TerminalNamedKey::Ctrl,
        TerminalNamedKey::Escape,
        TerminalNamedKey::Tab,
        TerminalNamedKey::ArrowUp,
        TerminalNamedKey::ArrowDown,
        TerminalNamedKey::ArrowLeft,
        TerminalNamedKey::ArrowRight,
        TerminalNamedKey::Enter,
    ]
}

/// The eight named keys, in the order the capabilities list them.
pub fn named_key_list() -> (r: Vec<TerminalNamedKey>)
    ensures
        r@ == all_named_keys(),
{
    let mut v = Vec::new();
    v.push(TerminalNamedKey::Ctrl);
    v.push(TerminalNamedKey::Escape);
    v.push(TerminalNamedKey::Tab);
    v.push(TerminalNamedKey::ArrowUp);
    v.push(TerminalNamedKey::ArrowDown);
    v.push(TerminalNamedKey::ArrowLeft);
    v.push(TerminalNamedKey::ArrowRight);
    v.push(TerminalNamedKey::Enter);
    proof {
        assert(v@ =~= all_named_keys());
    }
    v
}

/// What kinds of input a surface accepts.
#[derive(Debug, Clone, PartialEq, Eq)]
pub struct TerminalInputCapabilities {
    pub text: bool,
    pub paste: bool,
    pub resize: bool,
    pub ctrl_character_chords: bool,
    pub alt_prefix: bool,
    pub named_keys: Vec<TerminalNamedKey>,
}

impl TerminalInputCapabilities {
    /// Every kind of input, and all eight named keys.
    pub fn baseline() -> (r: Self)
        ensures
            r.text && r.paste && r.resize && r.ctrl_character_chords && r.alt_prefix,
            r.named_keys@ == all_named_keys(),
    {
        TerminalInputCapabilities {
            text: true,
            paste: true,
            resize: true,
            ctrl_character_chords: true,
            alt_prefix: true,
            named_keys: named_key_list(),
        }
    }
}

#[derive(Debug, Clone, Copy, PartialEq, Eq, Structural)]
pub struct TerminalCursor {
    pub row: u16,
    pub col: u16,
    pub visible: bool,
}

#[derive(Debug, Clone, Copy, PartialEq, Eq, Structural)]
pub struct TerminalModes {
    pub application_cursor: bool,
    pub application_keypad: bool,
    pub bracketed_paste: bool,
    pub alternate_screen: bool,
}

/// How many escape-parser events of each kind a stream held.
#[derive(Debug, Clone, Copy, PartialEq, Eq, Structural)]
pub struct EscapeSequenceMetrics {
    pub print: usize,
    pub execute: usize,
    pub csi: usize,
    pub esc: usize,
    pub osc: usize,
    pub dcs: usize,
}

impl Default for EscapeSequenceMetrics {
    fn default() -> (r: Self)
        ensures
            r == (EscapeSequenceMetrics { print: 0, execute: 0, csi: 0, esc: 0, osc: 0, dcs: 0 }),
    {
        EscapeSequenceMetrics { print: 0, execute: 0, csi: 0, esc: 0, osc: 0, dcs: 0 }
    }
}

/// One event of the escape-sequence parser.
#[derive(Debug, Clone, Copy, PartialEq, Eq, Structural)]
pub enum EscapeEvent {
    Print,
    Execute,
    Csi,
    Esc,
    Osc,
    Dcs,
}

/// The count that an event of kind `event` adds to.
pub open spec fn event_count(m: EscapeSequenceMetrics, event: EscapeEvent) -> usize {
    match event {
        EscapeEvent::Print => m.print,
        EscapeEvent::Execute => m.execute,
        EscapeEvent::Csi => m.csi,
        EscapeEvent::Esc => m.esc,
        EscapeEvent::Osc => m.osc,
        EscapeEvent::Dcs => m.dcs,
    }
}

impl EscapeSequenceMetrics {
    /// Counts one parser event: the count of its kind grows by one, the others stay.
    pub fn record(&mut self, event: EscapeEvent)
        requires
            event_count(*old(self), event) < usize::MAX,
        ensures
            event_count(*final(self), event) == event_count(*old(self), event) + 1,
            forall|other: EscapeEvent|
                other != event ==> event_count(*final(self), other) == event_count(*old(self), other),
    {
        match event {
            EscapeEvent::Print => self.print = self.print + 1,
            EscapeEvent::Execute => self.execute = self.execute + 1,
            EscapeEvent::Csi => self.csi = self.csi + 1,
            EscapeEvent::Esc => self.esc = self.esc + 1,
            EscapeEvent::Osc => self.osc = self.osc + 1,
            EscapeEvent::Dcs => self.dcs = self.dcs + 1,
        }
    }
}

/// How many events of kind `kind` a run of events holds.
pub open spec fn count_of(events: Seq<EscapeEvent>, kind: EscapeEvent) -> nat
    decreases events.len(),
{
    if events.len() == 0 {
        0
    } else {
        count_of(events.drop_last(), kind) + if events.last() == kind {
            1nat
        } else {
            0nat
        }
    }
}

/// The counts after a run of events: each kind's count grows by its number of events.
pub open spec fn counts_after(m: EscapeSequenceMetrics, events: Seq<EscapeEvent>) -> bool {
    forall|k: EscapeEvent| #[trigger] event_count(m, k) + count_of(events, k) <= usize::MAX
}

/// The counts `m` grown by the events of a run.
pub open spec fn with_events(m: EscapeSequenceMetrics, events: Seq<EscapeEvent>) -> EscapeSequenceMetrics {
    EscapeSequenceMetrics {
        print: (m.print + count_of(events, EscapeEvent::Print)) as usize,
        execute: (m.execute + count_of(events, EscapeEvent::Execute)) as usize,
        csi: (m.csi + count_of(events, EscapeEvent::Csi)) as usize,
        esc: (m.esc + count_of(events, EscapeEvent::Esc)) as usize,
        osc: (m.osc + count_of(events, EscapeEvent::Osc)) as usize,
        dcs: (m.dcs + count_of(events, EscapeEvent::Dcs)) as usize,
    }
}

proof fn lemma_count_of_bounded(events: Seq<EscapeEvent>, kind: EscapeEvent)
    ensures
        count_of(events, kind) <= events.len(),
    decreases events.len(),
{
    if events.len() > 0 {
        lemma_count_of_bounded(events.drop_last(), kind);
    }
}

proof fn lemma_count_of_prefix(events: Seq<EscapeEvent>, i: int, kind: EscapeEvent)
    requires
        0 <= i < events.len(),
    ensures
        count_of(events.take(i + 1), kind) == count_of(events.take(i), kind) + if events[i]
            == kind {
            1nat
        } else {
            0nat
        },
        count_of(events.take(i + 1), kind) <= count_of(events, kind),
    decreases events.len() - i,
{
    assert(events.take(i + 1).drop_last() =~= events.take(i));
    if i + 1 < events.len() {
        lemma_count_of_prefix(events, i + 1, kind);
    } else {
        assert(events.take(i + 1) =~= events);
    }
}

proof fn lemma_metrics_by_counts(a: EscapeSequenceMetrics, b: EscapeSequenceMetrics)
    requires
        forall|k: EscapeEvent| #[trigger] event_count(a, k) == event_count(b, k),
    ensures
        a == b,
{
    assert(event_count(a, EscapeEvent::Print) == event_count(b, EscapeEvent::Print));
    assert(event_count(a, EscapeEvent::Execute) == event_count(b, EscapeEvent::Execute));
    assert(event_count(a, EscapeEvent::Csi) == event_count(b, EscapeEvent::Csi));
    assert(event_count(a, EscapeEvent::Esc) == event_count(b, EscapeEvent::Esc));
    assert(event_count(a, EscapeEvent::Osc) == event_count(b, EscapeEvent::Osc));
    assert(event_count(a, EscapeEvent::Dcs) == event_count(b, EscapeEvent::Dcs));
}

impl EscapeSequenceMetrics {
    /// Counts a run of parser events, in order.
    pub fn record_all(&mut self, events: &[EscapeEvent])
        requires
            counts_after(*old(self), events@),
        ensures
            *final(self) == with_events(*old(self), events@),
    {
        let ghost start = *self;
        let mut i: usize = 0;
        proof {
            assert(events@.take(0) =~= Seq::<EscapeEvent>::empty());
        }
        while i < events.len()
            invariant
                i <= events@.len(),
                counts_after(start, events@),
                *self == with_events(start, events@.take(i as int)),
            decreases events@.len() - i,
        {
            let event = events[i];
            let ghost before = *self;
            proof {
                lemma_count_of_prefix(events@, i as int, event);
                assert(event_count(start, event) + count_of(events@, event) <= usize::MAX);
                assert(event_count(before, event) == event_count(start, event) + count_of(
                    events@.take(i as int),
                    event,
                ));
            }
            self.record(event);
            proof {
                let target = with_events(start, events@.take(i + 1));
                assert forall|k: EscapeEvent| #[trigger] event_count(*self, k) == event_count(target, k) by {
                    lemma_count_of_prefix(events@, i as int, k);
                    assert(event_count(before, k) == event_count(start, k) + count_of(
                        events@.take(i as int),
                        k,
                    ));
                    lemma_count_of_bounded(events@, k);
                }
                lemma_metrics_by_counts(*self, target);
            }
            i += 1;
        }
        proof {
            assert(events@.take(i as int) =~= events@);
        }
    }
}

/// No events counted yet.
pub open spec fn zero_metrics() -> EscapeSequenceMetrics {
    EscapeSequenceMetrics { print: 0, execute: 0, csi: 0, esc: 0, osc: 0, dcs: 0 }
}

/// Any run of events that a slice can hold can be counted from zero.
pub proof fn lemma_counts_after_zero(events: Seq<EscapeEvent>)
    requires
        events.len() <= usize::MAX,
    ensures
        counts_after(zero_metrics(), events),
{
    assert forall|k: EscapeEvent| #[trigger] event_count(zero_metrics(), k) + count_of(events, k)
        <= usize::MAX by {
        lemma_count_of_bounded(events, k);
    }
}

#[derive(Debug, Clone, Copy)]
pub enum TerminalColor {
    Default,
    Indexed(u8),
    Rgb([u8; 3]),
}

/// A color, with the three channels of an RGB color spelled out.
pub enum TerminalColorView {
    Default,
    Indexed(u8),
    Rgb(u8, u8, u8),
}

impl View for TerminalColor {
    type V = TerminalColorView;

    open spec fn view(&self) -> TerminalColorView {
        match self {
            TerminalColor::Default => TerminalColorView::Default,
            TerminalColor::Indexed(i) => TerminalColorView::Indexed(*i),
            TerminalColor::Rgb(c) => TerminalColorView::Rgb(c@[0], c@[1], c@[2]),
        }
    }
}

impl PartialEq for TerminalColor {
    fn eq(&self, other: &Self) -> (r: bool) {
        match (self, other) {
            (TerminalColor::Default, TerminalColor::Default) => true,
            (TerminalColor::Indexed(a), TerminalColor::Indexed(b)) => *a == *b,
            (TerminalColor::Rgb(a), TerminalColor::Rgb(b)) => a[0] == b[0] && a[1] == b[1] && a[2]
                == b[2],
            _ => false,
        }
    }
}

impl vstd::std_specs::cmp::PartialEqSpecImpl for TerminalColor {
    open spec fn obeys_eq_spec() -> bool {
        true
    }

    open spec fn eq_spec(&self, other: &Self) -> bool {
        self@ == other@
    }
}

impl Eq for TerminalColor {

}

/// One cell of a terminal line.
#[derive(Debug, Clone, PartialEq, Eq)]
pub struct TerminalCell {
    pub column: u16,
    pub text: String,
    pub column_span: u8,
    pub unicode_width: u8,
    pub grapheme_count: u8,
    pub is_wide: bool,
    pub is_wide_continuation: bool,
    pub foreground: TerminalColor,
    pub background: TerminalColor,
    pub bold: bool,
    pub italic: bool,
    pub underline: bool,
    pub inverse: bool,
}

pub struct TerminalCellView {
    pub column: u16,
    pub text: Seq<char>,
    pub column_span: u8,
    pub unicode_width: u8,
    pub grapheme_count: u8,
    pub is_wide: bool,
    pub is_wide_continuation: bool,
    pub foreground: TerminalColorView,
    pub background: TerminalColorView,
    pub bold: bool,
    pub italic: bool,
    pub underline: bool,
    pub inverse: bool,
}

impl View for TerminalCell {
    type V = TerminalCellView;

    open spec fn view(&self) -> TerminalCellView {
        TerminalCellView {
            column: self.column,
            text: self.text@,
            column_span: self.column_span,
            unicode_width: self.unicode_width,
            grapheme_count: self.grapheme_count,
            is_wide: self.is_wide,
            is_wide_continuation: self.is_wide_continuation,
            foreground: self.foreground@,
            background: self.background@,
            bold: self.bold,
            italic: self.italic,
            underline: self.underline,
            inverse: self.inverse,
        }
    }
}

/// One row of a terminal screen.
#[derive(Debug, Clone, PartialEq, Eq)]
pub struct TerminalLine {
    pub row: u16,
    pub wrapped: bool,
    pub cells: Vec<TerminalCell>,
}

pub struct TerminalLineView {
    pub row: u16,
    pub wrapped: bool,
    pub cells: Seq<TerminalCellView>,
}

pub open spec fn cells_view(cells: Seq<TerminalCell>) -> Seq<TerminalCellView> {
    cells.map_values(|c: TerminalCell| c@)
}

impl View for TerminalLine {
    type V = TerminalLineView;

    open spec fn view(&self) -> TerminalLineView {
        TerminalLineView { row: self.row, wrapped: self.wrapped, cells: cells_view(self.cells@) }
    }
}

pub open spec fn lines_view(lines: Seq<TerminalLine>) -> Seq<TerminalLineView> {
    lines.map_values(|l: TerminalLine| l@)
}

/// A full picture of a terminal: its size, cursor, modes, visible lines and scrollback.
#[derive(Debug, Clone, PartialEq, Eq)]
pub struct TerminalSnapshot {
    pub rows: u16,
    pub cols: u16,
    pub cursor: TerminalCursor,
    pub modes: TerminalModes,
    pub escape_sequence_metrics: EscapeSequenceMetrics,
    pub lines: Vec<TerminalLine>,
    pub scrollback: Vec<TerminalLine>,
    pub plain_text: String,
}

/// One update of a terminal stream: the lines that changed since the last frame.
#[derive(Debug, Clone, PartialEq, Eq)]
pub struct TerminalStreamFrame {
    pub session_id: String,
    pub sequence: u64,
    pub rows: u16,
    pub cols: u16,
    pub cursor: TerminalCursor,
    pub modes: TerminalModes,
    pub escape_sequence_metrics: EscapeSequenceMetrics,
    pub lines: Vec<TerminalLine>,
}

/// What a client is told about a session's terminal when it attaches.
#[derive(Debug, Clone, PartialEq, Eq)]
pub struct TerminalSurfaceState {
    pub session_id: String,
    pub stack: TerminalStack,
    pub fallback_policy: TerminalFallbackPolicy,
    pub input_capabilities: TerminalInputCapabilities,
    pub snapshot: TerminalSnapshot,
}

impl TerminalSurfaceState {
    /// The baseline stack, policy and capabilities around a session's snapshot.
    pub fn baseline(session_id: String, snapshot: TerminalSnapshot) -> (r: Self)
        ensures
            r.session_id@ == session_id@,
            r.snapshot == snapshot,
            r.stack.escape_parser@ == "vte"@,
            r.stack.state_core == TerminalStateCore::Vt100,
            r.stack.width_engine@ == "unicode-width"@,
            r.stack.grapheme_engine@ == "unicode-segmentation"@,
            r.fallback_policy.alternate_state_core == TerminalStateCore::AlacrittyTerminal,
            r.fallback_policy.tracked_failure_classes@ == seq![
                TerminalFidelityClass::Ime,
                TerminalFidelityClass::Wrapping,
                TerminalFidelityClass::AnsiEdgeFixtures,
            ],
            r.fallback_policy.consecutive_milestones_required == 2,
            r.input_capabilities.text && r.input_capabilities.paste && r.input_capabilities.resize
                && r.input_capabilities.ctrl_character_chords && r.input_capabilities.alt_prefix,
            r.input_capabilities.named_keys@ == all_named_keys(),
    {
        TerminalSurfaceState {
            session_id,
            stack: TerminalStack::baseline(),
            fallback_policy: TerminalFallbackPolicy::baseline(),
            input_capabilities: TerminalInputCapabilities::baseline(),
            snapshot,
        }
    }
}

/// A copy of a cell.
pub fn clone_cell(c: &TerminalCell) -> (r: TerminalCell)
    ensures
        r@ == c@,
{
    TerminalCell {
        column: c.column,
        text: c.text.clone(),
        column_span: c.column_span,
        unicode_width: c.unicode_width,
        grapheme_count: c.grapheme_count,
        is_wide: c.is_wide,
        is_wide_continuation: c.is_wide_continuation,
        foreground: c.foreground,
        background: c.background,
        bold: c.bold,
        italic: c.italic,
        underline: c.underline,
        inverse: c.inverse,
    }
}

/// A copy of a line's cells.
pub fn clone_cells(cells: &Vec<TerminalCell>) -> (r: Vec<TerminalCell>)
    ensures
        cells_view(r@) == cells_view(cells@),
{
    let mut r: Vec<TerminalCell> = Vec::new();
    let mut i: usize = 0;
    while i < cells.len()
        invariant
            i <= cells@.len(),
            cells_view(r@) == cells_view(cells@.take(i as int)),
        decreases cells@.len() - i,
    {
        let c = clone_cell(&cells[i]);
        let ghost before = r@;
        r.push(c);
        proof {
            assert(cells@.take(i + 1) =~= cells@.take(i as int).push(cells@[i as int]));
            assert(cells_view(r@) =~= cells_view(before).push(c@));
            assert(cells_view(cells@.take(i + 1)) =~= cells_view(cells@.take(i as int)).push(
                cells@[i as int]@,
            ));
        }
        i += 1;
    }
    proof {
        assert(cells@.take(i as int) =~= cells@);
    }
    r
}

/// A copy of a line.
pub fn clone_line(l: &TerminalLine) -> (r: TerminalLine)
    ensures
        r@ == l@,
{
    TerminalLine { row: l.row, wrapped: l.wrapped, cells: clone_cells(&l.cells) }
}

/// A copy of a run of lines.
pub fn clone_lines(lines: &Vec<TerminalLine>) -> (r: Vec<TerminalLine>)
    ensures
        lines_view(r@) == lines_view(lines@),
{
    let mut r: Vec<TerminalLine> = Vec::new();
    let mut i: usize = 0;
    while i < lines.len()
        invariant
            i <= lines@.len(),
            lines_view(r@) == lines_view(lines@.take(i as int)),
        decreases lines@.len() - i,
    {
        let l = clone_line(&lines[i]);
        let ghost before = r@;
        r.push(l);
        proof {
            assert(lines@.take(i + 1) =~= lines@.take(i as int).push(lines@[i as int]));
            assert(lines_view(r@) =~= lines_view(before).push(l@));
            assert(lines_view(lines@.take(i + 1)) =~= lines_view(lines@.take(i as int)).push(
                lines@[i as int]@,
            ));
        }
        i += 1;
    }
    proof {
        assert(lines@.take(i as int) =~= lines@);
    }
    r
}

/// Whether two cells hold the same values.
pub fn cell_eq(a: &TerminalCell, b: &TerminalCell) -> (r: bool)
    ensures
        r == (a@ == b@),
{
    a.column == b.column && a.text == b.text && a.column_span == b.column_span && a.unicode_width
        == b.unicode_width && a.grapheme_count == b.grapheme_count && a.is_wide == b.is_wide
        && a.is_wide_continuation == b.is_wide_continuation && a.foreground == b.foreground
        && a.background == b.background && a.bold == b.bold && a.italic == b.italic && a.underline
        == b.underline && a.inverse == b.inverse
}

/// Whether two lines hold the same values.
pub fn line_eq(a: &TerminalLine, b: &TerminalLine) -> (r: bool)
    ensures
        r == (a@ == b@),
{
    if a.row != b.row || a.wrapped != b.wrapped || a.cells.len() != b.cells.len() {
        proof {
            assert(a@.cells.len() == a.cells@.len());
            assert(b@.cells.len() == b.cells@.len());
        }
        return false;
    }
    let mut i: usize = 0;
    while i < a.cells.len()
        invariant
            i <= a.cells@.len(),
            a.cells@.len() == b.cells@.len(),
            forall|k: int| 0 <= k < i ==> a.cells@[k]@ == b.cells@[k]@,
        decreases a.cells@.len() - i,
    {
        if !cell_eq(&a.cells[i], &b.cells[i]) {
            assert(cells_view(a.cells@)[i as int] != cells_view(b.cells@)[i as int]);
            return false;
        }
        i += 1;
    }
    assert(cells_view(a.cells@) =~= cells_view(b.cells@));
    true
}

/// The first line of `lines` on row `row`.
pub open spec fn find_row(lines: Seq<TerminalLineView>, row: u16) -> Option<TerminalLineView>
    decreases lines.len(),
{
    if lines.len() == 0 {
        None
    } else if lines[0].row == row {
        Some(lines[0])
    } else {
        find_row(lines.drop_first(), row)
    }
}

/// The lines of `current` that differ from the line on the same row of `previous`
/// (or have no such line), in order.
pub open spec fn changed_lines(current: Seq<TerminalLineView>, previous: Seq<TerminalLineView>) -> Seq<
    TerminalLineView,
>
    decreases current.len(),
{
    if current.len() == 0 {
        seq![]
    } else {
        let rest = changed_lines(current.drop_last(), previous);
        let line = current.last();
        if find_row(previous, line.row) == Some(line) {
            rest
        } else {
            rest.push(line)
        }
    }
}

/// The lines a diff frame carries.
pub open spec fn diff_lines_spec(current: TerminalSnapshot, previous: Option<TerminalSnapshot>) -> Seq<
    TerminalLineView,
> {
    match previous {
        None => lines_view(current.lines@),
        Some(p) => if p.rows != current.rows || p.cols != current.cols {
            lines_view(current.lines@)
        } else {
            changed_lines(lines_view(current.lines@), lines_view(p.lines@))
        },
    }
}

/// A frame with no previous snapshot, or whose previous snapshot has another number of rows
/// or columns, carries every line of the current snapshot, in order.
pub proof fn lemma_resized_frames_resend_every_line(
    current: TerminalSnapshot,
    previous: Option<TerminalSnapshot>,
)
    requires
        previous is None || previous->0.rows != current.rows || previous->0.cols != current.cols,
    ensures
        diff_lines_spec(current, previous).len() == current.lines@.len(),
        forall|i: int|
            0 <= i < current.lines@.len() ==> #[trigger] diff_lines_spec(current, previous)[i]
                == current.lines@[i]@,
{
}

/// No two lines share a row.
pub open spec fn distinct_rows(lines: Seq<TerminalLineView>) -> bool {
    forall|i: int, k: int| 0 <= i < k < lines.len() ==> lines[i].row != lines[k].row
}

proof fn lemma_find_row_at(lines: Seq<TerminalLineView>, i: int)
    requires
        distinct_rows(lines),
        0 <= i < lines.len(),
    ensures
        find_row(lines, lines[i].row) == Some(lines[i]),
    decreases i,
{
    if i > 0 {
        assert(lines[0].row != lines[i].row);
        let rest = lines.drop_first();
        assert(rest[i - 1] == lines[i]);
        lemma_find_row_at(rest, i - 1);
    }
}

/// What a diff frame carries: every line of `current` that is not the same as the line on
/// its row in `previous` is carried, and every carried line is such a line of `current`.
pub proof fn lemma_changed_lines_exact(current: Seq<TerminalLineView>, previous: Seq<TerminalLineView>)
    ensures
        forall|i: int|
            0 <= i < current.len() ==> (find_row(previous, (#[trigger] current[i]).row) == Some(
                current[i],
            ) || changed_lines(current, previous).contains(current[i])),
        forall|k: int|
            0 <= k < changed_lines(current, previous).len() ==> current.contains(
                #[trigger] changed_lines(current, previous)[k],
            ) && find_row(previous, changed_lines(current, previous)[k].row) != Some(
                changed_lines(current, previous)[k],
            ),
    decreases current.len(),
{
    if current.len() > 0 {
        let init = current.drop_last();
        let line = current.last();
        lemma_changed_lines_exact(init, previous);
        let rest = changed_lines(init, previous);
        assert forall|i: int|
            0 <= i < current.len() implies (find_row(previous, (#[trigger] current[i]).row) == Some(
            current[i],
        ) || changed_lines(current, previous).contains(current[i])) by {
            if i < current.len() - 1 {
                assert(init[i] == current[i]);
                if rest.contains(current[i]) {
                    let k = choose|k: int| 0 <= k < rest.len() && rest[k] == current[i];
                    if find_row(previous, line.row) != Some(line) {
                        assert(changed_lines(current, previous)[k] == current[i]);
                    }
                }
            } else if find_row(previous, line.row) != Some(line) {
                assert(changed_lines(current, previous)[rest.len() as int] == line);
            }
        }
        assert forall|k: int|
            0 <= k < changed_lines(current, previous).len() implies current.contains(
            #[trigger] changed_lines(current, previous)[k],
        ) && find_row(previous, changed_lines(current, previous)[k].row) != Some(
            changed_lines(current, previous)[k],
        ) by {
            let c = changed_lines(current, previous);
            if k < rest.len() {
                assert(c[k] == rest[k]);
                let j = choose|j: int| 0 <= j < init.len() && init[j] == rest[k];
                assert(current[j] == init[j]);
            } else {
                assert(c[k] == line);
                assert(current[current.len() - 1] == line);
            }
        }
    }
}

proof fn lemma_changed_lines_none(current: Seq<TerminalLineView>, previous: Seq<TerminalLineView>)
    requires
        forall|i: int|
            0 <= i < current.len() ==> find_row(previous, (#[trigger] current[i]).row) == Some(
                current[i],
            ),
    ensures
        changed_lines(current, previous) == Seq::<TerminalLineView>::empty(),
    decreases current.len(),
{
    if current.len() > 0 {
        let init = current.drop_last();
        assert forall|i: int| 0 <= i < init.len() implies find_row(
            previous,
            (#[trigger] init[i]).row,
        ) == Some(init[i]) by {
            assert(init[i] == current[i]);
        }
        lemma_changed_lines_none(init, previous);
        assert(find_row(previous, current[current.len() - 1].row) == Some(
            current[current.len() - 1],
        ));
    }
}

/// A snapshot diffed against the same lines carries no line, as long as no two of its lines
/// share a row.
pub proof fn lemma_diff_against_same_is_empty(lines: Seq<TerminalLineView>)
    requires
        distinct_rows(lines),
    ensures
        changed_lines(lines, lines) == Seq::<TerminalLineView>::empty(),
{
    assert forall|i: int| 0 <= i < lines.len() implies find_row(
        lines,
        (#[trigger] lines[i]).row,
    ) == Some(lines[i]) by {
        lemma_find_row_at(lines, i);
    }
    lemma_changed_lines_none(lines, lines);
}

proof fn lemma_find_row_found(lines: Seq<TerminalLineView>, row: u16)
    ensures
        match find_row(lines, row) {
            Some(l) => lines.contains(l) && l.row == row,
            None => forall|k: int| 0 <= k < lines.len() ==> (#[trigger] lines[k]).row != row,
        },
    decreases lines.len(),
{
    if lines.len() > 0 {
        let rest = lines.drop_first();
        lemma_find_row_found(rest, row);
        if lines[0].row == row {
            assert(lines[0] == lines[0]);
        } else {
            match find_row(rest, row) {
                Some(l) => {
                    let k = choose|k: int| 0 <= k < rest.len() && rest[k] == l;
                    assert(lines[k + 1] == l);
                },
                None => {
                    assert forall|k: int| 0 <= k < lines.len() implies (#[trigger] lines[k]).row
                        != row by {
                        if k > 0 {
                            assert(lines[k] == rest[k - 1]);
                        }
                    }
                },
            }
        }
    }
}

/// A client's lines after a frame: each line is replaced by the frame's line on its row, if
/// the frame carries one.
pub open spec fn apply_frame_lines(previous: Seq<TerminalLineView>, frame: Seq<TerminalLineView>) -> Seq<
    TerminalLineView,
> {
    previous.map_values(
        |p: TerminalLineView|
            match find_row(frame, p.row) {
                Some(l) => l,
                None => p,
            },
    )
}

/// The rows of a run of lines, in order.
pub open spec fn rows_of(lines: Seq<TerminalLineView>) -> Seq<u16> {
    lines.map_values(|l: TerminalLineView| l.row)
}

/// A diff frame brings a client from the previous lines to the current ones: applying the
/// changed lines to the previous lines gives the current lines, when both hold the same rows
/// in the same order and no row twice.
pub proof fn lemma_diff_frame_reconstructs(current: Seq<TerminalLineView>, previous: Seq<TerminalLineView>)
    requires
        distinct_rows(previous),
        rows_of(previous) == rows_of(current),
    ensures
        apply_frame_lines(previous, changed_lines(current, previous)) == current,
{
    let diff = changed_lines(current, previous);
    let out = apply_frame_lines(previous, diff);
    lemma_changed_lines_exact(current, previous);
    assert(rows_of(previous).len() == previous.len() && rows_of(current).len() == current.len());
    assert(previous.len() == current.len());
    assert forall|i: int| 0 <= i < current.len() implies out[i] == current[i] by {
        assert(rows_of(previous)[i] == previous[i].row);
        assert(rows_of(current)[i] == current[i].row);
        let r = current[i].row;
        assert(previous[i].row == r);
        lemma_find_row_at(previous, i);
        lemma_find_row_found(diff, r);
        match find_row(diff, r) {
            Some(l) => {
                let k = choose|k: int| 0 <= k < diff.len() && diff[k] == l;
                assert(current.contains(diff[k]));
                let j = choose|j: int| 0 <= j < current.len() && current[j] == diff[k];
                assert(rows_of(previous)[j] == previous[j].row);
                assert(rows_of(current)[j] == current[j].row);
                assert(previous[j].row == r);
                if j != i {
                    if j < i {
                        assert(previous[j].row != previous[i].row);
                    } else {
                        assert(previous[i].row != previous[j].row);
                    }
                }
                assert(current[j] == current[i]);
            },
            None => {
                if find_row(previous, current[i].row) != Some(current[i]) {
                    assert(diff.contains(current[i]));
                    let k = choose|k: int| 0 <= k < diff.len() && diff[k] == current[i];
                    assert(diff[k].row == r);
                }
            },
        }
    }
    assert(out =~= current);
}

/// Whether the line `line` of the current snapshot equals the first line on its row in
/// `previous`.
fn same_as_previous(previous: &Vec<TerminalLine>, line: &TerminalLine) -> (r: bool)
    ensures
        r == (find_row(lines_view(previous@), line.row) == Some(line@)),
{
    let mut i: usize = 0;
    proof {
        assert(lines_view(previous@).skip(0) =~= lines_view(previous@));
    }
    while i < previous.len()
        invariant
            i <= previous@.len(),
            find_row(lines_view(previous@), line.row) == find_row(
                lines_view(previous@).skip(i as int),
                line.row,
            ),
        decreases previous@.len() - i,
    {
        let ghost rest = lines_view(previous@).skip(i as int);
        proof {
            assert(rest[0] == previous@[i as int]@);
            assert(rest.drop_first() =~= lines_view(previous@).skip(i + 1));
        }
        if previous[i].row == line.row {
            return line_eq(&previous[i], line);
        }
        i += 1;
    }
    proof {
        assert(lines_view(previous@).skip(i as int).len() == 0);
    }
    false
}

/// Whether two runs of lines hold the same values.
pub fn lines_eq(a: &Vec<TerminalLine>, b: &Vec<TerminalLine>) -> (r: bool)
    ensures
        r == (lines_view(a@) == lines_view(b@)),
{
    if a.len() != b.len() {
        proof {
            assert(lines_view(a@).len() != lines_view(b@).len());
        }
        return false;
    }
    let mut i: usize = 0;
    while i < a.len()
        invariant
            i <= a@.len(),
            a@.len() == b@.len(),
            forall|k: int| 0 <= k < i ==> a@[k]@ == b@[k]@,
        decreases a@.len() - i,
    {
        if !line_eq(&a[i], &b[i]) {
            assert(lines_view(a@)[i as int] != lines_view(b@)[i as int]);
            return false;
        }
        i += 1;
    }
    assert(lines_view(a@) =~= lines_view(b@));
    true
}

/// Everything a snapshot shows, as values.
pub struct TerminalSnapshotView {
    pub rows: u16,
    pub cols: u16,
    pub cursor: TerminalCursor,
    pub modes: TerminalModes,
    pub escape_sequence_metrics: EscapeSequenceMetrics,
    pub lines: Seq<TerminalLineView>,
    pub scrollback: Seq<TerminalLineView>,
    pub plain_text: Seq<char>,
}

impl View for TerminalSnapshot {
    type V = TerminalSnapshotView;

    open spec fn view(&self) -> TerminalSnapshotView {
        TerminalSnapshotView {
            rows: self.rows,
            cols: self.cols,
            cursor: self.cursor,
            modes: self.modes,
            escape_sequence_metrics: self.escape_sequence_metrics,
            lines: lines_view(self.lines@),
            scrollback: lines_view(self.scrollback@),
            plain_text: self.plain_text@,
        }
    }
}

/// Whether two snapshots show the same thing.
pub fn snapshot_eq(a: &TerminalSnapshot, b: &TerminalSnapshot) -> (r: bool)
    ensures
        r == (a@ == b@),
{
    a.rows == b.rows && a.cols == b.cols && a.cursor == b.cursor && a.modes == b.modes
        && a.escape_sequence_metrics == b.escape_sequence_metrics && lines_eq(&a.lines, &b.lines)
        && lines_eq(&a.scrollback, &b.scrollback) && a.plain_text == b.plain_text
}

/// A copy of a snapshot.
pub fn clone_snapshot(s: &TerminalSnapshot) -> (r: TerminalSnapshot)
    ensures
        r@ == s@,
{
    TerminalSnapshot {
        rows: s.rows,
        cols: s.cols,
        cursor: s.cursor,
        modes: s.modes,
        escape_sequence_metrics: s.escape_sequence_metrics,
        lines: clone_lines(&s.lines),
        scrollback: clone_lines(&s.scrollback),
        plain_text: s.plain_text.clone(),
    }
}

impl TerminalSnapshot {
    /// This snapshot with its scrollback and plain text replaced.
    pub fn with_scrollback(self, scrollback: Vec<TerminalLine>, plain_text: String) -> (r: Self)
        ensures
            r == (TerminalSnapshot { scrollback, plain_text, ..self }),
    {
        let mut s = self;
        s.scrollback = scrollback;
        s.plain_text = plain_text;
        s
    }

    /// The stream frame numbered `sequence` that brings a client from `previous` to this
    /// snapshot: all lines when there is no previous snapshot or its size differs, else
    /// only the lines that differ from the previous line on the same row.
    pub fn diff_frame(&self, session_id: &str, sequence: u64, previous: Option<&Self>) -> (r:
        TerminalStreamFrame)
        ensures
            r.session_id@ == session_id@,
            r.sequence == sequence,
            r.rows == self.rows,
            r.cols == self.cols,
            r.cursor == self.cursor,
            r.modes == self.modes,
            r.escape_sequence_metrics == self.escape_sequence_metrics,
            lines_view(r.lines@) == diff_lines_spec(
                *self,
                match previous {
                    Some(p) => Some(*p),
                    None => None,
                },
            ),
            previous is None ==> lines_view(r.lines@) == lines_view(self.lines@),
            previous matches Some(p) && (p.rows != self.rows || p.cols != self.cols) ==> lines_view(
                r.lines@,
            ) == lines_view(self.lines@),
    {
        let lines = match previous {
            None => clone_lines(&self.lines),
            Some(p) => {
                if p.rows != self.rows || p.cols != self.cols {
                    clone_lines(&self.lines)
                } else {
                    let mut out: Vec<TerminalLine> = Vec::new();
                    let mut i: usize = 0;
                    while i < self.lines.len()
                        invariant
                            i <= self.lines@.len(),
                            lines_view(out@) == changed_lines(
                                lines_view(self.lines@.take(i as int)),
                                lines_view(p.lines@),
                            ),
                        decreases self.lines@.len() - i,
                    {
                        proof {
                            assert(lines_view(self.lines@.take(i + 1)).drop_last() =~= lines_view(
                                self.lines@.take(i as int),
                            ));
                            assert(lines_view(self.lines@.take(i + 1)).last()
                                == self.lines@[i as int]@);
                        }
                        if !same_as_previous(&p.lines, &self.lines[i]) {
                            let l = clone_line(&self.lines[i]);
                            let ghost before = out@;
                            out.push(l);
                            proof {
                                assert(lines_view(out@) =~= lines_view(before).push(l@));
                            }
                        }
                        i += 1;
                    }
                    proof {
                        assert(self.lines@.take(i as int) =~= self.lines@);
                    }
                    out
                }
            },
        };
        TerminalStreamFrame {
            session_id: owned(session_id),
            sequence,
            rows: self.rows,
            cols: self.cols,
            cursor: self.cursor,
            modes: self.modes,
            escape_sequence_metrics: self.escape_sequence_metrics,
            lines,
        }
    }
}

/// The row number of the `i`-th line after reindexing: its index, saturated at `u16::MAX`.
pub open spec fn reindexed_row(i: int) -> u16 {
    if i <= 65535 {
        i as u16
    } else {
        65535
    }
}

/// Copies of `lines` whose rows are renumbered from zero in order.
pub fn reindex_terminal_lines(lines: &[TerminalLine]) -> (r: Vec<TerminalLine>)
    ensures
        r@.len() == lines@.len(),
        forall|i: int|
            0 <= i < lines@.len() ==> (#[trigger] r@[i])@ == (TerminalLineView {
                row: reindexed_row(i),
                ..lines@[i]@
            }),
{
    let mut r: Vec<TerminalLine> = Vec::new();
    let mut i: usize = 0;
    while i < lines.len()
        invariant
            i <= lines@.len(),
            r@.len() == i,
            forall|k: int|
                0 <= k < i ==> (#[trigger] r@[k])@ == (TerminalLineView {
                    row: reindexed_row(k),
                    ..lines@[k]@
                }),
        decreases lines@.len() - i,
    {
        let row: u16 = if i <= 65535 {
            i as u16
        } else {
            65535
        };
        let line = TerminalLine {
            row,
            wrapped: lines[i].wrapped,
            cells: clone_cells(&lines[i].cells),
        };
        r.push(line);
        i += 1;
    }
    r
}

/// The lines above the last `visible_rows` lines of a snapshot, reindexed from row zero,
/// and the snapshot's plain text.
pub fn split_snapshot_scrollback(snapshot: &TerminalSnapshot, visible_rows: u16) -> (r: (
    Vec<TerminalLine>,
    String,
))
    ensures
        ({
            let split_at = if snapshot.lines@.len() > visible_rows {
                snapshot.lines@.len() - visible_rows
            } else {
                0
            };
            &&& r.0@.len() == split_at
            &&& forall|i: int|
                0 <= i < split_at ==> (#[trigger] r.0@[i])@ == (TerminalLineView {
                    row: reindexed_row(i),
                    ..snapshot.lines@[i]@
                })
        }),
        r.1@ == snapshot.plain_text@,
{
    let n = snapshot.lines.len();
    let split_at: usize = if n > visible_rows as usize {
        n - visible_rows as usize
    } else {
        0
    };
    let scrollback = reindex_terminal_lines(vstd::slice::slice_subrange(
        snapshot.lines.as_slice(),
        0,
        split_at,
    ));
    (scrollback, snapshot.plain_text.clone())
}

#[derive(Debug, Clone, PartialEq, Eq)]
pub enum TerminalKey {
    Named { key: TerminalNamedKey },
    Character { text: String },
}

pub enum TerminalKeyView {
    Named { key: TerminalNamedKey },
    Character { text: Seq<char> },
}

impl View for TerminalKey {
    type V = TerminalKeyView;

    open spec fn view(&self) -> TerminalKeyView {
        match self {
            TerminalKey::Named { key } => TerminalKeyView::Named { key: *key },
            TerminalKey::Character { text } => TerminalKeyView::Character { text: text@ },
        }
    }
}

/// One input event sent to a terminal.
#[derive(Debug, Clone, PartialEq, Eq)]
pub enum TerminalInputEvent {
    Text { text: String },
    Paste { text: String },
    Key { key: TerminalKey, ctrl: bool, alt: bool, shift: bool },
    Resize { rows: u16, cols: u16 },
}

pub enum TerminalInputEventView {
    Text { text: Seq<char> },
    Paste { text: Seq<char> },
    Key { key: TerminalKeyView, ctrl: bool, alt: bool, shift: bool },
    Resize { rows: u16, cols: u16 },
}

impl View for TerminalInputEvent {
    type V = TerminalInputEventView;

    open spec fn view(&self) -> TerminalInputEventView {
        match self {
            TerminalInputEvent::Text { text } => TerminalInputEventView::Text { text: text@ },
            TerminalInputEvent::Paste { text } => TerminalInputEventView::Paste { text: text@ },
            TerminalInputEvent::Key { key, ctrl, alt, shift } => TerminalInputEventView::Key {
                key: key@,
                ctrl: *ctrl,
                alt: *alt,
                shift: *shift,
            },
            TerminalInputEvent::Resize { rows, cols } => TerminalInputEventView::Resize {
                rows: *rows,
                cols: *cols,
            },
        }
    }
}

pub open spec fn events_view(events: Seq<TerminalInputEvent>) -> Seq<TerminalInputEventView> {
    events.map_values(|e: TerminalInputEvent| e@)
}

/// A batch of input events for one terminal.
#[derive(Debug, Clone, PartialEq, Eq)]
pub struct TerminalInputRequest {
    pub events: Vec<TerminalInputEvent>,
}

/// How many events of a batch were accepted.
#[derive(Debug, Clone, Copy, PartialEq, Eq, Structural)]
pub struct TerminalInputResponse {
    pub accepted_events: usize,
}

} // verus!

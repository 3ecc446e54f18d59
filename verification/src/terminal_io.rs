//! The surface contract of the tmux-capture renderer: the same snapshot and input types as
//! [`crate::terminal`], with a stack and fallback policy that name tmux capture.
use vstd::prelude::*;

use crate::text::owned;

pub use crate::terminal::{
    EscapeSequenceMetrics, TerminalCell, TerminalColor, TerminalCursor, TerminalInputCapabilities,
    TerminalInputEvent, TerminalInputRequest, TerminalInputResponse, TerminalKey, TerminalLine,
    TerminalModes, TerminalNamedKey, TerminalSnapshot,
};

verus! {

#[derive(Debug, Clone, Copy, PartialEq, Eq, Structural)]
pub enum TerminalStateCore {
    TmuxCapture,
}

/// The parsing and state engines that a surface is rendered with.
#[derive(Debug, Clone, PartialEq, Eq)]
pub struct TerminalStack {
    pub escape_parser: String,
    pub state_core: TerminalStateCore,
    pub width_engine: String,
    pub grapheme_engine: String,
}

impl TerminalStack {
    /// tmux capture for escapes and state, the browser for widths and graphemes.
    pub fn baseline() -> (r: Self)
        ensures
            r.escape_parser@ == "tmux-capture"@,
            r.state_core == TerminalStateCore::TmuxCapture,
            r.width_engine@ == "browser"@,
            r.grapheme_engine@ == "browser"@,
    {
        TerminalStack {
            escape_parser: owned("tmux-capture"),
            state_core: TerminalStateCore::TmuxCapture,
            width_engine: owned("browser"),
            grapheme_engine: owned("browser"),
        }
    }
}

/// When to evaluate an alternate state core.
#[derive(Debug, Clone, PartialEq, Eq)]
pub struct TerminalFallbackPolicy {
    pub alternate_state_core: TerminalStateCore,
    pub tracked_failure_classes: Vec<String>,
    pub consecutive_milestones_required: u8,
}

impl TerminalFallbackPolicy {
    /// No alternate core to move to: tmux capture itself, no tracked classes, one milestone.
    pub fn baseline() -> (r: Self)
        ensures
            r.alternate_state_core == TerminalStateCore::TmuxCapture,
            r.tracked_failure_classes@.len() == 0,
            r.consecutive_milestones_required == 1,
    {
        TerminalFallbackPolicy {
            alternate_state_core: TerminalStateCore::TmuxCapture,
            tracked_failure_classes: Vec::new(),
            consecutive_milestones_required: 1,
        }
    }
}

/// What a client is told about a session's terminal when it attaches.
#[derive(Debug, Clone, PartialEq, Eq)]
pub struct TerminalSurfaceState {
    pub session_id: String,
    pub stack: TerminalStack,
    pub fallback_policy: TerminalFallbackPolicy,
    pub input_capabilities: TerminalInputCapabilities,
    pub snapshot: TerminalSnapshot,
}

impl TerminalSurfaceState {
    /// The baseline stack, policy and capabilities around a session's snapshot.
    pub fn baseline(session_id: String, snapshot: TerminalSnapshot) -> (r: Self)
        ensures
            r.session_id@ == session_id@,
            r.snapshot == snapshot,
            r.stack.escape_parser@ == "tmux-capture"@,
            r.stack.state_core == TerminalStateCore::TmuxCapture,
            r.stack.width_engine@ == "browser"@,
            r.stack.grapheme_engine@ == "browser"@,
            r.fallback_policy.alternate_state_core == TerminalStateCore::TmuxCapture,
            r.fallback_policy.tracked_failure_classes@.len() == 0,
            r.fallback_policy.consecutive_milestones_required == 1,
            r.input_capabilities.text && r.input_capabilities.paste && r.input_capabilities.resize
                && r.input_capabilities.ctrl_character_chords && r.input_capabilities.alt_prefix,
            r.input_capabilities.named_keys@ == crate::terminal::all_named_keys(),
    {
        TerminalSurfaceState {
            session_id,
            stack: TerminalStack::baseline(),
            fallback_policy: TerminalFallbackPolicy::baseline(),
            input_capabilities: TerminalInputCapabilities::baseline(),
            snapshot,
        }
    }
}

/// A control message of the terminal stream (for example a resize).
#[derive(Debug, Clone, PartialEq, Eq)]
pub struct TerminalControlMessage {
    pub message_type: String,
    pub rows: Option<u16>,
    pub cols: Option<u16>,
}

} // verus!

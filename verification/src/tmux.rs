//! What the tmux runtime decides: how captured panes are normalized, how input events become
//! tmux commands, and how tmux's replies are read.
use vstd::prelude::*;

use crate::error::{bad_request_str, runtime_str, AppError, AppErrorView};
use crate::terminal::{
    events_view, TerminalCursor, TerminalInputEvent, TerminalInputEventView, TerminalInputResponse,
    TerminalKey, TerminalKeyView, TerminalNamedKey,
};
use crate::text::{
    chars_of, lines, lines_spec, owned, parse_i64, parse_int_spec, parse_u16, push_char,
    split_char, split_spec, str_eq, trim, trim_spec, views_of,
};

verus! {

// ---------------------------------------------------------------------------------------------
// Capture normalization
// ---------------------------------------------------------------------------------------------

/// A capture with a carriage return put before every line feed that lacks one.
pub open spec fn normalize_spec(s: Seq<u8>) -> Seq<u8>
    decreases s.len(),
{
    if s.len() == 0 {
        seq![]
    } else {
        let out = normalize_spec(s.drop_last());
        if s.last() == 10u8 && !(s.len() >= 2 && s[s.len() - 2] == 13u8) {
            out.push(13u8).push(10u8)
        } else {
            out.push(s.last())
        }
    }
}

/// Every line feed of `s` comes right after a carriage return.
pub open spec fn crlf_only(s: Seq<u8>) -> bool {
    forall|i: int| 0 <= i < s.len() && #[trigger] s[i] == 10u8 ==> i > 0 && s[i - 1] == 13u8
}

/// Inserts `\r` before each `\n` that does not already follow one, so that the capture
/// replays as terminal output.
pub fn normalize_tmux_capture_stream(bytes: &[u8]) -> (r: Vec<u8>)
    ensures
        r@ == normalize_spec(bytes@),
{
    let mut normalized: Vec<u8> = Vec::new();
    let mut previous: Option<u8> = None;
    let mut i: usize = 0;
    while i < bytes.len()
        invariant
            i <= bytes@.len(),
            normalized@ == normalize_spec(bytes@.take(i as int)),
            previous == (if i == 0 {
                None
            } else {
                Some(bytes@[i - 1])
            }),
        decreases bytes@.len() - i,
    {
        let byte = bytes[i];
        proof {
            let t = bytes@.take(i + 1);
            assert(t.drop_last() =~= bytes@.take(i as int));
            assert(t.last() == byte);
            if i >= 1 {
                assert(t[t.len() - 2] == bytes@[i - 1]);
            }
        }
        if byte == 10u8 && previous != Some(13u8) {
            normalized.push(13u8);
        }
        normalized.push(byte);
        previous = Some(byte);
        i += 1;
    }
    proof {
        assert(bytes@.take(i as int) =~= bytes@);
    }
    normalized
}

proof fn lemma_normalize_last(s: Seq<u8>)
    requires
        s.len() > 0,
    ensures
        normalize_spec(s).len() > 0,
        normalize_spec(s).last() == s.last(),
{
}

/// After normalization every line feed follows a carriage return.
pub proof fn lemma_normalized_is_crlf_only(s: Seq<u8>)
    ensures
        crlf_only(normalize_spec(s)),
    decreases s.len(),
{
    if s.len() > 0 {
        let p = s.drop_last();
        lemma_normalized_is_crlf_only(p);
        let out = normalize_spec(p);
        let full = normalize_spec(s);
        if p.len() > 0 {
            lemma_normalize_last(p);
        }
        assert forall|i: int| 0 <= i < full.len() && #[trigger] full[i] == 10u8 implies i > 0
            && full[i - 1] == 13u8 by {
            if i < out.len() {
                assert(full[i] == out[i]);
                assert(out[i - 1] == full[i - 1]);
            } else if s.last() == 10u8 && !(s.len() >= 2 && s[s.len() - 2] == 13u8) {
                if i == out.len() {
                    assert(full[i] == 13u8);
                }
            } else {
                assert(i == out.len());
                assert(p.len() >= 1);
                assert(s[s.len() - 2] == p.last());
            }
        }
    }
}

/// A capture whose line feeds all follow a carriage return is left as it is.
pub proof fn lemma_normalize_keeps_crlf_only(s: Seq<u8>)
    requires
        crlf_only(s),
    ensures
        normalize_spec(s) == s,
    decreases s.len(),
{
    if s.len() > 0 {
        let p = s.drop_last();
        assert(crlf_only(p)) by {
            assert forall|i: int| 0 <= i < p.len() && #[trigger] p[i] == 10u8 implies i > 0 && p[i
                - 1] == 13u8 by {
                assert(s[i] == p[i]);
                assert(s[i - 1] == p[i - 1]);
            }
        }
        lemma_normalize_keeps_crlf_only(p);
        if s.last() == 10u8 {
            assert(s[s.len() - 1] == 10u8);
            assert(s[s.len() - 2] == 13u8);
        }
        assert(normalize_spec(s) =~= s);
    }
}

/// Normalizing twice gives what normalizing once gives.
pub proof fn lemma_normalize_idempotent(s: Seq<u8>)
    ensures
        normalize_spec(normalize_spec(s)) == normalize_spec(s),
{
    lemma_normalized_is_crlf_only(s);
    lemma_normalize_keeps_crlf_only(normalize_spec(s));
}

/// The number of line feeds in `s`.
pub open spec fn count_lf(s: Seq<u8>) -> nat
    decreases s.len(),
{
    if s.len() == 0 {
        0
    } else {
        count_lf(s.drop_last()) + if s.last() == 10u8 {
            1nat
        } else {
            0nat
        }
    }
}

/// How many items `str::lines` yields on the UTF-8 decoding of `s`: a line per line feed,
/// and one more for text after the last line feed. Lossy decoding keeps every line feed, as
/// no malformed sequence swallows one.
pub open spec fn capture_line_count(s: Seq<u8>) -> nat {
    count_lf(s) + if s.len() > 0 && s.last() != 10u8 {
        1nat
    } else {
        0nat
    }
}

/// How many rows a terminal needs to hold a whole capture: its line count, at least one and
/// at least `minimum_rows`, at most `u16::MAX`.
pub open spec fn line_count_rows(s: Seq<u8>, minimum_rows: u16) -> u16 {
    let n = if capture_line_count(s) >= 1 {
        capture_line_count(s) as int
    } else {
        1
    };
    let m = if n >= minimum_rows {
        n
    } else {
        minimum_rows as int
    };
    if m <= 65535 {
        m as u16
    } else {
        65535
    }
}

pub fn tmux_capture_line_count(normalized: &[u8], minimum_rows: u16) -> (r: u16)
    ensures
        r == line_count_rows(normalized@, minimum_rows),
{
    let mut count: usize = 0;
    let mut i: usize = 0;
    while i < normalized.len()
        invariant
            i <= normalized@.len(),
            count == count_lf(normalized@.take(i as int)),
            count + (if i > 0 && normalized@[i - 1] != 10u8 {
                1int
            } else {
                0int
            }) <= i,
        decreases normalized@.len() - i,
    {
        proof {
            assert(normalized@.take(i + 1).drop_last() =~= normalized@.take(i as int));
        }
        if normalized[i] == 10u8 {
            count += 1;
        }
        i += 1;
    }
    proof {
        assert(normalized@.take(i as int) =~= normalized@);
    }
    let n = normalized.len();
    if n > 0 && normalized[n - 1] != 10u8 {
        count += 1;
    }
    let lines = if count >= 1 {
        count
    } else {
        1
    };
    let bounded = if lines >= minimum_rows as usize {
        lines
    } else {
        minimum_rows as usize
    };
    if bounded <= 65535 {
        bounded as u16
    } else {
        65535
    }
}

// ---------------------------------------------------------------------------------------------
// Key chords
// ---------------------------------------------------------------------------------------------

pub open spec fn bad_request_view(message: Seq<char>) -> AppErrorView {
    AppErrorView::BadRequest { code: "invalid_request"@, message }
}

pub open spec fn is_ascii_char(c: char) -> bool {
    (c as u32) < 128
}

pub open spec fn ascii_lowercase(c: char) -> char {
    if 'A' <= c && c <= 'Z' {
        ((c as u32) + 32) as char
    } else {
        c
    }
}

/// The tmux key names that one key event sends, or why the event is refused.
pub open spec fn key_sequence_spec(key: TerminalKeyView, ctrl: bool, alt: bool) -> Result<
    Seq<Seq<char>>,
    AppErrorView,
> {
    let prefix: Seq<Seq<char>> = if alt {
        seq!["Escape"@]
    } else {
        seq![]
    };
    let bare_ctrl = bad_request_view(
        "bare ctrl key events are not supported; send a ctrl character chord"@,
    );
    match key {
        TerminalKeyView::Named { key } => if ctrl {
            match key {
                TerminalNamedKey::ArrowUp => Ok(seq!["C-Up"@]),
                TerminalNamedKey::ArrowDown => Ok(seq!["C-Down"@]),
                TerminalNamedKey::ArrowLeft => Ok(seq!["C-Left"@]),
                TerminalNamedKey::ArrowRight => Ok(seq!["C-Right"@]),
                TerminalNamedKey::Tab => Ok(seq!["C-i"@]),
                TerminalNamedKey::Enter => Ok(seq!["C-m"@]),
                TerminalNamedKey::Escape => Ok(seq!["C-["@]),
                TerminalNamedKey::Ctrl => Err(bare_ctrl),
            }
        } else {
            match key {
                TerminalNamedKey::Ctrl => Err(bare_ctrl),
                TerminalNamedKey::Escape => Ok(prefix.push("Escape"@)),
                TerminalNamedKey::Tab => Ok(prefix.push("Tab"@)),
                TerminalNamedKey::ArrowUp => Ok(prefix.push("Up"@)),
                TerminalNamedKey::ArrowDown => Ok(prefix.push("Down"@)),
                TerminalNamedKey::ArrowLeft => Ok(prefix.push("Left"@)),
                TerminalNamedKey::ArrowRight => Ok(prefix.push("Right"@)),
                TerminalNamedKey::Enter => Ok(prefix.push("Enter"@)),
            }
        },
        TerminalKeyView::Character { text } => if text.len() == 0 {
            Err(bad_request_view("character key events require one character"@))
        } else if text.len() > 1 {
            Err(bad_request_view("character key events require exactly one character"@))
        } else if ctrl {
            if !is_ascii_char(text[0]) {
                Err(bad_request_view("ctrl character chords currently require ASCII input"@))
            } else {
                Ok(prefix.push(seq!['C', '-', ascii_lowercase(text[0])]))
            }
        } else {
            Ok(prefix.push(text))
        },
    }
}

/// `v` holds exactly what `spec` says for a result of key names.
pub open spec fn keys_result_matches(
    r: Result<Vec<String>, AppError>,
    spec: Result<Seq<Seq<char>>, AppErrorView>,
) -> bool {
    match r {
        Ok(v) => spec is Ok && views_of(v@) == spec->Ok_0,
        Err(e) => spec is Err && e@ == spec->Err_0,
    }
}

fn one_key(name: &str) -> (r: Vec<String>)
    ensures
        views_of(r@) == seq![name@],
{
    let mut v = Vec::new();
    let s = owned(name);
    v.push(s);
    proof {
        assert(views_of(v@) =~= seq![name@]);
    }
    v
}

fn lowercase_ascii(c: char) -> (r: char)
    ensures
        r == ascii_lowercase(c),
{
    if 'A' <= c && c <= 'Z' {
        let b: u8 = (c as u32) as u8;
        (b + 32) as char
    } else {
        c
    }
}

/// The tmux key an unmodified named key sends, key by key.
pub open spec fn named_key_sequence(key: TerminalNamedKey, ctrl: bool, alt: bool) -> Result<
    Seq<Seq<char>>,
    AppErrorView,
> {
    key_sequence_spec(TerminalKeyView::Named { key }, ctrl, alt)
}

/// Each named key sends its own tmux key: without modifiers `Up`, `Down`, `Left`, `Right`,
/// `Tab`, `Enter` and `Escape`; with ctrl the chords `C-Up`, `C-Down`, `C-Left`, `C-Right`,
/// `C-i`, `C-m` and `C-[`; with alt (and no ctrl) `Escape` followed by the unmodified key; a
/// bare ctrl key is refused. No two named keys send the same keys.
pub proof fn lemma_named_key_table()
    ensures
        named_key_sequence(TerminalNamedKey::ArrowUp, false, false) == Ok::<Seq<Seq<char>>, AppErrorView>(seq!["Up"@]),
        named_key_sequence(TerminalNamedKey::ArrowDown, false, false) == Ok::<Seq<Seq<char>>, AppErrorView>(seq!["Down"@]),
        named_key_sequence(TerminalNamedKey::ArrowLeft, false, false) == Ok::<Seq<Seq<char>>, AppErrorView>(seq!["Left"@]),
        named_key_sequence(TerminalNamedKey::ArrowRight, false, false) == Ok::<Seq<Seq<char>>, AppErrorView>(seq!["Right"@]),
        named_key_sequence(TerminalNamedKey::Tab, false, false) == Ok::<Seq<Seq<char>>, AppErrorView>(seq!["Tab"@]),
        named_key_sequence(TerminalNamedKey::Enter, false, false) == Ok::<Seq<Seq<char>>, AppErrorView>(seq!["Enter"@]),
        named_key_sequence(TerminalNamedKey::Escape, false, false) == Ok::<Seq<Seq<char>>, AppErrorView>(seq!["Escape"@]),
        named_key_sequence(TerminalNamedKey::ArrowUp, true, false) == Ok::<Seq<Seq<char>>, AppErrorView>(seq!["C-Up"@]),
        named_key_sequence(TerminalNamedKey::ArrowDown, true, false) == Ok::<Seq<Seq<char>>, AppErrorView>(seq!["C-Down"@]),
        named_key_sequence(TerminalNamedKey::ArrowLeft, true, false) == Ok::<Seq<Seq<char>>, AppErrorView>(seq!["C-Left"@]),
        named_key_sequence(TerminalNamedKey::ArrowRight, true, false) == Ok::<Seq<Seq<char>>, AppErrorView>(seq!["C-Right"@]),
        named_key_sequence(TerminalNamedKey::Tab, true, false) == Ok::<Seq<Seq<char>>, AppErrorView>(seq!["C-i"@]),
        named_key_sequence(TerminalNamedKey::Enter, true, false) == Ok::<Seq<Seq<char>>, AppErrorView>(seq!["C-m"@]),
        named_key_sequence(TerminalNamedKey::Escape, true, false) == Ok::<Seq<Seq<char>>, AppErrorView>(seq!["C-["@]),
        forall|ctrl: bool, alt: bool| #[trigger] named_key_sequence(TerminalNamedKey::Ctrl, ctrl, alt) is Err,
        forall|k: TerminalNamedKey|
            k != TerminalNamedKey::Ctrl ==> #[trigger] named_key_sequence(k, false, true) == Ok::<
                Seq<Seq<char>>,
                AppErrorView,
            >(seq!["Escape"@] + named_key_sequence(k, false, false)->Ok_0),
        forall|a: TerminalNamedKey, b: TerminalNamedKey|
            a != b && a != TerminalNamedKey::Ctrl && b != TerminalNamedKey::Ctrl
                ==> #[trigger] named_key_sequence(a, false, false) != #[trigger] named_key_sequence(
                b,
                false,
                false,
            ),
{
    reveal_strlit("Up");
    reveal_strlit("Down");
    reveal_strlit("Left");
    reveal_strlit("Right");
    reveal_strlit("Tab");
    reveal_strlit("Enter");
    reveal_strlit("Escape");
    assert forall|k: TerminalNamedKey| k != TerminalNamedKey::Ctrl implies #[trigger] named_key_sequence(
        k,
        false,
        true,
    ) == Ok::<Seq<Seq<char>>, AppErrorView>(
        seq!["Escape"@] + named_key_sequence(k, false, false)->Ok_0,
    ) by {
        let name = named_key_sequence(k, false, false)->Ok_0[0];
        assert(named_key_sequence(k, false, false)->Ok_0 =~= seq![name]);
        assert(seq!["Escape"@].push(name) =~= seq!["Escape"@] + seq![name]);
    }
    assert forall|a: TerminalNamedKey, b: TerminalNamedKey|
        a != b && a != TerminalNamedKey::Ctrl && b != TerminalNamedKey::Ctrl implies #[trigger] named_key_sequence(
        a,
        false,
        false,
    ) != #[trigger] named_key_sequence(b, false, false) by {
        let x = named_key_sequence(a, false, false)->Ok_0[0];
        let y = named_key_sequence(b, false, false)->Ok_0[0];
        assert(x.len() != y.len() || x[0] != y[0]);
        assert(x != y);
        if named_key_sequence(a, false, false) == named_key_sequence(b, false, false) {
            assert(x == y);
        }
    }
}

/// The tmux key names that one key event sends: an `Escape` prefix for alt (dropped by
/// ctrl chords on named keys), `C-` chords for ctrl, and refusals for a bare ctrl key, for
/// a character key without exactly one character, and for a ctrl chord on a non-ASCII
/// character.
pub fn tmux_key_sequence(key: &TerminalKey, ctrl: bool, alt: bool) -> (r: Result<
    Vec<String>,
    AppError,
>)
    ensures
        keys_result_matches(r, key_sequence_spec(key@, ctrl, alt)),
{
    let bare_ctrl = "bare ctrl key events are not supported; send a ctrl character chord";
    match key {
        TerminalKey::Named { key } => {
            if ctrl {
                return match key {
                    TerminalNamedKey::ArrowUp => Ok(one_key("C-Up")),
                    TerminalNamedKey::ArrowDown => Ok(one_key("C-Down")),
                    TerminalNamedKey::ArrowLeft => Ok(one_key("C-Left")),
                    TerminalNamedKey::ArrowRight => Ok(one_key("C-Right")),
                    TerminalNamedKey::Tab => Ok(one_key("C-i")),
                    TerminalNamedKey::Enter => Ok(one_key("C-m")),
                    TerminalNamedKey::Escape => Ok(one_key("C-[")),
                    TerminalNamedKey::Ctrl => Err(bad_request_str(bare_ctrl)),
                };
            }
            let mapped = match key {
                TerminalNamedKey::Ctrl => {
                    return Err(bad_request_str(bare_ctrl));
                },
                TerminalNamedKey::Escape => "Escape",
                TerminalNamedKey::Tab => "Tab",
                TerminalNamedKey::ArrowUp => "Up",
                TerminalNamedKey::ArrowDown => "Down",
                TerminalNamedKey::ArrowLeft => "Left",
                TerminalNamedKey::ArrowRight => "Right",
                TerminalNamedKey::Enter => "Enter",
            };
            let mut keys: Vec<String> = Vec::new();
            if alt {
                keys.push(owned("Escape"));
            }
            let ghost before = keys@;
            proof {
                assert(views_of(before) =~= (if alt {
                    seq!["Escape"@]
                } else {
                    Seq::<Seq<char>>::empty()
                }));
            }
            keys.push(owned(mapped));
            proof {
                assert(views_of(keys@) =~= views_of(before).push(mapped@));
            }
            Ok(keys)
        },
        TerminalKey::Character { text } => {
            let chars = chars_of(text.as_str());
            if chars.len() == 0 {
                return Err(bad_request_str("character key events require one character"));
            }
            if chars.len() > 1 {
                return Err(bad_request_str("character key events require exactly one character"));
            }
            let ch = chars[0];
            let mut keys: Vec<String> = Vec::new();
            if alt {
                keys.push(owned("Escape"));
            }
            let ghost before = keys@;
            proof {
                assert(views_of(before) =~= (if alt {
                    seq!["Escape"@]
                } else {
                    Seq::<Seq<char>>::empty()
                }));
            }
            if ctrl {
                if !((ch as u32) < 128) {
                    return Err(bad_request_str("ctrl character chords currently require ASCII input"));
                }
                let mut chord = owned("C-");
                push_char(&mut chord, lowercase_ascii(ch));
                keys.push(chord);
                proof {
                    reveal_strlit("C-");
                    assert(chord@ =~= seq!['C', '-', ascii_lowercase(text@[0])]);
                    assert(views_of(keys@) =~= views_of(before).push(chord@));
                }
            } else {
                let t = text.clone();
                keys.push(t);
                proof {
                    assert(views_of(keys@) =~= views_of(before).push(t@));
                }
            }
            Ok(keys)
        },
    }
}

// ---------------------------------------------------------------------------------------------
// Input batches
// ---------------------------------------------------------------------------------------------

/// One tmux invocation that delivers input to a pane.
#[derive(Debug, Clone, PartialEq, Eq)]
pub enum TmuxInputCommand {
    /// `send-keys -l -- <text>`: text typed literally.
    Literal(String),
    /// `send-keys <key>`: one named key or chord.
    Key(String),
    /// `resize-window -x <cols> -y <rows>`.
    Resize { rows: u16, cols: u16 },
}

pub enum TmuxInputCommandView {
    Literal(Seq<char>),
    Key(Seq<char>),
    Resize { rows: u16, cols: u16 },
}

impl View for TmuxInputCommand {
    type V = TmuxInputCommandView;

    open spec fn view(&self) -> TmuxInputCommandView {
        match self {
            TmuxInputCommand::Literal(t) => TmuxInputCommandView::Literal(t@),
            TmuxInputCommand::Key(k) => TmuxInputCommandView::Key(k@),
            TmuxInputCommand::Resize { rows, cols } => TmuxInputCommandView::Resize {
                rows: *rows,
                cols: *cols,
            },
        }
    }
}

pub open spec fn commands_view(c: Seq<TmuxInputCommand>) -> Seq<TmuxInputCommandView> {
    c.map_values(|x: TmuxInputCommand| x@)
}

/// The commands so far, with pending literal text sent first if there is any.
pub open spec fn flush_spec(cmds: Seq<TmuxInputCommandView>, buffer: Seq<char>) -> Seq<
    TmuxInputCommandView,
> {
    if buffer.len() > 0 {
        cmds.push(TmuxInputCommandView::Literal(buffer))
    } else {
        cmds
    }
}

pub open spec fn key_commands(keys: Seq<Seq<char>>) -> Seq<TmuxInputCommandView> {
    keys.map_values(|k: Seq<char>| TmuxInputCommandView::Key(k))
}

/// After the first `events.len()` events: the commands issued, the literal text not yet
/// sent, and the refusal that stopped the batch, if one did.
pub open spec fn plan_state(events: Seq<TerminalInputEventView>) -> (
    Seq<TmuxInputCommandView>,
    Seq<char>,
    Option<AppErrorView>,
)
    decreases events.len(),
{
    if events.len() == 0 {
        (seq![], seq![], None)
    } else {
        let (cmds, buffer, err) = plan_state(events.drop_last());
        if err is Some {
            (cmds, buffer, err)
        } else {
            match events.last() {
                TerminalInputEventView::Text { text } => (cmds, buffer + text, None),
                TerminalInputEventView::Paste { text } => (cmds, buffer + text, None),
                TerminalInputEventView::Key { key, ctrl, alt, .. } => {
                    let flushed = flush_spec(cmds, buffer);
                    match key_sequence_spec(key, ctrl, alt) {
                        Ok(keys) => (flushed + key_commands(keys), seq![], None),
                        Err(e) => (flushed, seq![], Some(e)),
                    }
                },
                TerminalInputEventView::Resize { rows, cols } => (
                    flush_spec(cmds, buffer).push(
                        TmuxInputCommandView::Resize { rows, cols },
                    ),
                    seq![],
                    None,
                ),
            }
        }
    }
}

/// The tmux commands a batch of input events becomes, in order, and the refusal that ends
/// the batch after them, if any. Text and paste events are gathered into one literal
/// `send-keys` until a key or resize event, or the end of the batch, sends them.
pub open spec fn plan_spec(events: Seq<TerminalInputEventView>) -> (
    Seq<TmuxInputCommandView>,
    Option<AppErrorView>,
) {
    let (cmds, buffer, err) = plan_state(events);
    if err is Some {
        (cmds, err)
    } else {
        (flush_spec(cmds, buffer), None)
    }
}

/// The commands that deliver a batch of input events, and the refusal that ends it.
#[derive(Debug)]
pub struct TmuxInputPlan {
    pub commands: Vec<TmuxInputCommand>,
    pub error: Option<AppError>,
}

fn flush_literal(cmds: &mut Vec<TmuxInputCommand>, buffer: &mut String)
    ensures
        commands_view(final(cmds)@) == flush_spec(commands_view(old(cmds)@), old(buffer)@),
        final(buffer)@ == Seq::<char>::empty(),
{
    if !buffer.as_str().is_empty() {
        let text = buffer.clone();
        let ghost before = cmds@;
        cmds.push(TmuxInputCommand::Literal(text));
        proof {
            assert(commands_view(cmds@) =~= commands_view(before).push(
                TmuxInputCommandView::Literal(text@),
            ));
        }
        *buffer = String::new();
    }
}

/// Once a refusal stops a batch, later events change nothing.
proof fn lemma_plan_error_sticks(events: Seq<TerminalInputEventView>, k: int)
    requires
        0 <= k <= events.len(),
        plan_state(events.take(k)).2 is Some,
    ensures
        plan_state(events) == plan_state(events.take(k)),
    decreases events.len() - k,
{
    if k < events.len() {
        assert(events.drop_last().take(k) =~= events.take(k));
        lemma_plan_error_sticks(events.drop_last(), k);
    } else {
        assert(events.take(k) =~= events);
    }
}

impl TmuxInputPlan {
    /// What the input endpoint answers once every command ran: the refusal if there is one,
    /// else the number of events accepted.
    pub fn finish(self, event_count: usize) -> (r: Result<TerminalInputResponse, AppError>)
        ensures
            match self.error {
                Some(e) => r matches Err(x) && x@ == e@,
                None => r == Ok::<TerminalInputResponse, AppError>(
                    TerminalInputResponse { accepted_events: event_count },
                ),
            },
    {
        match self.error {
            Some(e) => Err(e),
            None => Ok(TerminalInputResponse { accepted_events: event_count }),
        }
    }
}

/// Plans the delivery of a batch of input events to a tmux pane.
pub fn plan_tmux_input(events: &Vec<TerminalInputEvent>) -> (r: TmuxInputPlan)
    ensures
        commands_view(r.commands@) == plan_spec(events_view(events@)).0,
        match r.error {
            Some(e) => plan_spec(events_view(events@)).1 == Some(e@),
            None => plan_spec(events_view(events@)).1 is None,
        },
{
    let mut cmds: Vec<TmuxInputCommand> = Vec::new();
    let mut buffer = String::new();
    let mut i: usize = 0;
    while i < events.len()
        invariant
            i <= events@.len(),
            plan_state(events_view(events@.take(i as int))) == (
                commands_view(cmds@),
                buffer@,
                None::<AppErrorView>,
            ),
        decreases events@.len() - i,
    {
        proof {
            assert(events_view(events@.take(i + 1)).drop_last() =~= events_view(
                events@.take(i as int),
            ));
            assert(events_view(events@.take(i + 1)).last() == events@[i as int]@);
        }
        match &events[i] {
            TerminalInputEvent::Text { text } => {
                let mut b = buffer;
                b.append(text.as_str());
                buffer = b;
            },
            TerminalInputEvent::Paste { text } => {
                let mut b = buffer;
                b.append(text.as_str());
                buffer = b;
            },
            TerminalInputEvent::Key { key, ctrl, alt, shift: _ } => {
                flush_literal(&mut cmds, &mut buffer);
                match tmux_key_sequence(key, *ctrl, *alt) {
                    Ok(keys) => {
                        let mut j: usize = 0;
                        let ghost base = cmds@;
                        while j < keys.len()
                            invariant
                                j <= keys@.len(),
                                commands_view(cmds@) == commands_view(base) + key_commands(
                                    views_of(keys@).take(j as int),
                                ),
                            decreases keys@.len() - j,
                        {
                            let k = keys[j].clone();
                            let ghost before = cmds@;
                            cmds.push(TmuxInputCommand::Key(k));
                            proof {
                                assert(views_of(keys@).take(j + 1) =~= views_of(keys@).take(
                                    j as int,
                                ).push(k@));
                                assert(commands_view(cmds@) =~= commands_view(before).push(
                                    TmuxInputCommandView::Key(k@),
                                ));
                                assert(key_commands(views_of(keys@).take(j + 1)) =~= key_commands(
                                    views_of(keys@).take(j as int),
                                ).push(TmuxInputCommandView::Key(k@)));
                            }
                            j += 1;
                        }
                        proof {
                            assert(views_of(keys@).take(j as int) =~= views_of(keys@));
                        }
                    },
                    Err(e) => {
                        proof {
                            assert(events_view(events@.take(i + 1)) =~= events_view(
                                events@,
                            ).take(i + 1));
                            lemma_plan_error_sticks(events_view(events@), i + 1);
                        }
                        return TmuxInputPlan { commands: cmds, error: Some(e) };
                    },
                }
            },
            TerminalInputEvent::Resize { rows, cols } => {
                flush_literal(&mut cmds, &mut buffer);
                let ghost before = cmds@;
                cmds.push(TmuxInputCommand::Resize { rows: *rows, cols: *cols });
                proof {
                    assert(commands_view(cmds@) =~= commands_view(before).push(
                        TmuxInputCommandView::Resize { rows: *rows, cols: *cols },
                    ));
                }
            },
        }
        i += 1;
    }
    proof {
        assert(events@.take(i as int) =~= events@);
    }
    flush_literal(&mut cmds, &mut buffer);
    TmuxInputPlan { commands: cmds, error: None }
}

// ---------------------------------------------------------------------------------------------
// Replies of tmux
// ---------------------------------------------------------------------------------------------

pub open spec fn parse_u16_spec(s: Seq<char>) -> Option<int> {
    parse_int_spec(s, 0, 65535)
}

pub open spec fn parse_i64_spec(s: Seq<char>) -> Option<int> {
    parse_int_spec(s, -0x8000_0000_0000_0000, 0x7fff_ffff_ffff_ffff)
}

/// The error for a tmux command that exited unsuccessfully: "tmux {command} failed: {stderr}",
/// with the standard error trimmed.
pub open spec fn command_failure_spec(command: Seq<char>, stderr: Seq<char>) -> AppErrorView {
    AppErrorView::Runtime("tmux "@ + command + " failed: "@ + trim_spec(stderr))
}

pub fn tmux_command_failure(command: &str, stderr: &str) -> (r: AppError)
    ensures
        r@ == command_failure_spec(command@, stderr@),
{
    let mut m = owned("tmux ");
    m.append(command);
    m.append(" failed: ");
    let t = trim(stderr);
    m.append(t.as_str());
    AppError::Runtime(m)
}

/// Pane height and width from `display-message -p '#{pane_height}|#{pane_width}'`.
pub open spec fn pane_size_spec(raw: Seq<char>) -> Result<(u16, u16), AppErrorView> {
    let parts = split_spec(trim_spec(raw), '|');
    match parse_u16_spec(parts[0]) {
        None => Err(AppErrorView::Runtime("failed parsing tmux pane height"@)),
        Some(rows) => if parts.len() < 2 {
            Err(AppErrorView::Runtime("failed parsing tmux pane width"@))
        } else {
            match parse_u16_spec(parts[1]) {
                None => Err(AppErrorView::Runtime("failed parsing tmux pane width"@)),
                Some(cols) => Ok((rows as u16, cols as u16)),
            }
        },
    }
}

pub fn parse_pane_size(raw: &str) -> (r: Result<(u16, u16), AppError>)
    ensures
        match r {
            Ok(v) => pane_size_spec(raw@) == Ok::<(u16, u16), AppErrorView>(v),
            Err(e) => pane_size_spec(raw@) == Err::<(u16, u16), AppErrorView>(e@),
        },
{
    let trimmed = trim(raw);
    let parts = split_char(trimmed.as_str(), '|');
    proof {
        assert(parts@[0]@ == views_of(parts@)[0]);
    }
    let rows = match parse_u16(parts[0].as_str()) {
        Some(v) => v,
        None => {
            return Err(runtime_str("failed parsing tmux pane height"));
        },
    };
    if parts.len() < 2 {
        return Err(runtime_str("failed parsing tmux pane width"));
    }
    proof {
        assert(parts@[1]@ == views_of(parts@)[1]);
    }
    let cols = match parse_u16(parts[1].as_str()) {
        Some(v) => v,
        None => {
            return Err(runtime_str("failed parsing tmux pane width"));
        },
    };
    Ok((rows, cols))
}

/// Cursor row, column and visibility from
/// `display-message -p '#{cursor_y}|#{cursor_x}|#{cursor_flag}'`; none when a position does
/// not parse.
pub open spec fn cursor_spec(raw: Seq<char>) -> Option<TerminalCursor> {
    let parts = split_spec(trim_spec(raw), '|');
    match parse_u16_spec(parts[0]) {
        None => None,
        Some(row) => if parts.len() < 2 {
            None
        } else {
            match parse_u16_spec(parts[1]) {
                None => None,
                Some(col) => Some(
                    TerminalCursor {
                        row: row as u16,
                        col: col as u16,
                        visible: parts.len() >= 3 && parts[2] == "1"@,
                    },
                ),
            }
        },
    }
}

pub fn parse_cursor(raw: &str) -> (r: Option<TerminalCursor>)
    ensures
        r == cursor_spec(raw@),
{
    let trimmed = trim(raw);
    let parts = split_char(trimmed.as_str(), '|');
    proof {
        assert(parts@[0]@ == views_of(parts@)[0]);
    }
    let row = match parse_u16(parts[0].as_str()) {
        Some(v) => v,
        None => {
            return None;
        },
    };
    if parts.len() < 2 {
        return None;
    }
    proof {
        assert(parts@[1]@ == views_of(parts@)[1]);
    }
    let col = match parse_u16(parts[1].as_str()) {
        Some(v) => v,
        None => {
            return None;
        },
    };
    let visible = if parts.len() >= 3 {
        proof {
            assert(parts@[2]@ == views_of(parts@)[2]);
        }
        str_eq(parts[2].as_str(), "1")
    } else {
        false
    };
    Some(TerminalCursor { row, col, visible })
}

/// One line of `list-sessions -F '#{session_name}|#{session_created}|#{session_activity}'`.
#[derive(Debug, Clone, PartialEq, Eq)]
pub struct TmuxSessionRecord {
    pub runtime_name: String,
    pub created_epoch: i64,
    pub activity_epoch: i64,
}

/// The record a listing line holds: none unless it has exactly three `|`-separated fields;
/// a creation time that does not parse reads as 0, an activity time that does not parse as
/// the creation time.
pub open spec fn record_of_line(line: Seq<char>) -> Option<(Seq<char>, int, int)> {
    let parts = split_spec(line, '|');
    if parts.len() != 3 {
        None
    } else {
        let created = match parse_i64_spec(parts[1]) {
            Some(v) => v,
            None => 0,
        };
        let activity = match parse_i64_spec(parts[2]) {
            Some(v) => v,
            None => created,
        };
        Some((parts[0], created, activity))
    }
}

/// The records of all lines that hold one, in order.
pub open spec fn records_spec(lines: Seq<Seq<char>>) -> Seq<(Seq<char>, int, int)>
    decreases lines.len(),
{
    if lines.len() == 0 {
        seq![]
    } else {
        let rest = records_spec(lines.drop_last());
        match record_of_line(lines.last()) {
            Some(r) => rest.push(r),
            None => rest,
        }
    }
}

pub open spec fn record_view(r: TmuxSessionRecord) -> (Seq<char>, int, int) {
    (r.runtime_name@, r.created_epoch as int, r.activity_epoch as int)
}

pub open spec fn records_view(v: Seq<TmuxSessionRecord>) -> Seq<(Seq<char>, int, int)> {
    v.map_values(|r: TmuxSessionRecord| record_view(r))
}

/// The record of one listing line.
pub fn parse_tmux_session_line(line: &str) -> (r: Option<TmuxSessionRecord>)
    ensures
        match r {
            Some(x) => record_of_line(line@) == Some(record_view(x)),
            None => record_of_line(line@) is None,
        },
{
    let parts = split_char(line, '|');
    if parts.len() != 3 {
        return None;
    }
    proof {
        assert(parts@[0]@ == views_of(parts@)[0]);
        assert(parts@[1]@ == views_of(parts@)[1]);
        assert(parts@[2]@ == views_of(parts@)[2]);
    }
    let created_epoch = match parse_i64(parts[1].as_str()) {
        Some(v) => v,
        None => 0,
    };
    let activity_epoch = match parse_i64(parts[2].as_str()) {
        Some(v) => v,
        None => created_epoch,
    };
    Some(TmuxSessionRecord { runtime_name: parts[0].clone(), created_epoch, activity_epoch })
}

/// The records of a whole listing.
pub fn parse_tmux_session_list(stdout: &str) -> (r: Vec<TmuxSessionRecord>)
    ensures
        records_view(r@) == records_spec(lines_spec(stdout@)),
{
    let all = lines(stdout);
    let ghost ls = lines_spec(stdout@);
    let mut out: Vec<TmuxSessionRecord> = Vec::new();
    let mut i: usize = 0;
    while i < all.len()
        invariant
            i <= all@.len(),
            views_of(all@) == ls,
            records_view(out@) == records_spec(ls.take(i as int)),
        decreases all@.len() - i,
    {
        proof {
            assert(ls.take(i + 1).drop_last() =~= ls.take(i as int));
            assert(ls.take(i + 1).last() == all@[i as int]@);
        }
        match parse_tmux_session_line(all[i].as_str()) {
            Some(rec) => {
                let ghost before = out@;
                out.push(rec);
                proof {
                    assert(records_view(out@) =~= records_view(before).push(record_view(rec)));
                }
            },
            None => {},
        }
        i += 1;
    }
    proof {
        assert(ls.take(i as int) =~= ls);
    }
    out
}

/// What a failed `list-sessions` means: no sessions when no tmux server runs, else an error.
pub fn list_failure_outcome(stderr: &str) -> (r: Result<Vec<TmuxSessionRecord>, AppError>)
    ensures
        crate::text::contains_seq(stderr@, "no server running"@) ==> (r matches Ok(v) && v@.len()
            == 0),
        !crate::text::contains_seq(stderr@, "no server running"@) ==> (r matches Err(e) && e@
            == command_failure_spec("list-sessions"@, stderr@)),
{
    if crate::text::contains(stderr, "no server running") {
        Ok(Vec::new())
    } else {
        Err(tmux_command_failure("list-sessions", stderr))
    }
}

// ---------------------------------------------------------------------------------------------
// Raw input
// ---------------------------------------------------------------------------------------------

/// The lowercase hexadecimal digit of `d` (below 16).
pub open spec fn hex_digit_char(d: int) -> char {
    if d < 10 {
        (48 + d) as char
    } else {
        (87 + d) as char
    }
}

/// A byte as a two-digit lowercase hexadecimal `tmux send-keys -H` key.
pub open spec fn hex_key(b: u8) -> Seq<char> {
    seq![hex_digit_char(b as int / 16), hex_digit_char(b as int % 16)]
}

fn hex_digit(d: u8) -> (c: char)
    requires
        d < 16,
    ensures
        c == hex_digit_char(d as int),
{
    if d < 10 {
        (d + 48) as char
    } else {
        (d + 87) as char
    }
}

/// The `tmux send-keys -H` keys that write `bytes` to a pane exactly as they are: one
/// two-digit lowercase hexadecimal key per byte, in order.
pub fn raw_input_keys(bytes: &[u8]) -> (r: Vec<String>)
    ensures
        r@.len() == bytes@.len(),
        forall|i: int| 0 <= i < bytes@.len() ==> (#[trigger] r@[i])@ == hex_key(bytes@[i]),
{
    let mut keys: Vec<String> = Vec::new();
    let mut i: usize = 0;
    while i < bytes.len()
        invariant
            i <= bytes@.len(),
            keys@.len() == i,
            forall|k: int| 0 <= k < i ==> (#[trigger] keys@[k])@ == hex_key(bytes@[k]),
        decreases bytes@.len() - i,
    {
        let b = bytes[i];
        let mut key = String::new();
        push_char(&mut key, hex_digit(b / 16));
        push_char(&mut key, hex_digit(b % 16));
        assert(key@ =~= hex_key(b));
        keys.push(key);
        i += 1;
    }
    keys
}

} // verus!

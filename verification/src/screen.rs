//! How a terminal screen becomes a snapshot: the `vt100` state core fed with terminal
//! output, each cell with its text, span, display width and grapheme count, each row with
//! its wrap flag, and the cursor and modes; and the snapshot of a tmux capture with its
//! scrollback.
use vstd::prelude::*;

use crate::terminal::{
    cells_view, counts_after, lemma_counts_after_zero, lines_view, reindexed_row,
    split_snapshot_scrollback, with_events, zero_metrics, EscapeEvent, EscapeSequenceMetrics,
    TerminalCell, TerminalColor, TerminalColorView, TerminalCursor, TerminalLine,
    TerminalLineView, TerminalModes, TerminalSnapshot, TerminalSnapshotView,
};
use crate::tmux::{line_count_rows, tmux_capture_line_count};

verus! {

// ---------------------------------------------------------------------------------------------
// Widths and graphemes
// ---------------------------------------------------------------------------------------------

/// Name for `UnicodeWidthStr::width` (unicode-width): the display width of a text in columns.
pub uninterp spec fn display_width(text: Seq<char>) -> nat;

/// Name for `UnicodeSegmentation::graphemes(text, true).count()` (unicode-segmentation): the
/// number of extended grapheme clusters of a text.
pub uninterp spec fn grapheme_count(text: Seq<char>) -> nat;

/// `UnicodeWidthStr::width` of a text.
#[verifier::external_body]
fn text_width(text: &str) -> (r: usize)
    ensures
        r as nat == display_width(text@),
{
    unicode_width::UnicodeWidthStr::width(text)
}

/// `UnicodeSegmentation::graphemes(text, true).count()` of a text.
#[verifier::external_body]
fn text_graphemes(text: &str) -> (r: usize)
    ensures
        r as nat == grapheme_count(text@),
{
    unicode_segmentation::UnicodeSegmentation::graphemes(text, true).count()
}

// ---------------------------------------------------------------------------------------------
// Screens
// ---------------------------------------------------------------------------------------------

/// One cell of a terminal screen as the state core reports it.
#[derive(Debug, Clone, PartialEq, Eq)]
pub struct ScreenCell {
    pub contents: String,
    pub is_wide: bool,
    pub is_wide_continuation: bool,
    pub fgcolor: TerminalColor,
    pub bgcolor: TerminalColor,
    pub bold: bool,
    pub italic: bool,
    pub underline: bool,
    pub inverse: bool,
}

/// What a [`ScreenCell`] holds, as values.
pub struct ScreenCellView {
    pub contents: Seq<char>,
    pub is_wide: bool,
    pub is_wide_continuation: bool,
    pub fgcolor: TerminalColorView,
    pub bgcolor: TerminalColorView,
    pub bold: bool,
    pub italic: bool,
    pub underline: bool,
    pub inverse: bool,
}

impl View for ScreenCell {
    type V = ScreenCellView;

    open spec fn view(&self) -> ScreenCellView {
        ScreenCellView {
            contents: self.contents@,
            is_wide: self.is_wide,
            is_wide_continuation: self.is_wide_continuation,
            fgcolor: self.fgcolor@,
            bgcolor: self.bgcolor@,
            bold: self.bold,
            italic: self.italic,
            underline: self.underline,
            inverse: self.inverse,
        }
    }
}

pub open spec fn opt_cell_view(c: Option<ScreenCell>) -> Option<ScreenCellView> {
    match c {
        Some(x) => Some(x@),
        None => None,
    }
}

/// A terminal screen as values: its size, cursor and modes, whether each row wraps, the
/// cell it answers at each row and column (if any), and its text.
pub struct ScreenView {
    pub rows: u16,
    pub cols: u16,
    pub cursor_row: u16,
    pub cursor_col: u16,
    pub hide_cursor: bool,
    pub application_cursor: bool,
    pub application_keypad: bool,
    pub bracketed_paste: bool,
    pub alternate_screen: bool,
    pub wrapped: spec_fn(u16) -> bool,
    pub cell: spec_fn(u16, u16) -> Option<ScreenCellView>,
    pub contents: Seq<char>,
}

/// A terminal screen held as values: its size, cursor and modes, each row's wrap flag, the
/// cell at each row and column, and its text.
#[derive(Debug, Clone, PartialEq, Eq)]
pub struct ScreenState {
    pub rows: u16,
    pub cols: u16,
    pub cursor_row: u16,
    pub cursor_col: u16,
    pub hide_cursor: bool,
    pub application_cursor: bool,
    pub application_keypad: bool,
    pub bracketed_paste: bool,
    pub alternate_screen: bool,
    pub row_wrapped: Vec<bool>,
    pub cells: Vec<Vec<Option<ScreenCell>>>,
    pub contents: String,
}

impl ScreenState {
    /// The cell at `row`, `col`: none outside what the screen holds.
    pub open spec fn cell_at(self, row: int, col: int) -> Option<ScreenCell> {
        if 0 <= row < self.cells@.len() && 0 <= col < self.cells@[row]@.len() {
            self.cells@[row]@[col]
        } else {
            None
        }
    }

    /// Whether row `row` wraps into the next: false outside what the screen holds.
    pub open spec fn wrapped_at(self, row: int) -> bool {
        0 <= row < self.row_wrapped@.len() && self.row_wrapped@[row]
    }

    fn cell(&self, row: u16, col: u16) -> (r: Option<&ScreenCell>)
        ensures
            match r {
                Some(c) => self.cell_at(row as int, col as int) == Some(*c),
                None => self.cell_at(row as int, col as int) is None,
            },
    {
        let r = row as usize;
        let c = col as usize;
        if r < self.cells.len() && c < self.cells[r].len() {
            match &self.cells[r][c] {
                Some(x) => Some(x),
                None => None,
            }
        } else {
            None
        }
    }

    fn wrapped(&self, row: u16) -> (r: bool)
        ensures
            r == self.wrapped_at(row as int),
    {
        let r = row as usize;
        r < self.row_wrapped.len() && self.row_wrapped[r]
    }
}

impl View for ScreenState {
    type V = ScreenView;

    open spec fn view(&self) -> ScreenView {
        ScreenView {
            rows: self.rows,
            cols: self.cols,
            cursor_row: self.cursor_row,
            cursor_col: self.cursor_col,
            hide_cursor: self.hide_cursor,
            application_cursor: self.application_cursor,
            application_keypad: self.application_keypad,
            bracketed_paste: self.bracketed_paste,
            alternate_screen: self.alternate_screen,
            wrapped: |row: u16| self.wrapped_at(row as int),
            cell: |row: u16, col: u16| opt_cell_view(self.cell_at(row as int, col as int)),
            contents: self.contents@,
        }
    }
}

/// Two screens answer alike inside their size: same size, cursor, modes and text, the same
/// wrap flag on each row and the same cell at each position.
pub open spec fn screens_agree(a: ScreenView, b: ScreenView) -> bool {
    &&& a.rows == b.rows
    &&& a.cols == b.cols
    &&& a.cursor_row == b.cursor_row
    &&& a.cursor_col == b.cursor_col
    &&& a.hide_cursor == b.hide_cursor
    &&& a.application_cursor == b.application_cursor
    &&& a.application_keypad == b.application_keypad
    &&& a.bracketed_paste == b.bracketed_paste
    &&& a.alternate_screen == b.alternate_screen
    &&& a.contents == b.contents
    &&& forall|row: u16| row < a.rows ==> #[trigger] (a.wrapped)(row) == (b.wrapped)(row)
    &&& forall|row: u16, col: u16|
        row < a.rows && col < a.cols ==> #[trigger] (a.cell)(row, col) == (b.cell)(row, col)
}

// ---------------------------------------------------------------------------------------------
// Screens to snapshots
// ---------------------------------------------------------------------------------------------

pub open spec fn saturate_u8(n: nat) -> u8 {
    if n <= 255 {
        n as u8
    } else {
        255
    }
}

/// The snapshot cell for a screen cell (or for a position the screen has no cell at).
pub open spec fn map_cell_spec(column: u16, cell: Option<ScreenCellView>) -> crate::terminal::TerminalCellView {
    match cell {
        None => crate::terminal::TerminalCellView {
            column,
            text: seq![],
            column_span: 1,
            unicode_width: 0,
            grapheme_count: 0,
            is_wide: false,
            is_wide_continuation: false,
            foreground: TerminalColorView::Default,
            background: TerminalColorView::Default,
            bold: false,
            italic: false,
            underline: false,
            inverse: false,
        },
        Some(c) => crate::terminal::TerminalCellView {
            column,
            text: c.contents,
            column_span: if c.is_wide_continuation {
                0
            } else if c.is_wide {
                2
            } else {
                1
            },
            unicode_width: saturate_u8(display_width(c.contents)),
            grapheme_count: saturate_u8(grapheme_count(c.contents)),
            is_wide: c.is_wide,
            is_wide_continuation: c.is_wide_continuation,
            foreground: c.fgcolor,
            background: c.bgcolor,
            bold: c.bold,
            italic: c.italic,
            underline: c.underline,
            inverse: c.inverse,
        },
    }
}

/// A snapshot cell keeps its screen cell's text, colors, attributes and wide flags; a
/// position without a screen cell becomes an empty cell in the default colors.
pub proof fn lemma_mapped_cell_keeps_screen_cell(column: u16, cell: Option<ScreenCellView>)
    ensures
        map_cell_spec(column, cell).column == column,
        cell matches Some(c) ==> {
            let m = map_cell_spec(column, cell);
            &&& m.text == c.contents
            &&& m.foreground == c.fgcolor
            &&& m.background == c.bgcolor
            &&& m.bold == c.bold
            &&& m.italic == c.italic
            &&& m.underline == c.underline
            &&& m.inverse == c.inverse
            &&& m.is_wide == c.is_wide
            &&& m.is_wide_continuation == c.is_wide_continuation
        },
        cell is None ==> {
            let m = map_cell_spec(column, cell);
            &&& m.text.len() == 0
            &&& m.foreground == TerminalColorView::Default
            &&& m.background == TerminalColorView::Default
        },
{
}

fn saturating_u8(n: usize) -> (r: u8)
    ensures
        r == saturate_u8(n as nat),
{
    if n <= 255 {
        n as u8
    } else {
        255
    }
}

pub fn map_cell(column: u16, cell: Option<&ScreenCell>) -> (r: TerminalCell)
    ensures
        r@ == map_cell_spec(
            column,
            match cell {
                Some(c) => Some(c@),
                None => None,
            },
        ),
        r.column == column,
        cell matches Some(c) ==> {
            &&& r.text@ == c.contents@
            &&& r@.foreground == c.fgcolor@
            &&& r@.background == c.bgcolor@
            &&& r.bold == c.bold
            &&& r.italic == c.italic
            &&& r.underline == c.underline
            &&& r.inverse == c.inverse
            &&& r.is_wide == c.is_wide
            &&& r.is_wide_continuation == c.is_wide_continuation
        },
        cell is None ==> r@.text.len() == 0 && r@.foreground == TerminalColorView::Default
            && r@.background == TerminalColorView::Default,
{
    let cell = match cell {
        None => {
            return TerminalCell {
                column,
                text: String::new(),
                column_span: 1,
                unicode_width: 0,
                grapheme_count: 0,
                is_wide: false,
                is_wide_continuation: false,
                foreground: TerminalColor::Default,
                background: TerminalColor::Default,
                bold: false,
                italic: false,
                underline: false,
                inverse: false,
            };
        },
        Some(c) => c,
    };
    let text = cell.contents.clone();
    let column_span: u8 = if cell.is_wide_continuation {
        0
    } else if cell.is_wide {
        2
    } else {
        1
    };
    let unicode_width = saturating_u8(text_width(text.as_str()));
    let grapheme_count = saturating_u8(text_graphemes(text.as_str()));
    TerminalCell {
        column,
        text,
        column_span,
        unicode_width,
        grapheme_count,
        is_wide: cell.is_wide,
        is_wide_continuation: cell.is_wide_continuation,
        foreground: cell.fgcolor,
        background: cell.bgcolor,
        bold: cell.bold,
        italic: cell.italic,
        underline: cell.underline,
        inverse: cell.inverse,
    }
}

/// The line of row `row`: every column from 0 to `cols - 1`.
pub open spec fn screen_line_spec(screen: ScreenView, row: int) -> TerminalLineView {
    TerminalLineView {
        row: row as u16,
        wrapped: (screen.wrapped)(row as u16),
        cells: Seq::new(
            screen.cols as nat,
            |c: int| map_cell_spec(c as u16, (screen.cell)(row as u16, c as u16)),
        ),
    }
}

/// One line per row of the screen.
pub open spec fn screen_lines(screen: ScreenView) -> Seq<TerminalLineView> {
    Seq::new(screen.rows as nat, |row: int| screen_line_spec(screen, row))
}

/// The snapshot of a screen, with the escape-sequence counts seen so far: one line per row,
/// the cursor (visible unless hidden), the modes, no scrollback, and the screen's text.
pub open spec fn screen_snapshot(screen: ScreenView, metrics: EscapeSequenceMetrics) -> TerminalSnapshotView {
    TerminalSnapshotView {
        rows: screen.rows,
        cols: screen.cols,
        cursor: TerminalCursor {
            row: screen.cursor_row,
            col: screen.cursor_col,
            visible: !screen.hide_cursor,
        },
        modes: TerminalModes {
            application_cursor: screen.application_cursor,
            application_keypad: screen.application_keypad,
            bracketed_paste: screen.bracketed_paste,
            alternate_screen: screen.alternate_screen,
        },
        escape_sequence_metrics: metrics,
        lines: screen_lines(screen),
        scrollback: seq![],
        plain_text: screen.contents,
    }
}

/// Each cell of a screen's snapshot, at row `row` and column `col` inside the screen, has
/// the screen cell's text, colors and attributes there (an empty cell in the default colors
/// where the screen has none), and its row and column.
pub proof fn lemma_snapshot_cells_follow_screen(
    screen: ScreenView,
    metrics: EscapeSequenceMetrics,
    row: u16,
    col: u16,
)
    requires
        row < screen.rows,
        col < screen.cols,
    ensures
        ({
            let line = screen_snapshot(screen, metrics).lines[row as int];
            let cell = line.cells[col as int];
            &&& line.row == row
            &&& line.cells.len() == screen.cols
            &&& cell.column == col
            &&& (screen.cell)(row, col) matches Some(c) ==> {
                &&& cell.text == c.contents
                &&& cell.foreground == c.fgcolor
                &&& cell.background == c.bgcolor
                &&& cell.bold == c.bold
                &&& cell.italic == c.italic
                &&& cell.underline == c.underline
                &&& cell.inverse == c.inverse
            }
            &&& (screen.cell)(row, col) is None ==> cell.text.len() == 0 && cell.foreground
                == TerminalColorView::Default && cell.background == TerminalColorView::Default
        }),
{
    lemma_mapped_cell_keeps_screen_cell(col, (screen.cell)(row, col));
    assert(screen_snapshot(screen, metrics).lines[row as int] == screen_line_spec(screen, row as int));
    assert(screen_line_spec(screen, row as int).cells[col as int] == map_cell_spec(
        col as int as u16,
        (screen.cell)(row as int as u16, col as int as u16),
    ));
}

/// Screens that answer alike inside their size have the same snapshot.
pub proof fn lemma_agreeing_screens_snapshot(a: ScreenView, b: ScreenView, metrics: EscapeSequenceMetrics)
    requires
        screens_agree(a, b),
    ensures
        screen_snapshot(a, metrics) == screen_snapshot(b, metrics),
{
    assert forall|row: int| 0 <= row < a.rows implies screen_line_spec(a, row) == screen_line_spec(
        b,
        row,
    ) by {
        assert((a.wrapped)(row as u16) == (b.wrapped)(row as u16));
        assert forall|c: int| 0 <= c < a.cols implies #[trigger] screen_line_spec(a, row).cells[c]
            == screen_line_spec(b, row).cells[c] by {
            let cc = c as u16;
            assert((a.cell)(row as u16, cc) == (b.cell)(row as u16, cc));
        }
        assert(screen_line_spec(a, row).cells =~= screen_line_spec(b, row).cells);
    }
    assert(screen_lines(a) =~= screen_lines(b));
}

fn screen_line(screen: &ScreenState, row: u16) -> (r: TerminalLine)
    ensures
        r@ == screen_line_spec(screen@, row as int),
{
    let mut cells: Vec<TerminalCell> = Vec::new();
    let mut col: u16 = 0;
    while col < screen.cols
        invariant
            col <= screen.cols,
            cells@.len() == col,
            forall|c: int|
                0 <= c < col ==> (#[trigger] cells@[c])@ == map_cell_spec(
                    c as u16,
                    opt_cell_view(screen.cell_at(row as int, c)),
                ),
        decreases screen.cols - col,
    {
        let cell = screen.cell(row, col);
        let mapped = map_cell(
            col,
            match cell {
                Some(c) => Some(c),
                None => None,
            },
        );
        cells.push(mapped);
        col += 1;
    }
    let line = TerminalLine { row, wrapped: screen.wrapped(row), cells };
    assert(cells_view(line.cells@) =~= screen_line_spec(screen@, row as int).cells);
    line
}

/// The snapshot of a screen, with the escape-sequence counts seen so far.
pub fn snapshot_from_screen(screen: &ScreenState, metrics: EscapeSequenceMetrics) -> (r:
    TerminalSnapshot)
    ensures
        r@ == screen_snapshot(screen@, metrics),
{
    let mut lines: Vec<TerminalLine> = Vec::new();
    let mut row: u16 = 0;
    while row < screen.rows
        invariant
            row <= screen.rows,
            lines@.len() == row,
            forall|k: int| 0 <= k < row ==> (#[trigger] lines@[k])@ == screen_line_spec(screen@, k),
        decreases screen.rows - row,
    {
        lines.push(screen_line(screen, row));
        row += 1;
    }
    assert(lines_view(lines@) =~= screen_lines(screen@));
    let r = TerminalSnapshot {
        rows: screen.rows,
        cols: screen.cols,
        cursor: TerminalCursor {
            row: screen.cursor_row,
            col: screen.cursor_col,
            visible: !screen.hide_cursor,
        },
        modes: TerminalModes {
            application_cursor: screen.application_cursor,
            application_keypad: screen.application_keypad,
            bracketed_paste: screen.bracketed_paste,
            alternate_screen: screen.alternate_screen,
        },
        escape_sequence_metrics: metrics,
        lines,
        scrollback: Vec::new(),
        plain_text: screen.contents.clone(),
    };
    assert(lines_view(r.scrollback@) =~= Seq::<TerminalLineView>::empty());
    r
}

// ---------------------------------------------------------------------------------------------
// The vt100 state core
// ---------------------------------------------------------------------------------------------

#[verifier::external_type_specification]
#[verifier::external_body]
pub struct ExVt100Parser(vt100::Parser);

/// One piece of what a terminal is fed: output bytes, or a new size.
pub enum TerminalFeed {
    Output(Seq<u8>),
    Resize { rows: u16, cols: u16 },
}

/// Name for the screen of `vt100::Parser::new(rows, cols, scrollback_len)` after it was fed
/// `feeds` in order (`process(bytes)` for output, `set_size(rows, cols)` for a new size), as
/// its `Screen` answers: `size`, `cursor_position`, `hide_cursor`, `application_cursor`,
/// `application_keypad`, `bracketed_paste`, `alternate_screen`, `row_wrapped(row)`,
/// `cell(row, col)` (with `vt100::Color` read as [`TerminalColor`]) and `contents`.
pub uninterp spec fn vt100_screen(
    rows: u16,
    cols: u16,
    scrollback_len: usize,
    feeds: Seq<TerminalFeed>,
) -> ScreenView;

/// The size of a terminal made with `rows` by `cols` after `feeds`: the last new size among
/// them, or the size it was made with.
pub open spec fn current_size(rows: u16, cols: u16, feeds: Seq<TerminalFeed>) -> (u16, u16)
    decreases feeds.len(),
{
    if feeds.len() == 0 {
        (rows, cols)
    } else {
        match feeds.last() {
            TerminalFeed::Resize { rows: r, cols: c } => (r, c),
            TerminalFeed::Output(_) => current_size(rows, cols, feeds.drop_last()),
        }
    }
}

/// Output leaves the size as it was.
pub proof fn lemma_output_keeps_size(rows: u16, cols: u16, feeds: Seq<TerminalFeed>, bytes: Seq<u8>)
    ensures
        current_size(rows, cols, feeds.push(TerminalFeed::Output(bytes))) == current_size(
            rows,
            cols,
            feeds,
        ),
{
    assert(feeds.push(TerminalFeed::Output(bytes)).drop_last() =~= feeds);
}

/// A `vt100` parser together with the size it was made with and what it was fed since.
/// Only the functions below make or change one, so the parser always shows `vt100_screen`
/// of those inputs.
struct Vt100Screen {
    parser: vt100::Parser,
    rows: Ghost<u16>,
    cols: Ghost<u16>,
    scrollback_len: Ghost<usize>,
    feeds: Ghost<Seq<TerminalFeed>>,
}

/// `vt100::Parser::new(rows, cols, scrollback_len)`: claimed to make a parser that has been
/// fed nothing. The parser subtracts one from each dimension when it sets up its grid, so
/// both must be positive.
#[verifier::external_body]
fn vt100_open(rows: u16, cols: u16, scrollback_len: usize) -> (r: Vt100Screen)
    requires
        rows > 0,
        cols > 0,
    ensures
        r.rows@ == rows,
        r.cols@ == cols,
        r.scrollback_len@ == scrollback_len,
        r.feeds@ == Seq::<TerminalFeed>::empty(),
{
    Vt100Screen {
        parser: vt100::Parser::new(rows, cols, scrollback_len),
        rows: Ghost(rows),
        cols: Ghost(cols),
        scrollback_len: Ghost(scrollback_len),
        feeds: Ghost(Seq::empty()),
    }
}

impl Vt100Screen {
    closed spec fn shows(&self) -> ScreenView {
        vt100_screen(self.rows@, self.cols@, self.scrollback_len@, self.feeds@)
    }

    /// `vt100::Parser::process(bytes)`: claimed to feed the parser `bytes` after what it was
    /// fed before. A double-width character on a screen of one column makes the parser
    /// subtract two from the width, so the screen must be at least two columns wide.
    #[verifier::external_body]
    fn process(&mut self, bytes: &[u8])
        requires
            current_size(old(self).rows@, old(self).cols@, old(self).feeds@).1 >= 2,
        ensures
            final(self).rows == old(self).rows,
            final(self).cols == old(self).cols,
            final(self).scrollback_len == old(self).scrollback_len,
            final(self).feeds@ == old(self).feeds@.push(TerminalFeed::Output(bytes@)),
    {
        self.parser.process(bytes);
        proof {
            self.feeds@ = self.feeds@.push(TerminalFeed::Output(bytes@));
        }
    }

    /// `vt100::Parser::set_size(rows, cols)`: claimed to feed the parser the new size after
    /// what it was fed before. The grid subtracts one from each dimension, so both must be
    /// positive.
    #[verifier::external_body]
    fn set_size(&mut self, rows: u16, cols: u16)
        requires
            rows > 0,
            cols > 0,
        ensures
            final(self).rows == old(self).rows,
            final(self).cols == old(self).cols,
            final(self).scrollback_len == old(self).scrollback_len,
            final(self).feeds@ == old(self).feeds@.push(TerminalFeed::Resize { rows, cols }),
    {
        self.parser.set_size(rows, cols);
        proof {
            self.feeds@ = self.feeds@.push(TerminalFeed::Resize { rows, cols });
        }
    }

    /// `vt100::Screen::size` of the parser's screen: claimed to be the rows and columns that
    /// `vt100_screen` gives for the parser's inputs, which are the size the parser was made
    /// with or last given by `set_size` (both grids take each size).
    #[verifier::external_body]
    fn size(&self) -> (r: (u16, u16))
        ensures
            r == current_size(self.rows@, self.cols@, self.feeds@),
            r == (
                vt100_screen(self.rows@, self.cols@, self.scrollback_len@, self.feeds@).rows,
                vt100_screen(self.rows@, self.cols@, self.scrollback_len@, self.feeds@).cols,
            ),
    {
        self.parser.screen().size()
    }

    /// `vt100::Screen::cursor_position`: claimed to be the cursor row and column of
    /// `vt100_screen` of the parser's inputs.
    #[verifier::external_body]
    fn cursor_position(&self) -> (r: (u16, u16))
        ensures
            r == (self.shows().cursor_row, self.shows().cursor_col),
    {
        self.parser.screen().cursor_position()
    }

    /// `vt100::Screen::hide_cursor`: claimed to be the hidden-cursor mode of `vt100_screen` of
    /// the parser's inputs.
    #[verifier::external_body]
    fn hide_cursor(&self) -> (r: bool)
        ensures
            r == self.shows().hide_cursor,
    {
        self.parser.screen().hide_cursor()
    }

    /// `vt100::Screen::application_cursor`: claimed to be that mode of `vt100_screen` of the
    /// parser's inputs.
    #[verifier::external_body]
    fn application_cursor(&self) -> (r: bool)
        ensures
            r == self.shows().application_cursor,
    {
        self.parser.screen().application_cursor()
    }

    /// `vt100::Screen::application_keypad`: claimed to be that mode of `vt100_screen` of the
    /// parser's inputs.
    #[verifier::external_body]
    fn application_keypad(&self) -> (r: bool)
        ensures
            r == self.shows().application_keypad,
    {
        self.parser.screen().application_keypad()
    }

    /// `vt100::Screen::bracketed_paste`: claimed to be that mode of `vt100_screen` of the
    /// parser's inputs.
    #[verifier::external_body]
    fn bracketed_paste(&self) -> (r: bool)
        ensures
            r == self.shows().bracketed_paste,
    {
        self.parser.screen().bracketed_paste()
    }

    /// `vt100::Screen::alternate_screen`: claimed to be that mode of `vt100_screen` of the
    /// parser's inputs.
    #[verifier::external_body]
    fn alternate_screen(&self) -> (r: bool)
        ensures
            r == self.shows().alternate_screen,
    {
        self.parser.screen().alternate_screen()
    }

    /// `vt100::Screen::row_wrapped(row)`: claimed to be the wrap flag that `vt100_screen` of
    /// the parser's inputs gives row `row` (false outside the screen, as the source shows).
    #[verifier::external_body]
    fn row_wrapped(&self, row: u16) -> (r: bool)
        ensures
            r == (self.shows().wrapped)(row),
    {
        self.parser.screen().row_wrapped(row)
    }

    /// `vt100::Screen::contents`: claimed to be the text of `vt100_screen` of the parser's
    /// inputs.
    #[verifier::external_body]
    fn contents(&self) -> (r: String)
        ensures
            r@ == self.shows().contents,
    {
        self.parser.screen().contents()
    }

    /// `vt100::Screen::cell(row, col)`, read as its text (`Cell::contents`) and flags
    /// (`is_wide`, `is_wide_continuation`, `bold`, `italic`, `underline`, `inverse`): claimed
    /// to be none exactly where `vt100_screen` of the parser's inputs has no cell, else that
    /// cell's text and flags.
    #[verifier::external_body]
    fn cell_text(&self, row: u16, col: u16) -> (r: Option<(String, bool, bool, bool, bool, bool, bool)>)
        ensures
            match (self.shows().cell)(row, col) {
                None => r is None,
                Some(v) => r matches Some(t) && t.0@ == v.contents && t.1 == v.is_wide && t.2
                    == v.is_wide_continuation && t.3 == v.bold && t.4 == v.italic && t.5
                    == v.underline && t.6 == v.inverse,
            },
    {
        let c = self.parser.screen().cell(row, col)?;
        Some((c.contents(), c.is_wide(), c.is_wide_continuation(), c.bold(), c.italic(),
            c.underline(), c.inverse()))
    }

    /// `vt100::Screen::cell(row, col)`, read as its colors (`Cell::fgcolor`, `Cell::bgcolor`,
    /// each `vt100::Color` variant as the [`TerminalColor`] variant of the same name): claimed
    /// to be none exactly where `vt100_screen` of the parser's inputs has no cell, else that
    /// cell's colors.
    #[verifier::external_body]
    fn cell_colors(&self, row: u16, col: u16) -> (r: Option<(TerminalColor, TerminalColor)>)
        ensures
            match (self.shows().cell)(row, col) {
                None => r is None,
                Some(v) => r matches Some(p) && p.0@ == v.fgcolor && p.1@ == v.bgcolor,
            },
    {
        let c = self.parser.screen().cell(row, col)?;
        let fg = match c.fgcolor() {
            vt100::Color::Default => TerminalColor::Default,
            vt100::Color::Idx(i) => TerminalColor::Indexed(i),
            vt100::Color::Rgb(r, g, b) => TerminalColor::Rgb([r, g, b]),
        };
        let bg = match c.bgcolor() {
            vt100::Color::Default => TerminalColor::Default,
            vt100::Color::Idx(i) => TerminalColor::Indexed(i),
            vt100::Color::Rgb(r, g, b) => TerminalColor::Rgb([r, g, b]),
        };
        Some((fg, bg))
    }
}

fn read_cell(t: &Vt100Screen, row: u16, col: u16) -> (r: Option<ScreenCell>)
    ensures
        opt_cell_view(r) == (t.shows().cell)(row, col),
{
    let text = t.cell_text(row, col);
    let colors = t.cell_colors(row, col);
    match (text, colors) {
        (Some(x), Some(c)) => Some(
            ScreenCell {
                contents: x.0,
                is_wide: x.1,
                is_wide_continuation: x.2,
                fgcolor: c.0,
                bgcolor: c.1,
                bold: x.3,
                italic: x.4,
                underline: x.5,
                inverse: x.6,
            },
        ),
        _ => None,
    }
}

/// The screen a parser shows, read position by position.
fn read_screen(t: &Vt100Screen) -> (r: ScreenState)
    ensures
        screens_agree(r@, t.shows()),
        (r.rows, r.cols) == current_size(t.rows@, t.cols@, t.feeds@),
{
    let ghost v = t.shows();
    let (height, width) = t.size();
    let mut row_wrapped: Vec<bool> = Vec::new();
    let mut cells: Vec<Vec<Option<ScreenCell>>> = Vec::new();
    let mut row: u16 = 0;
    while row < height
        invariant
            v == t.shows(),
            height == v.rows,
            width == v.cols,
            row <= height,
            row_wrapped@.len() == row,
            cells@.len() == row,
            forall|k: int| 0 <= k < row ==> #[trigger] row_wrapped@[k] == (v.wrapped)(k as u16),
            forall|k: int| 0 <= k < row ==> (#[trigger] cells@[k])@.len() == width,
            forall|k: int, c: int|
                0 <= k < row && 0 <= c < width ==> opt_cell_view(#[trigger] cells@[k]@[c]) == (
                v.cell)(k as u16, c as u16),
        decreases height - row,
    {
        let mut line: Vec<Option<ScreenCell>> = Vec::new();
        let mut col: u16 = 0;
        while col < width
            invariant
                v == t.shows(),
                width == v.cols,
                col <= width,
                line@.len() == col,
                forall|c: int|
                    0 <= c < col ==> opt_cell_view(#[trigger] line@[c]) == (v.cell)(row, c as u16),
            decreases width - col,
        {
            line.push(read_cell(t, row, col));
            col += 1;
        }
        row_wrapped.push(t.row_wrapped(row));
        cells.push(line);
        row += 1;
    }
    let (cursor_row, cursor_col) = t.cursor_position();
    let r = ScreenState {
        rows: height,
        cols: width,
        cursor_row,
        cursor_col,
        hide_cursor: t.hide_cursor(),
        application_cursor: t.application_cursor(),
        application_keypad: t.application_keypad(),
        bracketed_paste: t.bracketed_paste(),
        alternate_screen: t.alternate_screen(),
        row_wrapped,
        cells,
        contents: t.contents(),
    };
    proof {
        assert forall|k: u16| k < r@.rows implies #[trigger] (r@.wrapped)(k) == (v.wrapped)(k) by {
            assert(r.row_wrapped@[k as int] == (v.wrapped)(k));
        }
        assert forall|k: u16, c: u16| k < r@.rows && c < r@.cols implies #[trigger] (r@.cell)(k, c)
            == (v.cell)(k, c) by {
            assert(r.cells@[k as int]@.len() == width);
            assert(opt_cell_view(r.cells@[k as int]@[c as int]) == (v.cell)(k, c));
        }
    }
    r
}

// ---------------------------------------------------------------------------------------------
// The terminal core
// ---------------------------------------------------------------------------------------------

/// What a [`TerminalCore`] holds, as values: the size and scrollback it was made with, what
/// it was fed since, and the counts of the escape-parser events of its output.
pub struct TerminalCoreView {
    pub rows: u16,
    pub cols: u16,
    pub scrollback_len: usize,
    pub feeds: Seq<TerminalFeed>,
    pub metrics: EscapeSequenceMetrics,
}

/// A terminal fed with output: the `vt100` state core keeps the screen, and the
/// escape-parser events of the output are counted.
pub struct TerminalCore {
    screen: Vt100Screen,
    metrics: EscapeSequenceMetrics,
}

impl View for TerminalCore {
    type V = TerminalCoreView;

    closed spec fn view(&self) -> TerminalCoreView {
        TerminalCoreView {
            rows: self.screen.rows@,
            cols: self.screen.cols@,
            scrollback_len: self.screen.scrollback_len@,
            feeds: self.screen.feeds@,
            metrics: self.metrics,
        }
    }
}

impl TerminalCore {
    /// A terminal of `rows` by `cols` with `scrollback_len` lines of scrollback, fed nothing.
    pub fn new(rows: u16, cols: u16, scrollback_len: usize) -> (r: Self)
        requires
            rows > 0,
            cols > 0,
        ensures
            r@ == (TerminalCoreView {
                rows,
                cols,
                scrollback_len,
                feeds: seq![],
                metrics: zero_metrics(),
            }),
    {
        TerminalCore {
            screen: vt100_open(rows, cols, scrollback_len),
            metrics: EscapeSequenceMetrics { print: 0, execute: 0, csi: 0, esc: 0, osc: 0, dcs: 0 },
        }
    }

    /// Feeds output `bytes`, whose escape-parser events are `events`: the screen reads the
    /// bytes and the counts grow by the events. The screen must be at least two columns
    /// wide, as a double-width character does not fit in one.
    pub fn ingest(&mut self, bytes: &[u8], events: &[EscapeEvent])
        requires
            current_size(old(self)@.rows, old(self)@.cols, old(self)@.feeds).1 >= 2,
            counts_after(old(self)@.metrics, events@),
        ensures
            final(self)@ == (TerminalCoreView {
                feeds: old(self)@.feeds.push(TerminalFeed::Output(bytes@)),
                metrics: with_events(old(self)@.metrics, events@),
                ..old(self)@
            }),
    {
        self.screen.process(bytes);
        self.metrics.record_all(events);
    }

    /// Gives the screen a new size.
    pub fn resize(&mut self, rows: u16, cols: u16)
        requires
            rows > 0,
            cols > 0,
        ensures
            final(self)@ == (TerminalCoreView {
                feeds: old(self)@.feeds.push(TerminalFeed::Resize { rows, cols }),
                ..old(self)@
            }),
    {
        self.screen.set_size(rows, cols);
    }

    /// The snapshot of the screen after everything fed so far, with the counts.
    pub fn snapshot(&self) -> (r: TerminalSnapshot)
        ensures
            r@ == screen_snapshot(
                vt100_screen(self@.rows, self@.cols, self@.scrollback_len, self@.feeds),
                self@.metrics,
            ),
            (r.rows, r.cols) == current_size(self@.rows, self@.cols, self@.feeds),
    {
        let state = read_screen(&self.screen);
        proof {
            lemma_agreeing_screens_snapshot(state@, self.screen.shows(), self.metrics);
        }
        snapshot_from_screen(&state, self.metrics)
    }
}

// ---------------------------------------------------------------------------------------------
// Tmux captures
// ---------------------------------------------------------------------------------------------

/// The snapshot of a tmux capture of `rows` by `cols`: the screen of the capture on a
/// terminal of that size, whose scrollback is the lines above the last `rows` lines of the
/// capture on a terminal tall enough to hold every line (renumbered from zero), and whose
/// text is the whole capture's text.
pub open spec fn tmux_snapshot(
    rows: u16,
    cols: u16,
    normalized: Seq<u8>,
    metrics: EscapeSequenceMetrics,
) -> TerminalSnapshotView {
    let full = vt100_screen(
        line_count_rows(normalized, rows),
        cols,
        0,
        seq![TerminalFeed::Output(normalized)],
    );
    let full_lines = screen_lines(full);
    let split_at: int = if full_lines.len() > rows {
        full_lines.len() - rows
    } else {
        0
    };
    TerminalSnapshotView {
        scrollback: Seq::new(
            split_at as nat,
            |i: int| TerminalLineView { row: reindexed_row(i), ..full_lines[i] },
        ),
        plain_text: full.contents,
        ..screen_snapshot(vt100_screen(rows, cols, 0, seq![TerminalFeed::Output(normalized)]), metrics)
    }
}

/// The snapshot of a tmux capture (`normalized`, with `\r\n` line ends) of a pane of
/// `rows` by `cols`, whose escape-parser events are `events`. The pane must be at least two
/// columns wide, as a double-width character does not fit in one.
pub fn build_tmux_terminal_snapshot(
    rows: u16,
    cols: u16,
    normalized: &[u8],
    events: &[EscapeEvent],
) -> (r: TerminalSnapshot)
    requires
        rows > 0,
        cols >= 2,
    ensures
        r@ == tmux_snapshot(rows, cols, normalized@, with_events(zero_metrics(), events@)),
        r.rows == rows,
        r.cols == cols,
{
    proof {
        lemma_output_keeps_size(rows, cols, Seq::<TerminalFeed>::empty(), normalized@);
        assert(events@.len() == events.len());
        lemma_counts_after_zero(events@);
    }
    let mut visible = TerminalCore::new(rows, cols, 0);
    visible.ingest(normalized, events);
    let visible_snapshot = visible.snapshot();

    let full_rows = tmux_capture_line_count(normalized, rows);
    let mut full = TerminalCore::new(full_rows, cols, 0);
    full.ingest(normalized, events);
    let full_snapshot = full.snapshot();
    let (scrollback, plain_text) = split_snapshot_scrollback(&full_snapshot, rows);
    let r = visible_snapshot.with_scrollback(scrollback, plain_text);
    proof {
        let spec = tmux_snapshot(rows, cols, normalized@, with_events(zero_metrics(), events@));
        assert(Seq::<TerminalFeed>::empty().push(TerminalFeed::Output(normalized@)) =~= seq![
            TerminalFeed::Output(normalized@),
        ]);
        assert(lines_view(r.scrollback@) =~= spec.scrollback);
    }
    r
}

} // verus!

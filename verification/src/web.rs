//! The browser terminal: which cells a frame repaints, the palette cells are painted with,
//! and the input state of the mobile keyboard. Pixel geometry and painting stay with the
//! caller.
use vstd::prelude::*;

use crate::terminal::{TerminalColor, TerminalColorView};
use crate::text::{owned, push_char, push_decimal_u8, chars_of, decimal_spec};

pub use crate::terminal::{TerminalCursor, TerminalInputEvent, TerminalKey, TerminalNamedKey};

verus! {

/// One cell as the browser renderer draws it.
#[derive(Debug, Clone, PartialEq, Eq)]
pub struct TerminalCell {
    pub column: u16,
    pub text: String,
    pub foreground: TerminalColor,
    pub background: TerminalColor,
    pub bold: bool,
    pub italic: bool,
    pub underline: bool,
    pub inverse: bool,
}

pub struct TerminalCellView {
    pub column: u16,
    pub text: Seq<char>,
    pub foreground: TerminalColorView,
    pub background: TerminalColorView,
    pub bold: bool,
    pub italic: bool,
    pub underline: bool,
    pub inverse: bool,
}

impl View for TerminalCell {
    type V = TerminalCellView;

    open spec fn view(&self) -> TerminalCellView {
        TerminalCellView {
            column: self.column,
            text: self.text@,
            foreground: self.foreground@,
            background: self.background@,
            bold: self.bold,
            italic: self.italic,
            underline: self.underline,
            inverse: self.inverse,
        }
    }
}

#[derive(Debug, Clone, PartialEq, Eq)]
pub struct TerminalLine {
    pub row: u16,
    pub wrapped: bool,
    pub cells: Vec<TerminalCell>,
}

#[derive(Debug, Clone, PartialEq, Eq)]
pub struct TerminalSnapshot {
    pub rows: u16,
    pub cols: u16,
    pub cursor: TerminalCursor,
    pub lines: Vec<TerminalLine>,
    pub plain_text: String,
}

#[derive(Debug, Clone, PartialEq, Eq)]
pub struct TerminalSurfaceState {
    pub session_id: String,
    pub snapshot: TerminalSnapshot,
}

pub open spec fn cells_view(cells: Seq<TerminalCell>) -> Seq<TerminalCellView> {
    cells.map_values(|c: TerminalCell| c@)
}

fn cell_eq(a: &TerminalCell, b: &TerminalCell) -> (r: bool)
    ensures
        r == (a@ == b@),
{
    a.column == b.column && a.text == b.text && a.foreground == b.foreground && a.background
        == b.background && a.bold == b.bold && a.italic == b.italic && a.underline == b.underline
        && a.inverse == b.inverse
}

fn clone_cell(c: &TerminalCell) -> (r: TerminalCell)
    ensures
        r@ == c@,
{
    TerminalCell {
        column: c.column,
        text: c.text.clone(),
        foreground: c.foreground,
        background: c.background,
        bold: c.bold,
        italic: c.italic,
        underline: c.underline,
        inverse: c.inverse,
    }
}

/// A copy of a snapshot, cell by cell.
pub fn clone_snapshot(s: &TerminalSnapshot) -> (r: TerminalSnapshot)
    ensures
        r.rows == s.rows,
        r.cols == s.cols,
        r.lines@.len() == s.lines@.len(),
        forall|i: int|
            0 <= i < s.lines@.len() ==> (#[trigger] r.lines@[i]).row == s.lines@[i].row
                && cells_view(r.lines@[i].cells@) == cells_view(s.lines@[i].cells@),
{
    let mut lines: Vec<TerminalLine> = Vec::new();
    let mut i: usize = 0;
    while i < s.lines.len()
        invariant
            i <= s.lines@.len(),
            lines@.len() == i,
            forall|k: int|
                0 <= k < i ==> (#[trigger] lines@[k]).row == s.lines@[k].row && cells_view(
                    lines@[k].cells@,
                ) == cells_view(s.lines@[k].cells@),
        decreases s.lines@.len() - i,
    {
        let src = &s.lines[i];
        let mut cells: Vec<TerminalCell> = Vec::new();
        let mut j: usize = 0;
        while j < src.cells.len()
            invariant
                j <= src.cells@.len(),
                cells@.len() == j,
                forall|k: int| 0 <= k < j ==> (#[trigger] cells@[k])@ == src.cells@[k]@,
            decreases src.cells@.len() - j,
        {
            cells.push(clone_cell(&src.cells[j]));
            j += 1;
        }
        assert(cells_view(cells@) =~= cells_view(src.cells@));
        lines.push(TerminalLine { row: src.row, wrapped: src.wrapped, cells });
        i += 1;
    }
    TerminalSnapshot {
        rows: s.rows,
        cols: s.cols,
        cursor: s.cursor,
        lines,
        plain_text: s.plain_text.clone(),
    }
}

// ---------------------------------------------------------------------------------------------
// Repaint planning
// ---------------------------------------------------------------------------------------------

/// The first line of `lines` on row `row`, as its cells.
pub open spec fn first_line_cells(lines: Seq<TerminalLine>, row: u16) -> Option<Seq<TerminalCellView>>
    decreases lines.len(),
{
    if lines.len() == 0 {
        None
    } else if lines[0].row == row {
        Some(cells_view(lines[0].cells@))
    } else {
        first_line_cells(lines.drop_first(), row)
    }
}

/// The first cell of `cells` in column `column`.
pub open spec fn first_cell(cells: Seq<TerminalCellView>, column: u16) -> Option<TerminalCellView>
    decreases cells.len(),
{
    if cells.len() == 0 {
        None
    } else if cells[0].column == column {
        Some(cells[0])
    } else {
        first_cell(cells.drop_first(), column)
    }
}

/// A cell needs repainting unless the previous frame had the same cell in the same row and
/// column.
pub open spec fn cell_changed_spec(previous: Option<Seq<TerminalLine>>, row: u16, cell: TerminalCellView) -> bool {
    match previous {
        None => true,
        Some(lines) => match first_line_cells(lines, row) {
            None => true,
            Some(cells) => match first_cell(cells, cell.column) {
                None => true,
                Some(p) => p != cell,
            },
        },
    }
}

/// Some line of `lines` on row `row` holds a cell equal to `cell` in every field (column,
/// text, span, widths, colors and attributes).
pub open spec fn previous_has_cell(lines: Seq<TerminalLine>, row: u16, cell: TerminalCellView) -> bool {
    exists|i: int, k: int|
        0 <= i < lines.len() && lines[i].row == row && 0 <= k < lines[i].cells@.len()
            && #[trigger] lines[i].cells@[k]@ == cell
}

proof fn lemma_first_line_cells_found(lines: Seq<TerminalLine>, row: u16) -> (i: int)
    requires
        first_line_cells(lines, row) is Some,
    ensures
        0 <= i < lines.len(),
        lines[i].row == row,
        first_line_cells(lines, row) == Some(cells_view(lines[i].cells@)),
    decreases lines.len(),
{
    if lines[0].row == row {
        0
    } else {
        let j = lemma_first_line_cells_found(lines.drop_first(), row);
        assert(lines.drop_first()[j] == lines[j + 1]);
        j + 1
    }
}

proof fn lemma_first_cell_found(cells: Seq<TerminalCellView>, column: u16) -> (k: int)
    requires
        first_cell(cells, column) is Some,
    ensures
        0 <= k < cells.len(),
        first_cell(cells, column) == Some(cells[k]),
    decreases cells.len(),
{
    if cells[0].column == column {
        0
    } else {
        let j = lemma_first_cell_found(cells.drop_first(), column);
        assert(cells.drop_first()[j] == cells[j + 1]);
        j + 1
    }
}

/// A cell counts as unchanged only when the previous frame has a line on the same row
/// holding a cell equal to it in every field; a cell that differs from the previous cell in
/// its place in any field (text, colors or attributes) is changed.
pub proof fn lemma_unchanged_cell_equals_previous(
    previous: Option<Seq<TerminalLine>>,
    row: u16,
    cell: TerminalCellView,
)
    ensures
        !cell_changed_spec(previous, row, cell) ==> previous is Some && previous_has_cell(
            previous->0,
            row,
            cell,
        ),
{
    if !cell_changed_spec(previous, row, cell) {
        let lines = previous->0;
        let i = lemma_first_line_cells_found(lines, row);
        let cells = cells_view(lines[i].cells@);
        let k = lemma_first_cell_found(cells, cell.column);
        assert(cells[k] == lines[i].cells@[k]@);
        assert(lines[i].cells@[k]@ == cell);
    }
}

fn find_line(lines: &Vec<TerminalLine>, row: u16) -> (r: Option<usize>)
    ensures
        match r {
            Some(i) => i < lines@.len() && first_line_cells(lines@, row) == Some(
                cells_view(lines@[i as int].cells@),
            ),
            None => first_line_cells(lines@, row) is None,
        },
{
    let mut i: usize = 0;
    proof {
        assert(lines@.skip(0) =~= lines@);
    }
    while i < lines.len()
        invariant
            i <= lines@.len(),
            first_line_cells(lines@, row) == first_line_cells(lines@.skip(i as int), row),
        decreases lines@.len() - i,
    {
        proof {
            assert(lines@.skip(i as int)[0] == lines@[i as int]);
            assert(lines@.skip(i as int).drop_first() =~= lines@.skip(i + 1));
        }
        if lines[i].row == row {
            return Some(i);
        }
        i += 1;
    }
    None
}

fn find_cell(cells: &Vec<TerminalCell>, column: u16) -> (r: Option<usize>)
    ensures
        match r {
            Some(i) => i < cells@.len() && first_cell(cells_view(cells@), column) == Some(
                cells@[i as int]@,
            ),
            None => first_cell(cells_view(cells@), column) is None,
        },
{
    let mut i: usize = 0;
    proof {
        assert(cells_view(cells@).skip(0) =~= cells_view(cells@));
    }
    while i < cells.len()
        invariant
            i <= cells@.len(),
            first_cell(cells_view(cells@), column) == first_cell(
                cells_view(cells@).skip(i as int),
                column,
            ),
        decreases cells@.len() - i,
    {
        proof {
            assert(cells_view(cells@).skip(i as int)[0] == cells@[i as int]@);
            assert(cells_view(cells@).skip(i as int).drop_first() =~= cells_view(cells@).skip(
                i + 1,
            ));
        }
        if cells[i].column == column {
            return Some(i);
        }
        i += 1;
    }
    None
}

/// Whether a cell of row `row` must be repainted, given the previous frame's lines.
pub fn cell_changed(previous: Option<&TerminalSnapshot>, row: u16, cell: &TerminalCell) -> (r: bool)
    ensures
        r == cell_changed_spec(
            match previous {
                Some(p) => Some(p.lines@),
                None => None,
            },
            row,
            cell@,
        ),
        !r ==> (previous matches Some(p) && previous_has_cell(p.lines@, row, cell@)),
{
    proof {
        lemma_unchanged_cell_equals_previous(
            match previous {
                Some(p) => Some(p.lines@),
                None => None,
            },
            row,
            cell@,
        );
    }
    let previous = match previous {
        None => {
            return true;
        },
        Some(p) => p,
    };
    let li = match find_line(&previous.lines, row) {
        None => {
            return true;
        },
        Some(i) => i,
    };
    let ci = match find_cell(&previous.lines[li].cells, cell.column) {
        None => {
            return true;
        },
        Some(i) => i,
    };
    !cell_eq(&previous.lines[li].cells[ci], cell)
}

/// The outcome of one rendered frame.
#[derive(Debug, Clone, Copy, PartialEq, Eq, Structural)]
pub struct RenderReport {
    pub frame_index: u64,
    pub full_repaint: bool,
    pub dirty_cells: usize,
    pub draw_operations: usize,
    pub layout_epoch: u64,
}

/// Which cells one frame draws, in drawing order, as (line index, cell index) pairs, and
/// whether the frame clears and repaints everything.
#[derive(Debug, Clone, PartialEq, Eq)]
pub struct FramePlan {
    pub full_repaint: bool,
    pub cells: Vec<(usize, usize)>,
}

/// The cells a frame draws: all of them on a full repaint, else the changed ones, line by
/// line and cell by cell.
pub open spec fn dirty_cells_spec(
    lines: Seq<TerminalLine>,
    full: bool,
    previous: Option<Seq<TerminalLine>>,
) -> Seq<(int, int)>
    decreases lines.len(),
{
    if lines.len() == 0 {
        seq![]
    } else {
        let i = lines.len() - 1;
        let line = lines[i];
        dirty_cells_spec(lines.drop_last(), full, previous) + Seq::new(
            line.cells@.len(),
            |j: int| (i, j),
        ).filter(dirty_pred(full, previous, line))
    }
}

/// Whether the cell at a (line index, cell index) position of `line` is drawn.
pub open spec fn dirty_pred(full: bool, previous: Option<Seq<TerminalLine>>, line: TerminalLine) -> spec_fn(
    (int, int),
) -> bool {
    |p: (int, int)| full || cell_changed_spec(previous, line.row, line.cells@[p.1]@)
}

/// A line as the repaint planner compares it: its row and its cells.
pub open spec fn line_shape(line: TerminalLine) -> (u16, Seq<TerminalCellView>) {
    (line.row, cells_view(line.cells@))
}

pub open spec fn lines_shape(lines: Seq<TerminalLine>) -> Seq<(u16, Seq<TerminalCellView>)> {
    lines.map_values(|l: TerminalLine| line_shape(l))
}

/// No two lines share a row, and no two cells of one line share a column.
pub open spec fn distinct_positions(lines: Seq<TerminalLine>) -> bool {
    &&& forall|i: int, k: int| 0 <= i < k < lines.len() ==> lines[i].row != lines[k].row
    &&& forall|i: int, j: int, k: int|
        0 <= i < lines.len() && 0 <= j < k < lines[i].cells@.len() ==> lines[i].cells@[j].column
            != lines[i].cells@[k].column
}

proof fn lemma_first_line_cells_by_shape(a: Seq<TerminalLine>, b: Seq<TerminalLine>, row: u16)
    requires
        lines_shape(a) == lines_shape(b),
    ensures
        first_line_cells(a, row) == first_line_cells(b, row),
    decreases a.len(),
{
    assert(lines_shape(a).len() == a.len() && lines_shape(b).len() == b.len());
    if a.len() > 0 {
        assert(lines_shape(a)[0] == lines_shape(b)[0]);
        assert(lines_shape(a.drop_first()) =~= lines_shape(a).drop_first());
        assert(lines_shape(b.drop_first()) =~= lines_shape(b).drop_first());
        lemma_first_line_cells_by_shape(a.drop_first(), b.drop_first(), row);
    }
}

proof fn lemma_first_line_cells_at(lines: Seq<TerminalLine>, i: int)
    requires
        forall|x: int, k: int| 0 <= x < k < lines.len() ==> lines[x].row != lines[k].row,
        0 <= i < lines.len(),
    ensures
        first_line_cells(lines, lines[i].row) == Some(cells_view(lines[i].cells@)),
    decreases i,
{
    if i > 0 {
        assert(lines[0].row != lines[i].row);
        let rest = lines.drop_first();
        assert(rest[i - 1] == lines[i]);
        lemma_first_line_cells_at(rest, i - 1);
    }
}

proof fn lemma_first_cell_at(cells: Seq<TerminalCellView>, j: int)
    requires
        forall|x: int, k: int| 0 <= x < k < cells.len() ==> cells[x].column != cells[k].column,
        0 <= j < cells.len(),
    ensures
        first_cell(cells, cells[j].column) == Some(cells[j]),
    decreases j,
{
    if j > 0 {
        assert(cells[0].column != cells[j].column);
        let rest = cells.drop_first();
        assert(rest[j - 1] == cells[j]);
        lemma_first_cell_at(rest, j - 1);
    }
}

proof fn lemma_nothing_dirty(lines: Seq<TerminalLine>, previous: Seq<TerminalLine>)
    requires
        forall|i: int|
            0 <= i < lines.len() ==> first_line_cells(previous, (#[trigger] lines[i]).row) == Some(
                cells_view(lines[i].cells@),
            ),
        forall|i: int, j: int, k: int|
            0 <= i < lines.len() && 0 <= j < k < lines[i].cells@.len() ==> lines[i].cells@[j].column
                != lines[i].cells@[k].column,
    ensures
        dirty_cells_spec(lines, false, Some(previous)) == Seq::<(int, int)>::empty(),
    decreases lines.len(),
{
    if lines.len() > 0 {
        let n = lines.len() - 1;
        let init = lines.drop_last();
        assert forall|i: int| 0 <= i < init.len() implies first_line_cells(
            previous,
            (#[trigger] init[i]).row,
        ) == Some(cells_view(init[i].cells@)) by {
            assert(init[i] == lines[i]);
        }
        assert forall|i: int, j: int, k: int|
            0 <= i < init.len() && 0 <= j < k < init[i].cells@.len() implies init[i].cells@[j].column
            != init[i].cells@[k].column by {
            assert(init[i] == lines[i]);
        }
        lemma_nothing_dirty(init, previous);
        let line = lines[n];
        let all = Seq::new(line.cells@.len(), |j: int| (n, j));
        let pred = dirty_pred(false, Some(previous), line);
        let cv = cells_view(line.cells@);
        assert(first_line_cells(previous, line.row) == Some(cv));
        assert forall|j: int| 0 <= j < all.len() implies !pred(#[trigger] all[j]) by {
            assert forall|x: int, k: int| 0 <= x < k < cv.len() implies cv[x].column
                != cv[k].column by {
                assert(cv[x] == line.cells@[x]@ && cv[k] == line.cells@[k]@);
            }
            lemma_first_cell_at(cv, j);
            assert(cv[j] == line.cells@[j]@);
        }
        all.lemma_all_neg_filter_empty(pred);
        assert(dirty_cells_spec(lines, false, Some(previous)) == dirty_cells_spec(
            init,
            false,
            Some(previous),
        ) + all.filter(pred));
    }
}

/// Drawing lines again over a frame that drew the same lines, without a full repaint, draws
/// no cell, as long as no two lines share a row and no two cells of a line share a column.
pub proof fn lemma_unchanged_frame_draws_nothing(lines: Seq<TerminalLine>, previous: Seq<TerminalLine>)
    requires
        distinct_positions(lines),
        lines_shape(previous) == lines_shape(lines),
    ensures
        dirty_cells_spec(lines, false, Some(previous)) == Seq::<(int, int)>::empty(),
{
    assert forall|i: int| 0 <= i < lines.len() implies first_line_cells(
        previous,
        (#[trigger] lines[i]).row,
    ) == Some(cells_view(lines[i].cells@)) by {
        lemma_first_line_cells_by_shape(previous, lines, lines[i].row);
        lemma_first_line_cells_at(lines, i);
    }
    lemma_nothing_dirty(lines, previous);
}

/// The repaint state of a browser renderer: the last snapshot drawn, the number of frames
/// drawn, and whether the next frame must repaint everything.
#[derive(Debug)]
pub struct RenderState {
    previous: Option<TerminalSnapshot>,
    frame_index: u64,
    force_full_repaint: bool,
}

impl RenderState {
    pub closed spec fn frame_index_view(&self) -> u64 {
        self.frame_index
    }

    pub closed spec fn forces_full_repaint(&self) -> bool {
        self.force_full_repaint
    }

    pub closed spec fn previous_lines(&self) -> Option<Seq<TerminalLine>> {
        match self.previous {
            Some(p) => Some(p.lines@),
            None => None,
        }
    }

    pub closed spec fn previous_size(&self) -> Option<(u16, u16)> {
        match self.previous {
            Some(p) => Some((p.rows, p.cols)),
            None => None,
        }
    }

    /// A renderer that has drawn nothing: its first frame repaints everything.
    pub fn new() -> (r: Self)
        ensures
            r.frame_index_view() == 0,
            r.forces_full_repaint(),
            r.previous_size() is None,
    {
        RenderState { previous: None, frame_index: 0, force_full_repaint: true }
    }

    /// The number of frames drawn.
    pub fn frame_index(&self) -> (r: u64)
        ensures
            r == self.frame_index_view(),
    {
        self.frame_index
    }

    /// The viewport changed: the next frame repaints everything.
    pub fn viewport_changed(&mut self)
        ensures
            final(self).forces_full_repaint(),
            final(self).frame_index_view() == old(self).frame_index_view(),
            final(self).previous_size() == old(self).previous_size(),
            final(self).previous_lines() == old(self).previous_lines(),
    {
        self.force_full_repaint = true;
    }

    /// Plans the next frame for `surface` and remembers it as drawn. A frame repaints
    /// everything when forced, when nothing was drawn before, or when the size changed;
    /// otherwise it draws the cells that differ from the last frame.
    pub fn plan_frame(&mut self, surface: &TerminalSurfaceState) -> (r: FramePlan)
        requires
            old(self).frame_index_view() < u64::MAX,
        ensures
            r.full_repaint == (old(self).forces_full_repaint() || old(self).previous_size() is None
                || old(self).previous_size() != Some((surface.snapshot.rows, surface.snapshot.cols))),
            r.cells@.map_values(|p: (usize, usize)| (p.0 as int, p.1 as int)) == dirty_cells_spec(
                surface.snapshot.lines@,
                r.full_repaint,
                old(self).previous_lines(),
            ),
            final(self).frame_index_view() == old(self).frame_index_view() + 1,
            !final(self).forces_full_repaint(),
            final(self).previous_size() == Some((surface.snapshot.rows, surface.snapshot.cols)),
            final(self).previous_lines() matches Some(p) && lines_shape(p) == lines_shape(
                surface.snapshot.lines@,
            ),
    {
        let snapshot = &surface.snapshot;
        let full_repaint = self.force_full_repaint || match &self.previous {
            None => true,
            Some(p) => p.rows != snapshot.rows || p.cols != snapshot.cols,
        };
        let ghost prev_lines = self.previous_lines();
        let mut cells: Vec<(usize, usize)> = Vec::new();
        let mut i: usize = 0;
        while i < snapshot.lines.len()
            invariant
                i <= snapshot.lines@.len(),
                prev_lines == self.previous_lines(),
                cells@.map_values(|p: (usize, usize)| (p.0 as int, p.1 as int)) == dirty_cells_spec(
                    snapshot.lines@.take(i as int),
                    full_repaint,
                    prev_lines,
                ),
            decreases snapshot.lines@.len() - i,
        {
            let line = &snapshot.lines[i];
            let ghost base = cells@.map_values(|p: (usize, usize)| (p.0 as int, p.1 as int));
            let ghost all = Seq::new(line.cells@.len(), |j: int| (i as int, j));
            let ghost pred = dirty_pred(full_repaint, prev_lines, *line);
            let mut j: usize = 0;
            while j < line.cells.len()
                invariant
                    j <= line.cells@.len(),
                    i < snapshot.lines@.len(),
                    *line == snapshot.lines@[i as int],
                    prev_lines == self.previous_lines(),
                    all == Seq::new(line.cells@.len(), |j: int| (i as int, j)),
                    pred == dirty_pred(full_repaint, prev_lines, *line),
                    cells@.map_values(|p: (usize, usize)| (p.0 as int, p.1 as int)) == base
                        + all.take(j as int).filter(pred),
                decreases line.cells@.len() - j,
            {
                let changed = full_repaint || cell_changed(
                    match &self.previous {
                        Some(p) => Some(p),
                        None => None,
                    },
                    line.row,
                    &line.cells[j],
                );
                proof {
                    reveal(Seq::filter);
                    assert(all.take(j + 1).drop_last() =~= all.take(j as int));
                    assert(all.take(j + 1).last() == (i as int, j as int));
                }
                if changed {
                    let ghost before = cells@;
                    cells.push((i, j));
                    proof {
                        assert(cells@.map_values(|p: (usize, usize)| (p.0 as int, p.1 as int))
                            =~= before.map_values(|p: (usize, usize)| (p.0 as int, p.1 as int)).push(
                            (i as int, j as int),
                        ));
                    }
                }
                j += 1;
            }
            proof {
                assert(all.take(j as int) =~= all);
                assert(snapshot.lines@.take(i + 1).drop_last() =~= snapshot.lines@.take(i as int));
                assert(snapshot.lines@.take(i + 1).last() == *line);
            }
            i += 1;
        }
        proof {
            assert(snapshot.lines@.take(i as int) =~= snapshot.lines@);
        }
        let drawn = clone_snapshot(snapshot);
        proof {
            assert(lines_shape(drawn.lines@) =~= lines_shape(snapshot.lines@));
        }
        self.previous = Some(drawn);
        self.force_full_repaint = false;
        self.frame_index = self.frame_index + 1;
        FramePlan { full_repaint, cells }
    }

    /// The report of a frame drawn after `plan`, at viewport layout `layout_epoch`.
    pub fn report(&self, plan: &FramePlan, layout_epoch: u64) -> (r: RenderReport)
        ensures
            r == (RenderReport {
                frame_index: self.frame_index_view(),
                full_repaint: plan.full_repaint,
                dirty_cells: plan.cells@.len() as usize,
                draw_operations: plan.cells@.len() as usize,
                layout_epoch,
            }),
    {
        RenderReport {
            frame_index: self.frame_index,
            full_repaint: plan.full_repaint,
            dirty_cells: plan.cells.len(),
            draw_operations: plan.cells.len(),
            layout_epoch,
        }
    }
}

// ---------------------------------------------------------------------------------------------
// Benchmark surfaces
// ---------------------------------------------------------------------------------------------

/// A `rows` by `cols` surface of blank cells in default colors.
pub fn sample_surface(rows: u16, cols: u16) -> (r: TerminalSurfaceState)
    ensures
        r.snapshot.rows == rows,
        r.snapshot.cols == cols,
        r.snapshot.lines@.len() == rows,
        forall|i: int|
            0 <= i < rows ==> (#[trigger] r.snapshot.lines@[i]).row == i && r.snapshot.lines@[i].cells@.len()
                == cols && forall|j: int|
                0 <= j < cols ==> (#[trigger] r.snapshot.lines@[i].cells@[j])@ == (TerminalCellView {
                    column: j as u16,
                    text: " "@,
                    foreground: TerminalColorView::Default,
                    background: TerminalColorView::Default,
                    bold: false,
                    italic: false,
                    underline: false,
                    inverse: false,
                }),
{
    let mut lines: Vec<TerminalLine> = Vec::new();
    let mut row: u16 = 0;
    while row < rows
        invariant
            row <= rows,
            lines@.len() == row,
            forall|i: int|
                0 <= i < row ==> (#[trigger] lines@[i]).row == i && lines@[i].cells@.len() == cols
                    && forall|j: int|
                    0 <= j < cols ==> (#[trigger] lines@[i].cells@[j])@ == (TerminalCellView {
                        column: j as u16,
                        text: " "@,
                        foreground: TerminalColorView::Default,
                        background: TerminalColorView::Default,
                        bold: false,
                        italic: false,
                        underline: false,
                        inverse: false,
                    }),
        decreases rows - row,
    {
        let mut cells: Vec<TerminalCell> = Vec::new();
        let mut column: u16 = 0;
        while column < cols
            invariant
                column <= cols,
                cells@.len() == column,
                forall|j: int|
                    0 <= j < column ==> (#[trigger] cells@[j])@ == (TerminalCellView {
                        column: j as u16,
                        text: " "@,
                        foreground: TerminalColorView::Default,
                        background: TerminalColorView::Default,
                        bold: false,
                        italic: false,
                        underline: false,
                        inverse: false,
                    }),
            decreases cols - column,
        {
            cells.push(
                TerminalCell {
                    column,
                    text: owned(" "),
                    foreground: TerminalColor::Default,
                    background: TerminalColor::Default,
                    bold: false,
                    italic: false,
                    underline: false,
                    inverse: false,
                },
            );
            column += 1;
        }
        lines.push(TerminalLine { row, wrapped: false, cells });
        row += 1;
    }
    TerminalSurfaceState {
        session_id: owned("benchmark"),
        snapshot: TerminalSnapshot {
            rows,
            cols,
            cursor: TerminalCursor { row: 0, col: 0, visible: true },
            lines,
            plain_text: String::new(),
        },
    }
}

/// The grid slot written by update `idx` of frame `frame`, with `n` updates a frame.
pub open spec fn mutation_slot(frame: int, n: int, idx: int, rows: int, cols: int) -> int {
    (frame * n + idx) % (rows * cols)
}

/// Whether one of the first `count` updates of frame `frame` writes grid slot `slot`.
pub open spec fn slot_touched_by(frame: int, n: int, count: int, rows: int, cols: int, slot: int) -> bool {
    exists|idx: int| 0 <= idx < count && #[trigger] mutation_slot(frame, n, idx, rows, cols) == slot
}

/// Whether some update of frame `frame` writes grid slot `slot`.
pub open spec fn slot_touched(frame: int, n: int, rows: int, cols: int, slot: int) -> bool {
    slot_touched_by(frame, n, n, rows, cols, slot)
}

/// The letter written into grid slot `slot` at frame `frame`.
pub open spec fn mutation_letter(slot: int, frame: int) -> char {
    (((slot + frame) % 26) + 97) as char
}

/// A cell as frame `frame` of the benchmark leaves it at grid slot `slot`.
pub open spec fn mutated_cell(c: TerminalCellView, slot: int, frame: int) -> TerminalCellView {
    TerminalCellView {
        text: seq![mutation_letter(slot, frame)],
        bold: frame % 2 == 0,
        underline: frame % 3 == 0,
        ..c
    }
}

/// The surface holds at least a `rows` by `cols` grid of cells.
pub open spec fn holds_grid(surface: TerminalSurfaceState) -> bool {
    let snap = surface.snapshot;
    &&& snap.lines@.len() >= snap.rows
    &&& forall|i: int| 0 <= i < snap.rows ==> (#[trigger] snap.lines@[i]).cells@.len() >= snap.cols
}

/// Whether the surface holds at least a `rows` by `cols` grid of cells.
pub fn surface_holds_grid(surface: &TerminalSurfaceState) -> (r: bool)
    ensures
        r == holds_grid(*surface),
{
    let snap = &surface.snapshot;
    if snap.lines.len() < snap.rows as usize {
        return false;
    }
    let mut i: usize = 0;
    while i < snap.rows as usize
        invariant
            i <= snap.rows,
            snap.lines@.len() >= snap.rows,
            *snap == surface.snapshot,
            forall|k: int| 0 <= k < i ==> (#[trigger] snap.lines@[k]).cells@.len() >= snap.cols,
        decreases snap.rows - i,
    {
        if snap.lines[i].cells.len() < snap.cols as usize {
            return false;
        }
        i += 1;
    }
    true
}

fn write_cell(cell: &mut TerminalCell, letter: char, bold: bool, underline: bool)
    ensures
        final(cell)@ == (TerminalCellView {
            text: seq![letter],
            bold,
            underline,
            ..old(cell)@
        }),
{
    let mut text = String::new();
    push_char(&mut text, letter);
    proof {
        assert(text@ =~= seq![letter]);
    }
    cell.text = text;
    cell.bold = bold;
    cell.underline = underline;
}

/// Frame `frame` of the benchmark: `updates_per_frame` consecutive grid slots, counted
/// from `frame * updates_per_frame` and wrapping around the grid, get a letter and the
/// frame's bold and underline; a grid without cells stays as it is.
pub fn mutate_surface(surface: &mut TerminalSurfaceState, frame: usize, updates_per_frame: usize)
    requires
        holds_grid(*old(surface)),
        frame * updates_per_frame + updates_per_frame <= usize::MAX,
    ensures
        final(surface).session_id == old(surface).session_id,
        final(surface).snapshot.rows == old(surface).snapshot.rows,
        final(surface).snapshot.cols == old(surface).snapshot.cols,
        final(surface).snapshot.cursor == old(surface).snapshot.cursor,
        final(surface).snapshot.plain_text == old(surface).snapshot.plain_text,
        final(surface).snapshot.lines@.len() == old(surface).snapshot.lines@.len(),
        forall|i: int|
            0 <= i < old(surface).snapshot.lines@.len() ==> {
                let before = old(surface).snapshot.lines@[i];
                let after = #[trigger] final(surface).snapshot.lines@[i];
                &&& after.row == before.row
                &&& after.wrapped == before.wrapped
                &&& after.cells@.len() == before.cells@.len()
                &&& forall|j: int|
                    0 <= j < before.cells@.len() ==> (#[trigger] after.cells@[j])@ == if i
                        < old(surface).snapshot.rows && j < old(surface).snapshot.cols
                        && slot_touched(
                        frame as int,
                        updates_per_frame as int,
                        old(surface).snapshot.rows as int,
                        old(surface).snapshot.cols as int,
                        i * old(surface).snapshot.cols + j,
                    ) {
                        mutated_cell(
                            before.cells@[j]@,
                            i * old(surface).snapshot.cols + j,
                            frame as int,
                        )
                    } else {
                        before.cells@[j]@
                    }
            },
{
    let rows = surface.snapshot.rows as usize;
    let cols = surface.snapshot.cols as usize;
    let ghost start = *surface;
    if rows == 0 || cols == 0 {
        return;
    }
    proof {
        assert(0 < rows * cols <= 65535 * 65535) by (nonlinear_arith)
            requires
                0 < rows <= 65535,
                0 < cols <= 65535,
        ;
    }
    let grid = rows * cols;
    let bold = frame % 2 == 0;
    let underline = frame % 3 == 0;
    let mut idx: usize = 0;
    while idx < updates_per_frame
        invariant
            rows == start.snapshot.rows,
            cols == start.snapshot.cols,
            rows > 0,
            cols > 0,
            grid == rows * cols,
            grid > 0,
            bold == (frame % 2 == 0),
            underline == (frame % 3 == 0),
            idx <= updates_per_frame,
            frame * updates_per_frame + updates_per_frame <= usize::MAX,
            holds_grid(start),
            surface.session_id == start.session_id,
            surface.snapshot.rows == start.snapshot.rows,
            surface.snapshot.cols == start.snapshot.cols,
            surface.snapshot.cursor == start.snapshot.cursor,
            surface.snapshot.plain_text == start.snapshot.plain_text,
            surface.snapshot.lines@.len() == start.snapshot.lines@.len(),
            forall|i: int|
                0 <= i < start.snapshot.lines@.len() ==> {
                    let before = start.snapshot.lines@[i];
                    let after = #[trigger] surface.snapshot.lines@[i];
                    &&& after.row == before.row
                    &&& after.wrapped == before.wrapped
                    &&& after.cells@.len() == before.cells@.len()
                    &&& forall|j: int|
                        0 <= j < before.cells@.len() ==> (#[trigger] after.cells@[j])@ == if i
                            < rows && j < cols && slot_touched_by(
                            frame as int,
                            updates_per_frame as int,
                            idx as int,
                            rows as int,
                            cols as int,
                            i * cols + j,
                        ) {
                            mutated_cell(before.cells@[j]@, i * cols + j, frame as int)
                        } else {
                            before.cells@[j]@
                        }
                },
        decreases updates_per_frame - idx,
    {
        proof {
            assert(frame * updates_per_frame + idx < usize::MAX) by (nonlinear_arith)
                requires
                    frame * updates_per_frame + updates_per_frame <= usize::MAX,
                    idx < updates_per_frame,
            ;
        }
        let linear = (frame * updates_per_frame + idx) % grid;
        let row = linear / cols;
        let column = linear % cols;
        proof {
            assert(linear == row * cols + column) by (nonlinear_arith)
                requires
                    row == linear / cols,
                    column == linear % cols,
                    cols > 0,
            ;
            assert(row < rows) by (nonlinear_arith)
                requires
                    row == linear / cols,
                    linear < rows * cols,
                    cols > 0,
            ;
            assert(start.snapshot.lines@[row as int].cells@.len() >= cols);
        }
        let letter_code: u8 = ((linear % 26 + frame % 26) % 26) as u8;
        proof {
            vstd::arithmetic::div_mod::lemma_add_mod_noop(linear as int, frame as int, 26);
        }
        let letter = (letter_code + 97) as char;
        let ghost prev = surface.snapshot.lines@;
        write_cell(&mut surface.snapshot.lines[row].cells[column], letter, bold, underline);
        proof {
            let n = updates_per_frame as int;
            assert(mutation_slot(frame as int, n, idx as int, rows as int, cols as int) == linear);
            assert forall|i: int|
                0 <= i < start.snapshot.lines@.len() implies {
                let before = start.snapshot.lines@[i];
                let after = #[trigger] surface.snapshot.lines@[i];
                &&& after.row == before.row
                &&& after.wrapped == before.wrapped
                &&& after.cells@.len() == before.cells@.len()
                &&& forall|j: int|
                    0 <= j < before.cells@.len() ==> (#[trigger] after.cells@[j])@ == if i < rows
                        && j < cols && slot_touched_by(
                        frame as int,
                        n,
                        idx + 1,
                        rows as int,
                        cols as int,
                        i * cols + j,
                    ) {
                        mutated_cell(before.cells@[j]@, i * cols + j, frame as int)
                    } else {
                        before.cells@[j]@
                    }
            } by {
                let before = start.snapshot.lines@[i];
                let after = surface.snapshot.lines@[i];
                assert forall|j: int| 0 <= j < before.cells@.len() implies (
                #[trigger] after.cells@[j])@ == if i < rows && j < cols && slot_touched_by(
                    frame as int,
                    n,
                    idx + 1,
                    rows as int,
                    cols as int,
                    i * cols + j,
                ) {
                    mutated_cell(before.cells@[j]@, i * cols + j, frame as int)
                } else {
                    before.cells@[j]@
                } by {
                    let slot = i * cols + j;
                    if i == row && j == column {
                        assert(slot_touched_by(frame as int, n, idx + 1, rows as int, cols as int, slot));
                    } else {
                        assert(after.cells@[j] == prev[i].cells@[j]);
                        if i < rows && j < cols {
                            assert(slot != linear) by (nonlinear_arith)
                                requires
                                    slot == i * cols + j,
                                    linear == row * cols + column,
                                    0 <= j < cols,
                                    0 <= column < cols,
                                    !(i == row && j == column),
                                    0 <= i,
                                    0 <= row,
                            ;
                            if slot_touched_by(frame as int, n, idx + 1, rows as int, cols as int, slot) {
                                let w = choose|w: int|
                                    0 <= w < idx + 1 && #[trigger] mutation_slot(
                                        frame as int,
                                        n,
                                        w,
                                        rows as int,
                                        cols as int,
                                    ) == slot;
                                assert(w < idx);
                                assert(slot_touched_by(frame as int, n, idx as int, rows as int, cols as int, slot));
                            }
                        }
                    }
                }
            }
        }
        idx += 1;
    }
}

// ---------------------------------------------------------------------------------------------
// Palette
// ---------------------------------------------------------------------------------------------

/// The web color of palette entry `index`: sixteen named entries, the rest near-white.
pub open spec fn indexed_color_spec(index: u8) -> Seq<char> {
    if index == 0 {
        "#1f2430"@
    } else if index == 1 {
        "#ff6b6b"@
    } else if index == 2 {
        "#98c379"@
    } else if index == 3 {
        "#e5c07b"@
    } else if index == 4 {
        "#61afef"@
    } else if index == 5 {
        "#c678dd"@
    } else if index == 6 {
        "#56b6c2"@
    } else if index == 7 {
        "#dcdfe4"@
    } else if index == 8 {
        "#5c6370"@
    } else if index == 9 {
        "#ff7b72"@
    } else if index == 10 {
        "#b8e994"@
    } else if index == 11 {
        "#f4d35e"@
    } else if index == 12 {
        "#7cc7ff"@
    } else if index == 13 {
        "#d2a8ff"@
    } else if index == 14 {
        "#7ee7f2"@
    } else {
        "#f8fafc"@
    }
}

pub fn indexed_web_color(index: u8) -> (r: &'static str)
    ensures
        r@ == indexed_color_spec(index),
{
    match index {
        0 => "#1f2430",
        1 => "#ff6b6b",
        2 => "#98c379",
        3 => "#e5c07b",
        4 => "#61afef",
        5 => "#c678dd",
        6 => "#56b6c2",
        7 => "#dcdfe4",
        8 => "#5c6370",
        9 => "#ff7b72",
        10 => "#b8e994",
        11 => "#f4d35e",
        12 => "#7cc7ff",
        13 => "#d2a8ff",
        14 => "#7ee7f2",
        _ => "#f8fafc",
    }
}

/// The foreground used for the default color.
pub open spec fn default_foreground() -> Seq<char> {
    "#e5e7eb"@
}

/// The background used for the default color.
pub open spec fn default_background() -> Seq<char> {
    "#282c34"@
}

/// The CSS color of a terminal color, in the foreground or background role.
pub open spec fn web_color_spec(color: TerminalColorView, background: bool) -> Seq<char> {
    match color {
        TerminalColorView::Default => if background {
            default_background()
        } else {
            default_foreground()
        },
        TerminalColorView::Indexed(i) => indexed_color_spec(i),
        TerminalColorView::Rgb(r, g, b) => "rgb("@ + decimal_spec(r as nat) + ", "@ + decimal_spec(
            g as nat,
        ) + ", "@ + decimal_spec(b as nat) + ")"@,
    }
}

pub fn web_color(color: &TerminalColor, background: bool) -> (r: String)
    ensures
        r@ == web_color_spec(color@, background),
{
    match color {
        TerminalColor::Default => {
            if background {
                owned("#282c34")
            } else {
                owned("#e5e7eb")
            }
        },
        TerminalColor::Indexed(idx) => owned(indexed_web_color(*idx)),
        TerminalColor::Rgb(c) => {
            let mut s = owned("rgb(");
            push_decimal_u8(&mut s, c[0]);
            s.append(", ");
            push_decimal_u8(&mut s, c[1]);
            s.append(", ");
            push_decimal_u8(&mut s, c[2]);
            s.append(")");
            s
        },
    }
}

/// The foreground and background a cell is painted with: its colors in their roles,
/// swapped when the cell is inverse.
pub fn resolve_web_cell_colors(cell: &TerminalCell) -> (r: (String, String))
    ensures
        !cell.inverse ==> r.0@ == web_color_spec(cell.foreground@, false) && r.1@ == web_color_spec(
            cell.background@,
            true,
        ),
        cell.inverse ==> r.0@ == web_color_spec(cell.background@, true) && r.1@ == web_color_spec(
            cell.foreground@,
            false,
        ),
{
    let foreground = web_color(&cell.foreground, false);
    let background = web_color(&cell.background, true);
    if cell.inverse {
        (background, foreground)
    } else {
        (foreground, background)
    }
}

// ---------------------------------------------------------------------------------------------
// Mobile input
// ---------------------------------------------------------------------------------------------

#[derive(Debug, Clone, Copy, PartialEq, Eq, Structural, PartialOrd, Ord)]
pub enum ModifierLatch {
    Ctrl,
    Alt,
    Shift,
}

/// The input state of the on-screen keyboard: latched modifiers, a selection anchor, a paste
/// awaiting commit, an IME composition, and the viewport layout it belongs to.
#[derive(Debug, Clone, PartialEq, Eq)]
pub struct MobileInputState {
    ctrl: bool,
    alt: bool,
    shift: bool,
    selection_anchor: Option<(u16, u16)>,
    pending_paste: Option<String>,
    composition_buffer: String,
    viewport_epoch: u64,
}

/// What a [`MobileInputState`] holds, as values.
pub struct MobileInputView {
    pub ctrl: bool,
    pub alt: bool,
    pub shift: bool,
    pub selection_anchor: Option<(u16, u16)>,
    pub pending_paste: Option<Seq<char>>,
    pub composition_buffer: Seq<char>,
    pub viewport_epoch: u64,
}

impl View for MobileInputState {
    type V = MobileInputView;

    closed spec fn view(&self) -> MobileInputView {
        MobileInputView {
            ctrl: self.ctrl,
            alt: self.alt,
            shift: self.shift,
            selection_anchor: self.selection_anchor,
            pending_paste: match self.pending_paste {
                Some(p) => Some(p@),
                None => None,
            },
            composition_buffer: self.composition_buffer@,
            viewport_epoch: self.viewport_epoch,
        }
    }
}

pub open spec fn latched(v: MobileInputView, m: ModifierLatch) -> bool {
    match m {
        ModifierLatch::Ctrl => v.ctrl,
        ModifierLatch::Alt => v.alt,
        ModifierLatch::Shift => v.shift,
    }
}

pub open spec fn with_latch(v: MobileInputView, m: ModifierLatch, on: bool) -> MobileInputView {
    match m {
        ModifierLatch::Ctrl => MobileInputView { ctrl: on, ..v },
        ModifierLatch::Alt => MobileInputView { alt: on, ..v },
        ModifierLatch::Shift => MobileInputView { shift: on, ..v },
    }
}

pub open spec fn released(v: MobileInputView) -> MobileInputView {
    MobileInputView { ctrl: false, alt: false, shift: false, ..v }
}

impl Default for MobileInputState {
    fn default() -> (r: Self)
        ensures
            r@ == (MobileInputView {
                ctrl: false,
                alt: false,
                shift: false,
                selection_anchor: None,
                pending_paste: None,
                composition_buffer: Seq::<char>::empty(),
                viewport_epoch: 0,
            }),
    {
        MobileInputState {
            ctrl: false,
            alt: false,
            shift: false,
            selection_anchor: None,
            pending_paste: None,
            composition_buffer: String::new(),
            viewport_epoch: 0,
        }
    }
}

impl MobileInputState {
    /// Latches a modifier that is not latched, releases one that is.
    pub fn toggle_modifier(&mut self, modifier: ModifierLatch)
        ensures
            final(self)@ == with_latch(old(self)@, modifier, !latched(old(self)@, modifier)),
    {
        match modifier {
            ModifierLatch::Ctrl => {
                self.ctrl = !self.ctrl;
            },
            ModifierLatch::Alt => {
                self.alt = !self.alt;
            },
            ModifierLatch::Shift => {
                self.shift = !self.shift;
            },
        }
    }

    /// The latched modifiers, in the order Ctrl, Alt, Shift.
    pub fn latched_modifiers(&self) -> (r: Vec<ModifierLatch>)
        ensures
            r@ == (if self@.ctrl {
                seq![ModifierLatch::Ctrl]
            } else {
                seq![]
            }) + (if self@.alt {
                seq![ModifierLatch::Alt]
            } else {
                seq![]
            }) + (if self@.shift {
                seq![ModifierLatch::Shift]
            } else {
                seq![]
            }),
    {
        let mut v = Vec::new();
        if self.ctrl {
            v.push(ModifierLatch::Ctrl);
        }
        if self.alt {
            v.push(ModifierLatch::Alt);
        }
        if self.shift {
            v.push(ModifierLatch::Shift);
        }
        proof {
            assert(v@ =~= (if self@.ctrl {
                seq![ModifierLatch::Ctrl]
            } else {
                seq![]
            }) + (if self@.alt {
                seq![ModifierLatch::Alt]
            } else {
                seq![]
            }) + (if self@.shift {
                seq![ModifierLatch::Shift]
            } else {
                seq![]
            }));
        }
        v
    }

    pub fn set_selection_anchor(&mut self, row: u16, col: u16)
        ensures
            final(self)@ == (MobileInputView { selection_anchor: Some((row, col)), ..old(self)@ }),
    {
        self.selection_anchor = Some((row, col));
    }

    pub fn start_composition(&mut self, composition: String)
        ensures
            final(self)@ == (MobileInputView { composition_buffer: composition@, ..old(self)@ }),
    {
        self.composition_buffer = composition;
    }

    /// Typed text. With Ctrl latched and exactly one character it becomes a key chord with
    /// the latched modifiers; otherwise plain text. Either way all latches are released.
    pub fn emit_text(&mut self, text: String) -> (r: TerminalInputEvent)
        ensures
            final(self)@ == released(old(self)@),
            old(self)@.ctrl && text@.len() == 1 ==> r@ == (crate::terminal::TerminalInputEventView::Key {
                key: crate::terminal::TerminalKeyView::Character { text: text@ },
                ctrl: true,
                alt: old(self)@.alt,
                shift: old(self)@.shift,
            }),
            !(old(self)@.ctrl && text@.len() == 1) ==> r@
                == (crate::terminal::TerminalInputEventView::Text { text: text@ }),
    {
        let ctrl = self.ctrl;
        let alt = self.alt;
        let shift = self.shift;
        self.ctrl = false;
        self.alt = false;
        self.shift = false;
        let one_char = chars_of(text.as_str()).len() == 1;
        if ctrl && one_char {
            TerminalInputEvent::Key { key: TerminalKey::Character { text }, ctrl, alt, shift }
        } else {
            TerminalInputEvent::Text { text }
        }
    }

    /// A named key with the latched modifiers, which are then released.
    pub fn emit_named_key(&mut self, key: TerminalNamedKey) -> (r: TerminalInputEvent)
        ensures
            final(self)@ == released(old(self)@),
            r@ == (crate::terminal::TerminalInputEventView::Key {
                key: crate::terminal::TerminalKeyView::Named { key },
                ctrl: old(self)@.ctrl,
                alt: old(self)@.alt,
                shift: old(self)@.shift,
            }),
    {
        let ctrl = self.ctrl;
        let alt = self.alt;
        let shift = self.shift;
        self.ctrl = false;
        self.alt = false;
        self.shift = false;
        TerminalInputEvent::Key { key: TerminalKey::Named { key }, ctrl, alt, shift }
    }

    /// A paste: remembered as pending until committed; all latches are released.
    pub fn emit_paste(&mut self, text: String) -> (r: TerminalInputEvent)
        ensures
            final(self)@ == (MobileInputView { pending_paste: Some(text@), ..released(old(self)@) }),
            r@ == (crate::terminal::TerminalInputEventView::Paste { text: text@ }),
    {
        self.pending_paste = Some(text.clone());
        self.ctrl = false;
        self.alt = false;
        self.shift = false;
        TerminalInputEvent::Paste { text }
    }

    pub fn mark_paste_committed(&mut self)
        ensures
            final(self)@ == (MobileInputView { pending_paste: None, ..old(self)@ }),
    {
        self.pending_paste = None;
    }

    /// A viewport at layout `layout_epoch`. A new layout drops the selection, the pending
    /// paste, the composition and all latches; the same layout changes nothing.
    pub fn handle_viewport_change(&mut self, layout_epoch: u64)
        ensures
            layout_epoch == old(self)@.viewport_epoch ==> final(self)@ == old(self)@,
            layout_epoch != old(self)@.viewport_epoch ==> final(self)@ == (MobileInputView {
                ctrl: false,
                alt: false,
                shift: false,
                selection_anchor: None,
                pending_paste: None,
                composition_buffer: Seq::<char>::empty(),
                viewport_epoch: layout_epoch,
            }),
    {
        if layout_epoch == self.viewport_epoch {
            return;
        }
        self.viewport_epoch = layout_epoch;
        self.selection_anchor = None;
        self.pending_paste = None;
        self.composition_buffer = String::new();
        self.ctrl = false;
        self.alt = false;
        self.shift = false;
    }

    pub fn pending_paste(&self) -> (r: Option<&str>)
        ensures
            match r {
                Some(p) => self@.pending_paste == Some(p@),
                None => self@.pending_paste is None,
            },
    {
        match &self.pending_paste {
            Some(p) => Some(p.as_str()),
            None => None,
        }
    }

    pub fn composition_buffer(&self) -> (r: &str)
        ensures
            r@ == self@.composition_buffer,
    {
        self.composition_buffer.as_str()
    }
}

/// Toggling a modifier twice leaves the input state as it was.
pub proof fn lemma_toggle_twice(v: MobileInputView, m: ModifierLatch)
    ensures
        with_latch(with_latch(v, m, !latched(v, m)), m, !latched(with_latch(v, m, !latched(v, m)), m))
            == v,
{
}

} // verus!

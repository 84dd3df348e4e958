//! The terminal model: a grid, a cursor, and the writes that move through it.
use crate::grid::{
    blank_cell, cells_view, cleared_grid, new_grid, reset_row, scrolled_grid, Cell, CellView, Grid,
    GridView, Overflow, Row, RowView,
};
use crate::style::{StyleId, StyleTable, TextStyle};
use crate::text::{display_width, grapheme_clusters, graphemes, str_width};
use crate::time::Time;
use vstd::prelude::*;

verus! {

#[derive(Debug, Clone, Copy, PartialEq, Eq, Default, Structural)]
pub enum CursorStyle {
    #[default]
    Block,
    Underline,
    Bar,
}

/// Default cursor blink half-period: 500ms, a 1s on/off cycle.
pub fn default_cursor_blink() -> (t: Time)
    ensures
        t.0 == 500_000_000,
{
    Time(500_000_000)
}

#[derive(Debug, Clone, Copy, PartialEq, Eq, Structural)]
pub struct CursorState {
    /// Row index, normally in `[0, grid.rows())`. Under `Overflow::Clip` /
    /// `Overflow::Error` it is parked at exactly `grid.rows()` once content
    /// overflows the last row, meaning "not writable".
    pub row: u16,
    /// Column index, normally in `[0, grid.cols()]`; `grid.cols()` means the
    /// cursor sits just past the last column.
    pub col: u16,
    pub visible: bool,
    pub style: CursorStyle,
    /// Half-period of the blink cycle. `None` means a steady, non-blinking cursor.
    pub blink: Option<Time>,
}

pub open spec fn default_cursor() -> CursorState {
    CursorState {
        row: 0,
        col: 0,
        visible: true,
        style: CursorStyle::Block,
        blink: Some(Time(500_000_000)),
    }
}

impl Default for CursorState {
    fn default() -> (c: CursorState)
        ensures
            c == default_cursor(),
    {
        CursorState {
            row: 0,
            col: 0,
            visible: true,
            style: CursorStyle::Block,
            blink: Some(default_cursor_blink()),
        }
    }
}

/// The terminal as a value.
pub struct TermView {
    pub grid: GridView,
    pub cursor: CursorState,
    pub styles: Seq<TextStyle>,
    pub current_style: StyleId,
    pub overflow: Overflow,
    pub scrolled: nat,
}

/// The complete terminal contents at one instant of virtual time.
#[derive(Debug, Clone, PartialEq, Eq)]
pub struct TerminalState {
    pub grid: Grid,
    pub cursor: CursorState,
    pub styles: StyleTable,
    /// Style applied to subsequent writes (`set_color` / `reset_style`).
    pub current_style: StyleId,
    pub overflow: Overflow,
    /// How many times the grid has scrolled.
    pub scrolled: u64,
}

impl View for TerminalState {
    type V = TermView;

    open spec fn view(&self) -> TermView {
        TermView {
            grid: self.grid@,
            cursor: self.cursor,
            styles: self.styles@,
            current_style: self.current_style,
            overflow: self.overflow,
            scrolled: self.scrolled as nat,
        }
    }
}

pub open spec fn new_term(cols: u16, rows: u16, overflow: Overflow) -> TermView {
    TermView {
        grid: new_grid(cols, rows),
        cursor: default_cursor(),
        styles: seq![crate::style::default_style()],
        current_style: StyleId(0),
        overflow,
        scrolled: 0,
    }
}

/// Cells a grapheme occupies: its display width clamped to 2, and at least 1
/// (control characters still take a cell).
pub open spec fn cell_width(g: Seq<char>) -> int {
    let w = display_width(g) as int;
    if w == 0 {
        1
    } else if w > 2 {
        2
    } else {
        w
    }
}

pub open spec fn with_lines(s: TermView, lines: Seq<RowView>) -> TermView {
    TermView { grid: GridView { lines, ..s.grid }, ..s }
}

pub open spec fn with_cursor_at(s: TermView, row: int, col: int) -> TermView {
    TermView { cursor: CursorState { row: row as u16, col: col as u16, ..s.cursor }, ..s }
}

/// Moves to column 0 of the next row; at the last row, scrolls or parks the
/// cursor past the end, per the overflow mode.
pub open spec fn newline_spec(s: TermView) -> TermView {
    let last: int = if s.grid.rows >= 1 {
        s.grid.rows - 1
    } else {
        0
    };
    if (s.cursor.row as int) < last {
        with_cursor_at(s, s.cursor.row + 1, 0)
    } else {
        match s.overflow {
            Overflow::Scroll => with_cursor_at(
                TermView {
                    grid: scrolled_grid(s.grid, 1),
                    scrolled: s.scrolled + 1,
                    ..s
                },
                last,
                0,
            ),
            _ => with_cursor_at(s, s.grid.rows as int, 0),
        }
    }
}

/// Cells after writing grapheme `g` (`w` cells wide) at `col`: the cell itself,
/// then for a wide glyph a zero-width continuation cell. Out-of-range cells are
/// left alone.
pub open spec fn put_cells(
    cells: Seq<CellView>,
    col: int,
    g: Seq<char>,
    w: int,
    style: StyleId,
) -> Seq<CellView> {
    let c1 = if 0 <= col < cells.len() {
        cells.update(col, CellView { g, width: w as u8, style })
    } else {
        cells
    };
    if w == 2 && 0 <= col + 1 < c1.len() {
        c1.update(col + 1, CellView { g: Seq::empty(), width: 0, style })
    } else {
        c1
    }
}

pub open spec fn put_grapheme_spec(s: TermView, g: Seq<char>) -> TermView {
    let w = cell_width(g);
    let s1 = if s.cursor.col + w > s.grid.cols {
        newline_spec(s)
    } else {
        s
    };
    let row = s1.cursor.row as int;
    let col = s1.cursor.col as int;
    if row >= s1.grid.rows {
        s1
    } else {
        let lines = s1.grid.lines;
        let lines2 = if row < lines.len() {
            lines.update(
                row,
                RowView {
                    cells: put_cells(lines[row].cells, col, g, w, s1.current_style),
                    dirty: true,
                    ..lines[row]
                },
            )
        } else {
            lines
        };
        let newcol = if col + w > s1.grid.cols {
            s1.grid.cols as int
        } else {
            col + w
        };
        with_cursor_at(with_lines(s1, lines2), row, newcol)
    }
}

/// The row after backspace erases at `t`: the cell, and its continuation when it
/// leads a wide glyph.
pub open spec fn erase_at(r: RowView, t: int) -> RowView {
    let span = if 0 <= t < r.cells.len() && r.cells[t].width == 2 {
        2int
    } else {
        1int
    };
    let c1 = if 0 <= t < r.cells.len() {
        r.cells.update(t, blank_cell())
    } else {
        r.cells
    };
    let c2 = if span == 2 && 0 <= t + 1 < c1.len() {
        c1.update(t + 1, blank_cell())
    } else {
        c1
    };
    RowView { cells: c2, dirty: true, ..r }
}

pub open spec fn backspace_spec(s: TermView) -> TermView {
    if s.cursor.col == 0 {
        s
    } else {
        let row = s.cursor.row as int;
        let lines = s.grid.lines;
        let t0 = s.cursor.col - 1;
        let t = if row < lines.len() && t0 < lines[row].cells.len() && lines[row].cells[t0].width
            == 0 && t0 > 0 {
            t0 - 1
        } else {
            t0
        };
        let lines2 = if row < lines.len() {
            lines.update(row, erase_at(lines[row], t))
        } else {
            lines
        };
        with_cursor_at(with_lines(s, lines2), row, t)
    }
}

pub open spec fn clear_spec(s: TermView) -> TermView {
    with_cursor_at(TermView { grid: cleared_grid(s.grid), ..s }, 0, 0)
}

/// Writes the graphemes `gs` from `col`, stopping at the first that no longer fits
/// in `cols`; yields the cells and the column reached.
pub open spec fn write_graphemes(
    cells: Seq<CellView>,
    col: int,
    gs: Seq<Seq<char>>,
    style: StyleId,
    cols: int,
) -> (Seq<CellView>, int)
    decreases gs.len(),
{
    if gs.len() == 0 {
        (cells, col)
    } else {
        let w = cell_width(gs[0]);
        if col + w > cols {
            (cells, col)
        } else {
            write_graphemes(
                put_cells(cells, col, gs[0], w, style),
                col + w,
                gs.drop_first(),
                style,
                cols,
            )
        }
    }
}

/// Writes each span's graphemes in turn; a span that runs out of room stops, and
/// the next span continues from the same column.
pub open spec fn write_spans(
    cells: Seq<CellView>,
    col: int,
    spans: Seq<(Seq<char>, StyleId)>,
    cols: int,
) -> Seq<CellView>
    decreases spans.len(),
{
    if spans.len() == 0 {
        cells
    } else {
        let r = write_graphemes(cells, col, grapheme_clusters(spans[0].0), spans[0].1, cols);
        write_spans(r.0, r.1, spans.drop_first(), cols)
    }
}

pub open spec fn spans_view(spans: Seq<(String, StyleId)>) -> Seq<(Seq<char>, StyleId)> {
    Seq::new(spans.len(), |i: int| (spans[i].0@, spans[i].1))
}

pub open spec fn write_row_spec(
    s: TermView,
    row: int,
    spans: Seq<(Seq<char>, StyleId)>,
    id: Option<Seq<char>>,
) -> TermView {
    if 0 <= row < s.grid.lines.len() {
        let blanks = reset_row(s.grid.lines[row]).cells;
        with_lines(
            s,
            s.grid.lines.update(
                row,
                RowView { id, cells: write_spans(blanks, 0, spans, s.grid.cols as int), dirty: true },
            ),
        )
    } else {
        s
    }
}

fn grapheme_cell_width(g: &str) -> (w: u8)
    ensures
        w as int == cell_width(g@),
        1 <= w <= 2,
{
    let w = str_width(g);
    if w == 0 {
        1
    } else if w > 2 {
        2
    } else {
        w as u8
    }
}

fn put_cells_exec(row: &mut Row, col: usize, g: &str, w: u8, style: StyleId)
    requires
        1 <= w <= 2,
    ensures
        final(row)@.cells == put_cells(old(row)@.cells, col as int, g@, w as int, style),
        final(row)@.id == old(row)@.id,
        final(row)@.dirty == old(row)@.dirty,
{
    let ghost c0 = old(row)@.cells;
    if col < row.cells.len() {
        row.cells.set(col, Cell { g: String::from_str(g), width: w, style });
        proof {
            assert(cells_view(row.cells@) =~= c0.update(
                col as int,
                CellView { g: g@, width: w, style },
            ));
        }
    }
    let ghost c1 = row@.cells;
    if w == 2 && col < usize::MAX && col + 1 < row.cells.len() {
        row.cells.set(col + 1, Cell { g: String::new(), width: 0, style });
        proof {
            assert(cells_view(row.cells@) =~= c1.update(
                col + 1,
                CellView { g: Seq::empty(), width: 0, style },
            ));
        }
    }
}

fn blank_cell_at(row: &mut Row, t: usize)
    ensures
        final(row)@ == (RowView {
            cells: if (t as int) < old(row)@.cells.len() {
                old(row)@.cells.update(t as int, blank_cell())
            } else {
                old(row)@.cells
            },
            ..old(row)@
        }),
{
    let ghost c0 = row@.cells;
    if t < row.cells.len() {
        row.cells.set(t, Cell::blank());
        proof {
            assert(cells_view(row.cells@) =~= c0.update(t as int, blank_cell()));
        }
    }
}

impl TerminalState {
    pub open spec fn wf(&self) -> bool {
        self.grid.wf()
    }

    pub fn new(cols: u16, rows: u16, overflow: Overflow) -> (s: TerminalState)
        ensures
            s.wf(),
            s@ == new_term(cols, rows, overflow),
    {
        TerminalState {
            grid: Grid::new(cols, rows),
            cursor: CursorState::default(),
            styles: StyleTable::new(),
            current_style: StyleId(0),
            overflow,
            scrolled: 0,
        }
    }

    /// A copy with the same contents.
    pub fn duplicate(&self) -> (s: TerminalState)
        ensures
            s@ == self@,
            s.wf() == self.wf(),
    {
        TerminalState {
            grid: self.grid.duplicate(),
            cursor: self.cursor,
            styles: self.styles.duplicate(),
            current_style: self.current_style,
            overflow: self.overflow,
            scrolled: self.scrolled,
        }
    }

    pub fn set_style(&mut self, style: StyleId)
        ensures
            final(self)@ == (TermView { current_style: style, ..old(self)@ }),
            final(self).wf() == old(self).wf(),
    {
        self.current_style = style;
    }

    /// Moves to column 0 of the next row, scrolling or clipping at the bottom.
    pub fn newline(&mut self)
        requires
            old(self).wf(),
            old(self).scrolled < u64::MAX,
        ensures
            final(self).wf(),
            final(self)@ == newline_spec(old(self)@),
    {
        proof {
            self.grid.lemma_wf();
        }
        self.cursor.col = 0;
        let rows = self.grid.rows();
        let last = if rows >= 1 {
            rows - 1
        } else {
            0
        };
        if self.cursor.row < last {
            self.cursor.row = self.cursor.row + 1;
            return;
        }
        match self.overflow {
            Overflow::Clip | Overflow::Error => {
                self.cursor.row = rows;
            },
            Overflow::Scroll => {
                self.grid.scroll_up(1);
                self.scrolled = self.scrolled + 1;
                self.cursor.row = last;
            },
        }
    }

    /// Writes one grapheme cluster at the cursor, wrapping and scrolling as needed.
    pub fn put_grapheme(&mut self, grapheme: &str)
        requires
            old(self).wf(),
            old(self).scrolled < u64::MAX,
        ensures
            final(self).wf(),
            final(self)@ == put_grapheme_spec(old(self)@, grapheme@),
    {
        let width = grapheme_cell_width(grapheme);
        let cols = self.grid.cols();
        if (self.cursor.col as u32) + (width as u32) > cols as u32 {
            self.newline();
        }
        let ghost s1 = self@;
        if !(self.cursor.row < self.grid.rows()) {
            return;
        }
        let style = self.current_style;
        let col = self.cursor.col;
        let row_index = self.cursor.row;
        match self.grid.row_mut(row_index) {
            Some(row) => {
                put_cells_exec(row, col as usize, grapheme, width, style);
                row.dirty = true;
            },
            None => {},
        }
        let end = (col as u32) + (width as u32);
        self.cursor.col = if end > cols as u32 {
            cols
        } else {
            end as u16
        };
        proof {
            self.grid.lemma_wf();
            assert(self@.grid.lines =~= put_grapheme_spec(old(self)@, grapheme@).grid.lines);
        }
    }

    /// Erases the cell before the cursor (both cells of a wide glyph) and steps back.
    pub fn backspace(&mut self)
        requires
            old(self).wf(),
        ensures
            final(self).wf(),
            final(self)@ == backspace_spec(old(self)@),
    {
        if self.cursor.col == 0 {
            return;
        }
        let row_index = self.cursor.row;
        let mut target = self.cursor.col - 1;
        match self.grid.row(row_index) {
            Some(row) => {
                if (target as usize) < row.cells.len() && row.cells[target as usize].width == 0
                    && target > 0 {
                    target = target - 1;
                }
            },
            None => {},
        }
        match self.grid.row_mut(row_index) {
            Some(row) => {
                let span: u8 = if (target as usize) < row.cells.len()
                    && row.cells[target as usize].width == 2 {
                    2
                } else {
                    1
                };
                blank_cell_at(row, target as usize);
                if span == 2 {
                    blank_cell_at(row, target as usize + 1);
                }
                row.dirty = true;
            },
            None => {},
        }
        self.cursor.col = target;
        proof {
            assert(self@.grid.lines =~= backspace_spec(old(self)@).grid.lines);
        }
    }

    /// Blanks the grid and homes the cursor.
    pub fn clear(&mut self)
        requires
            old(self).wf(),
        ensures
            final(self).wf(),
            final(self)@ == clear_spec(old(self)@),
    {
        self.grid.clear();
        self.cursor.row = 0;
        self.cursor.col = 0;
    }

    /// Replaces the entire contents of row `row_index` with the given styled spans,
    /// tagging it with `id`. Out-of-range rows are ignored.
    pub fn write_row(&mut self, row_index: u16, spans: &[(String, StyleId)], id: Option<String>)
        requires
            old(self).wf(),
        ensures
            final(self).wf(),
            final(self)@ == write_row_spec(
                old(self)@,
                row_index as int,
                spans_view(spans@),
                crate::grid::opt_text(id),
            ),
    {
        let cols = self.grid.cols();
        let row = match self.grid.row_mut(row_index) {
            Some(row) => row,
            None => {
                return;
            },
        };
        let ghost idv = crate::grid::opt_text(id);
        let ghost old_row = row@;
        row.reset();
        row.id = id;
        let ghost blanks = row@.cells;
        let mut col: u32 = 0;
        let mut k: usize = 0;
        proof {
            assert(spans_view(spans@).skip(0) =~= spans_view(spans@));
        }
        while k < spans.len()
            invariant
                k <= spans@.len(),
                col <= cols,
                row@.id == idv,
                write_spans(blanks, 0, spans_view(spans@), cols as int) == write_spans(
                    row@.cells,
                    col as int,
                    spans_view(spans@).skip(k as int),
                    cols as int,
                ),
            decreases spans@.len() - k,
        {
            let text = &spans[k].0;
            let style = spans[k].1;
            let gs = graphemes(text.as_str());
            let ghost start_cells = row@.cells;
            let ghost start_col = col as int;
            let ghost gsv = grapheme_clusters(text@);
            let ghost rest = spans_view(spans@).skip(k as int);
            proof {
                assert(rest.drop_first() =~= spans_view(spans@).skip(k + 1));
                assert(rest[0] == (text@, style));
                assert(gsv.skip(0) =~= gsv);
            }
            let mut j: usize = 0;
            let mut stopped = false;
            while j < gs.len() && !stopped
                invariant
                    j <= gs@.len() == gsv.len(),
                    row@.id == idv,
                    forall|i: int| 0 <= i < gs@.len() ==> #[trigger] gs@[i]@ == gsv[i],
                    col <= cols,
                    write_graphemes(start_cells, start_col, gsv, style, cols as int)
                        == write_graphemes(row@.cells, col as int, gsv.skip(j as int), style, cols as int),
                    stopped ==> write_graphemes(row@.cells, col as int, gsv.skip(j as int), style, cols as int)
                        == (row@.cells, col as int),
                decreases gs@.len() - j, (if stopped { 0int } else { 1int }),
            {
                let w = grapheme_cell_width(gs[j].as_str());
                proof {
                    assert(gsv.skip(j as int)[0] == gsv[j as int]);
                }
                if col + (w as u32) > cols as u32 {
                    stopped = true;
                } else {
                    put_cells_exec(row, col as usize, gs[j].as_str(), w, style);
                    col = col + (w as u32);
                    j = j + 1;
                    proof {
                        assert(gsv.skip((j - 1) as int).drop_first() =~= gsv.skip(j as int));
                    }
                }
            }
            proof {
                if !stopped {
                    assert(gsv.skip(j as int) =~= Seq::<Seq<char>>::empty());
                }
            }
            k = k + 1;
        }
        proof {
            assert(spans_view(spans@).skip(k as int) =~= Seq::<(Seq<char>, StyleId)>::empty());
            assert(row@.cells == write_spans(blanks, 0, spans_view(spans@), cols as int));
            assert(blanks == reset_row(old_row).cells);
        }
        row.dirty = true;
        proof {
            assert(row@ == (RowView {
                id: idv,
                cells: write_spans(reset_row(old_row).cells, 0, spans_view(spans@), cols as int),
                dirty: true,
            }));
        }
    }
}

/// A backspace right after a write that fits on the cursor's row undoes it:
/// the cursor is back where it was, the cells the write took (one, or two for a
/// wide glyph) are blank, and nothing else changed.
pub proof fn lemma_backspace_undoes_a_write(s: TermView, g: Seq<char>)
    requires
        (s.cursor.row as int) < s.grid.lines.len(),
        s.grid.lines.len() == s.grid.rows,
        s.cursor.col + cell_width(g) <= s.grid.cols,
        s.grid.lines[s.cursor.row as int].cells.len() == s.grid.cols,
    ensures
        ({
            let r = backspace_spec(put_grapheme_spec(s, g));
            let row = s.cursor.row as int;
            let col = s.cursor.col as int;
            let cells = s.grid.lines[row].cells;
            let erased = if cell_width(g) == 2 {
                cells.update(col, blank_cell()).update(col + 1, blank_cell())
            } else {
                cells.update(col, blank_cell())
            };
            &&& r.cursor == s.cursor
            &&& r.grid.rows == s.grid.rows && r.grid.cols == s.grid.cols
            &&& r.grid.lines.len() == s.grid.lines.len()
            &&& r.grid.lines[row].cells == erased
            &&& r.grid.lines[row].id == s.grid.lines[row].id
            &&& forall|i: int| 0 <= i < s.grid.lines.len() && i != row ==> #[trigger] r.grid.lines[i] == s.grid.lines[i]
        }),
{
    let w = cell_width(g);
    let row = s.cursor.row as int;
    let col = s.cursor.col as int;
    let p = put_grapheme_spec(s, g);
    let cells = s.grid.lines[row].cells;
    let put = put_cells(cells, col, g, w, s.current_style);
    assert(p.grid.lines[row].cells == put);
    assert(p.cursor.col == col + w);
    assert(p.cursor.row == s.cursor.row);
    let r = backspace_spec(p);
    if w == 2 {
        assert(put[col + 1].width == 0);
        assert(put[col].width == 2);
        assert(r.grid.lines[row].cells =~= cells.update(col, blank_cell()).update(col + 1, blank_cell()));
    } else {
        assert(put[col].width == w);
        assert(r.grid.lines[row].cells =~= cells.update(col, blank_cell()));
    }
    assert(r.cursor == s.cursor);
}

} // verus!

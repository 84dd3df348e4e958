//! The terminal cell grid: cells hold whole grapheme clusters, rows can be tagged.
use crate::style::StyleId;
use crate::text::str_eq;
use vstd::prelude::*;

verus! {

/// What happens when content runs past the last row.
///
/// `Error` is detected at compile time; at runtime it behaves like `Clip`.
#[derive(Debug, Clone, Copy, PartialEq, Eq, Default, Structural)]
pub enum Overflow {
    Clip,
    #[default]
    Scroll,
    Error,
}

/// One grid cell as a value: grapheme text, display width, style.
pub struct CellView {
    pub g: Seq<char>,
    pub width: u8,
    pub style: StyleId,
}

/// One row as a value.
pub struct RowView {
    pub id: Option<Seq<char>>,
    pub cells: Seq<CellView>,
    pub dirty: bool,
}

/// The grid as a value: its dimensions and its rows, top to bottom.
pub struct GridView {
    pub cols: u16,
    pub rows: u16,
    pub lines: Seq<RowView>,
}

/// One grid cell. `g` holds a whole grapheme cluster, never a raw `char`.
///
/// `width` is 1 for normal cells, 2 for the leading cell of a wide glyph, and 0
/// for the continuation cell that follows a wide glyph.
#[derive(Debug, Clone, PartialEq, Eq)]
pub struct Cell {
    pub g: String,
    pub width: u8,
    pub style: StyleId,
}

impl View for Cell {
    type V = CellView;

    open spec fn view(&self) -> CellView {
        CellView { g: self.g@, width: self.width, style: self.style }
    }
}

pub open spec fn blank_cell() -> CellView {
    CellView { g: " "@, width: 1, style: StyleId(0) }
}

pub open spec fn opt_text(o: Option<String>) -> Option<Seq<char>> {
    match o {
        Some(s) => Some(s@),
        None => None,
    }
}

impl Cell {
    pub fn blank() -> (c: Cell)
        ensures
            c@ == blank_cell(),
    {
        Cell { g: String::from_str(" "), width: 1, style: StyleId(0) }
    }

    pub fn is_blank(&self) -> (b: bool)
        ensures
            b == (self.g@ == " "@),
    {
        proof {
            reveal_strlit(" ");
        }
        let s = self.g.as_str();
        if s.unicode_len() != 1 {
            proof {
                assert(self.g@ != " "@);
            }
            return false;
        }
        let c = s.get_char(0);
        proof {
            if c == ' ' {
                assert(self.g@ =~= " "@);
            }
        }
        c == ' '
    }

    /// A copy with the same contents.
    pub fn duplicate(&self) -> (c: Cell)
        ensures
            c@ == self@,
    {
        Cell { g: self.g.clone(), width: self.width, style: self.style }
    }
}

impl Default for Cell {
    fn default() -> (c: Cell)
        ensures
            c@ == blank_cell(),
    {
        Cell::blank()
    }
}

#[derive(Debug, Clone, PartialEq, Eq)]
pub struct Row {
    /// Set by `status`-style actions so a later update can find this row again.
    pub id: Option<String>,
    pub cells: Vec<Cell>,
    /// Set whenever the row changes; the renderer clears it after re-blitting.
    pub dirty: bool,
}

pub open spec fn cells_view(cells: Seq<Cell>) -> Seq<CellView> {
    Seq::new(cells.len(), |i: int| cells[i]@)
}

impl View for Row {
    type V = RowView;

    open spec fn view(&self) -> RowView {
        RowView { id: opt_text(self.id), cells: cells_view(self.cells@), dirty: self.dirty }
    }
}

pub open spec fn blank_row(cols: nat) -> RowView {
    RowView { id: None, cells: Seq::new(cols, |i: int| blank_cell()), dirty: true }
}

/// A row with every cell blanked, its id dropped, and marked dirty.
pub open spec fn reset_row(r: RowView) -> RowView {
    RowView { id: None, cells: Seq::new(r.cells.len(), |i: int| blank_cell()), dirty: true }
}

pub open spec fn dirtied(r: RowView) -> RowView {
    RowView { dirty: true, ..r }
}

fn blank_cells(n: usize) -> (v: Vec<Cell>)
    ensures
        cells_view(v@) == Seq::new(n as nat, |i: int| blank_cell()),
{
    let mut v: Vec<Cell> = Vec::new();
    let mut i: usize = 0;
    while i < n
        invariant
            i <= n,
            v@.len() == i,
            forall|k: int| 0 <= k < i ==> #[trigger] v@[k]@ == blank_cell(),
        decreases n - i,
    {
        v.push(Cell::blank());
        i = i + 1;
    }
    proof {
        assert(cells_view(v@) =~= Seq::new(n as nat, |i: int| blank_cell()));
    }
    v
}

impl Row {
    pub fn blank(cols: u16) -> (r: Row)
        ensures
            r@ == blank_row(cols as nat),
    {
        Row { id: None, cells: blank_cells(cols as usize), dirty: true }
    }

    /// Blanks every cell, drops the id, and marks the row dirty.
    pub fn reset(&mut self)
        ensures
            final(self)@ == reset_row(old(self)@),
    {
        let n = self.cells.len();
        let mut i: usize = 0;
        while i < n
            invariant
                n == self.cells@.len(),
                i <= n,
                forall|k: int| 0 <= k < i ==> #[trigger] self.cells@[k]@ == blank_cell(),
            decreases n - i,
        {
            self.cells.set(i, Cell::blank());
            i = i + 1;
        }
        self.id = None;
        self.dirty = true;
        proof {
            assert(self@.cells =~= Seq::new(n as nat, |i: int| blank_cell()));
        }
    }

    /// A copy with the same contents.
    pub fn duplicate(&self) -> (r: Row)
        ensures
            r@ == self@,
    {
        let mut cells: Vec<Cell> = Vec::new();
        let mut i: usize = 0;
        while i < self.cells.len()
            invariant
                i <= self.cells@.len(),
                cells@.len() == i,
                forall|k: int| 0 <= k < i ==> #[trigger] cells@[k]@ == self.cells@[k]@,
            decreases self.cells@.len() - i,
        {
            cells.push(self.cells[i].duplicate());
            i = i + 1;
        }
        let id = match &self.id {
            Some(s) => Some(s.clone()),
            None => None,
        };
        proof {
            assert(cells_view(cells@) =~= cells_view(self.cells@));
        }
        Row { id, cells, dirty: self.dirty }
    }
}

#[derive(Debug, Clone, PartialEq, Eq)]
pub struct Grid {
    cols: u16,
    rows: u16,
    rows_buf: Vec<Row>,
}

pub open spec fn rows_view(rows: Seq<Row>) -> Seq<RowView> {
    Seq::new(rows.len(), |i: int| rows[i]@)
}

/// Well formed: one entry per row.
pub open spec fn grid_wf(g: GridView) -> bool {
    g.lines.len() == g.rows
}

pub open spec fn new_grid(cols: u16, rows: u16) -> GridView {
    GridView { cols, rows, lines: Seq::new(rows as nat, |i: int| blank_row(cols as nat)) }
}

/// The grid after `scroll_up(count)`: the top rows are dropped, blank rows
/// appended, and every row is marked dirty.
pub open spec fn scrolled_grid(g: GridView, count: nat) -> GridView {
    if count == 0 {
        g
    } else {
        let c = if count > g.rows {
            g.rows as nat
        } else {
            count
        };
        let kept = g.lines.skip(c as int) + Seq::new(c, |i: int| blank_row(g.cols as nat));
        GridView { lines: Seq::new(kept.len(), |i: int| dirtied(kept[i])), ..g }
    }
}

pub open spec fn cleared_grid(g: GridView) -> GridView {
    GridView { lines: Seq::new(g.lines.len(), |i: int| reset_row(g.lines[i])), ..g }
}

/// Index of the first row whose id is `id`.
pub open spec fn first_row_with_id(lines: Seq<RowView>, id: Seq<char>, from: int) -> Option<int>
    decreases lines.len() - from,
{
    if from < 0 || from >= lines.len() {
        None
    } else if lines[from].id == Some(id) {
        Some(from)
    } else {
        first_row_with_id(lines, id, from + 1)
    }
}

impl View for Grid {
    type V = GridView;

    closed spec fn view(&self) -> GridView {
        GridView { cols: self.cols, rows: self.rows, lines: rows_view(self.rows_buf@) }
    }
}

impl Grid {
    pub closed spec fn wf(&self) -> bool {
        self.rows_buf@.len() == self.rows
    }

    pub proof fn lemma_wf(&self)
        requires
            self.wf(),
        ensures
            grid_wf(self@),
    {
    }

    pub fn new(cols: u16, rows: u16) -> (g: Grid)
        ensures
            g.wf(),
            g@ == new_grid(cols, rows),
    {
        let mut rows_buf: Vec<Row> = Vec::new();
        let mut i: u16 = 0;
        while i < rows
            invariant
                i <= rows,
                rows_buf@.len() == i,
                forall|k: int| 0 <= k < i ==> #[trigger] rows_buf@[k]@ == blank_row(cols as nat),
            decreases rows - i,
        {
            rows_buf.push(Row::blank(cols));
            i = i + 1;
        }
        let g = Grid { cols, rows, rows_buf };
        proof {
            assert(g@.lines =~= new_grid(cols, rows).lines);
        }
        g
    }

    /// A copy with the same contents.
    pub fn duplicate(&self) -> (g: Grid)
        ensures
            g@ == self@,
            g.wf() == self.wf(),
    {
        let mut rows_buf: Vec<Row> = Vec::new();
        let mut i: usize = 0;
        while i < self.rows_buf.len()
            invariant
                i <= self.rows_buf@.len(),
                rows_buf@.len() == i,
                forall|k: int| 0 <= k < i ==> #[trigger] rows_buf@[k]@ == self.rows_buf@[k]@,
            decreases self.rows_buf@.len() - i,
        {
            rows_buf.push(self.rows_buf[i].duplicate());
            i = i + 1;
        }
        let g = Grid { cols: self.cols, rows: self.rows, rows_buf };
        proof {
            assert(g@.lines =~= self@.lines);
        }
        g
    }

    pub fn cols(&self) -> (c: u16)
        ensures
            c == self@.cols,
    {
        self.cols
    }

    pub fn rows(&self) -> (r: u16)
        ensures
            r == self@.rows,
    {
        self.rows
    }

    /// The row at `index`, or `None` past the last row.
    pub fn row(&self, index: u16) -> (r: Option<&Row>)
        ensures
            (index as int) < self@.lines.len() ==> r is Some && r->0@ == self@.lines[index as int],
            (index as int) >= self@.lines.len() ==> r is None,
    {
        if (index as usize) < self.rows_buf.len() {
            Some(&self.rows_buf[index as usize])
        } else {
            None
        }
    }

    /// Mutable access to the row at `index`, or `None` past the last row.
    pub fn row_mut(&mut self, index: u16) -> (r: Option<&mut Row>)
        ensures
            (index as int) < old(self)@.lines.len() ==> r is Some && r->0@ == old(self)@.lines[index as int]
                && final(self)@ == (GridView {
                lines: old(self)@.lines.update(index as int, final(r->0)@),
                ..old(self)@
            }),
            (index as int) >= old(self)@.lines.len() ==> r is None && final(self)@ == old(self)@,
            final(self).wf() == old(self).wf(),
    {
        if (index as usize) < self.rows_buf.len() {
            let ghost before = self.rows_buf@;
            let r = &mut self.rows_buf[index as usize];
            proof {
                assert(rows_view(before.update(index as int, *final(r))) =~= rows_view(before).update(
                    index as int,
                    final(r)@,
                ));
            }
            Some(r)
        } else {
            None
        }
    }

    /// The rows, top to bottom.
    pub fn iter_rows(&self) -> (it: std::slice::Iter<'_, Row>)
        ensures
            rows_view(vstd::std_specs::slice::into_iter_elts(it)) == self@.lines,
    {
        broadcast use vstd::std_specs::slice::axiom_spec_slice_iter;

        let it = self.rows_buf.as_slice().iter();
        proof {
            assert(self.rows_buf@.as_ref().unref() =~= self.rows_buf@);
        }
        it
    }

    /// Shifts rows up by `count`, appending blank rows at the bottom.
    pub fn scroll_up(&mut self, count: usize)
        requires
            old(self).wf(),
        ensures
            final(self).wf(),
            final(self)@ == scrolled_grid(old(self)@, count as nat),
    {
        if count == 0 {
            return;
        }
        let c: usize = if count > self.rows as usize {
            self.rows as usize
        } else {
            count
        };
        let ghost start = self@;
        let mut k: usize = 0;
        while k < c
            invariant
                k <= c <= start.rows,
                start.lines.len() == start.rows,
                self.cols == start.cols && self.rows == start.rows,
                self.rows_buf@.len() == start.rows,
                rows_view(self.rows_buf@) == start.lines.skip(k as int) + Seq::new(
                    k as nat,
                    |i: int| blank_row(start.cols as nat),
                ),
            decreases c - k,
        {
            let ghost before = self.rows_buf@;
            let _ = self.rows_buf.remove(0);
            self.rows_buf.push(Row::blank(self.cols));
            proof {
                assert(rows_view(self.rows_buf@) =~= rows_view(before).drop_first().push(
                    blank_row(start.cols as nat),
                ));
                assert(start.lines.skip(k as int).drop_first() =~= start.lines.skip(k + 1));
            }
            k = k + 1;
            proof {
                assert(rows_view(self.rows_buf@) =~= start.lines.skip(k as int) + Seq::new(
                    k as nat,
                    |i: int| blank_row(start.cols as nat),
                ));
            }
        }
        let ghost kept = rows_view(self.rows_buf@);
        let n = self.rows_buf.len();
        let mut i: usize = 0;
        while i < n
            invariant
                n == self.rows_buf@.len(),
                self.cols == start.cols && self.rows == start.rows,
                n == start.rows,
                i <= n,
                kept.len() == n,
                forall|j: int| 0 <= j < i ==> #[trigger] self.rows_buf@[j]@ == dirtied(kept[j]),
                forall|j: int| i <= j < n ==> #[trigger] self.rows_buf@[j]@ == kept[j],
            decreases n - i,
        {
            let ghost before = self.rows_buf@;
            proof {
                assert(before[i as int]@ == kept[i as int]);
            }
            let r = &mut self.rows_buf[i];
            r.dirty = true;
            proof {
                assert(self.rows_buf@ == before.update(i as int, self.rows_buf@[i as int]));
                assert(self.rows_buf@[i as int]@ == dirtied(kept[i as int]));
            }
            i = i + 1;
        }
        proof {
            assert(self@.lines =~= scrolled_grid(start, count as nat).lines);
        }
    }

    /// Blanks every cell and drops every row id.
    pub fn clear(&mut self)
        requires
            old(self).wf(),
        ensures
            final(self).wf(),
            final(self)@ == cleared_grid(old(self)@),
    {
        let ghost start = self@;
        let n = self.rows_buf.len();
        let mut i: usize = 0;
        while i < n
            invariant
                n == self.rows_buf@.len(),
                n == start.lines.len(),
                self.cols == start.cols && self.rows == start.rows,
                i <= n,
                forall|j: int| 0 <= j < i ==> #[trigger] self.rows_buf@[j]@ == reset_row(
                    start.lines[j],
                ),
                forall|j: int| i <= j < n ==> #[trigger] self.rows_buf@[j]@ == start.lines[j],
            decreases n - i,
        {
            let r = &mut self.rows_buf[i];
            r.reset();
            i = i + 1;
        }
        proof {
            assert(self@.lines =~= cleared_grid(start).lines);
        }
    }

    /// The index of the first row tagged `id`.
    pub fn find_row_by_id(&self, id: &str) -> (r: Option<u16>)
        requires
            self.wf(),
        ensures
            r == (match first_row_with_id(self@.lines, id@, 0) {
                Some(i) => Some(i as u16),
                None => None::<u16>,
            }),
    {
        let n = self.rows_buf.len();
        let mut i: usize = 0;
        while i < n
            invariant
                n == self.rows_buf@.len(),
                n == self.rows,
                i <= n,
                first_row_with_id(self@.lines, id@, 0) == first_row_with_id(
                    self@.lines,
                    id@,
                    i as int,
                ),
            decreases n - i,
        {
            let matches = match &self.rows_buf[i].id {
                Some(s) => str_eq(s.as_str(), id),
                None => false,
            };
            if matches {
                return Some(i as u16);
            }
            i = i + 1;
        }
        None
    }
}

proof fn lemma_scroll_ids_from(g: GridView, c: nat, id: Seq<char>, from: int)
    requires
        grid_wf(g),
        1 <= c <= g.rows,
        0 <= from <= g.rows,
    ensures
        first_row_with_id(scrolled_grid(g, c).lines, id, from) == match first_row_with_id(
            g.lines,
            id,
            from + c,
        ) {
            Some(j) => Some(j - c),
            None => None::<int>,
        },
    decreases g.rows - from,
{
    let n = scrolled_grid(g, c).lines;
    let kept = g.lines.skip(c as int) + Seq::new(c, |i: int| blank_row(g.cols as nat));
    assert(n.len() == g.rows);
    if from < g.rows {
        lemma_scroll_ids_from(g, c, id, from + 1);
        if from + c < g.rows {
            assert(kept[from] == g.lines[from + c]);
            assert(n[from].id == g.lines[from + c].id);
        } else {
            assert(kept[from] == blank_row(g.cols as nat));
            assert(n[from].id is None);
        }
    }
}

/// Scrolling up by `c` rows moves every tagged row up by `c`: the first row
/// tagged `id` afterwards is the first one at or below row `c` before, `c`
/// rows higher, and a row scrolled off the top is found no more.
pub proof fn lemma_scroll_moves_tagged_rows_up(g: GridView, c: nat, id: Seq<char>)
    requires
        grid_wf(g),
        1 <= c <= g.rows,
    ensures
        first_row_with_id(scrolled_grid(g, c).lines, id, 0) == match first_row_with_id(
            g.lines,
            id,
            c as int,
        ) {
            Some(j) => Some(j - c),
            None => None::<int>,
        },
{
    lemma_scroll_ids_from(g, c, id, 0);
}

} // verus!

//! Compositing onto a frame: glyph coverage masks and the cursor. Glyph
//! rasterization and font metrics come from the font stack; this module only
//! places and blends what they produce.
use crate::color::Color;
use crate::frame::{over, pixel_of, Frame, FrameModel, lemma_blend_pixels};
use crate::geom::Point;
use crate::pipeline::{GlyphMask, RenderError};
use crate::geom::Size;
use crate::terminal::TerminalState;
use crate::terminal::CursorStyle;
use crate::grid::{cells_view, Cell};
use crate::style::{style_of, StyleTable};
use crate::text::str_eq;
use vstd::prelude::*;

verus! {

/// Coverage used for the cursor fill: the cursor is a solid shape, never
/// antialiased against its background.
pub const CURSOR_COVERAGE: u8 = 255;

/// Whether `(px, py)` lies in the rectangle at `(x, y)` of size `w` x `h`.
pub open spec fn in_rect(px: int, py: int, x: int, y: int, w: int, h: int) -> bool {
    x <= px < x + w && y <= py < y + h
}

/// The pixel rectangle `(x, y, w, h)` a cursor covers in the cell at `row`,
/// `col`: the whole cell for a block, a `thickness`-high strip along its bottom
/// for an underline, a `thickness`-wide strip along its left edge for a bar.
pub open spec fn cursor_rect(
    advance_w: u32,
    line_h: u32,
    thickness: i32,
    origin: Point,
    row: u16,
    col: u16,
    style: CursorStyle,
) -> (int, int, int, int) {
    let x0 = origin.x + col * advance_w;
    let y0 = origin.y + row * line_h;
    match style {
        CursorStyle::Block => (x0, y0, advance_w as int, line_h as int),
        CursorStyle::Underline => (x0, y0 + line_h - thickness, advance_w as int, thickness as int),
        CursorStyle::Bar => (x0, y0, thickness as int, line_h as int),
    }
}

pub open spec fn fits_i32(v: int) -> bool {
    i32::MIN <= v <= i32::MAX
}

/// The frame after filling the rectangle `(x, y, w, h)` with `color` at
/// `coverage`: pixels inside it become `over` their former color, the rest keep it.
pub open spec fn rect_blended(
    before: FrameModel,
    after: FrameModel,
    x: int,
    y: int,
    w: int,
    h: int,
    color: Color,
    coverage: u8,
) -> bool {
    &&& after.width == before.width
    &&& after.height == before.height
    &&& forall|px: int, py: int|
        0 <= px < before.width && 0 <= py < before.height ==> #[trigger] pixel_of(after, px, py) == if in_rect(
            px,
            py,
            x,
            y,
            w,
            h,
        ) {
            over(pixel_of(before, px, py), color, coverage)
        } else {
            pixel_of(before, px, py)
        }
}

/// Draws the cursor in the cell at `row`, `col`. A block fills the whole cell
/// with the cursor color (inverse video: the glyph beneath is not redrawn);
/// underline and bar are `thickness`-pixel strips.
///
/// Callers bounds-check `row` and `col` against the grid first: the terminal may
/// park its cursor one past the last row or column as a "not writable" marker.
pub fn draw_cursor(
    frame: &mut Frame,
    advance_w: u32,
    line_h: u32,
    thickness: i32,
    origin: Point,
    row: u16,
    col: u16,
    style: CursorStyle,
    color: Color,
)
    requires
        old(frame).wf(),
        advance_w <= i32::MAX,
        line_h <= i32::MAX,
        0 <= thickness,
        fits_i32(origin.x + col * advance_w),
        fits_i32(origin.y + row * line_h),
        fits_i32(origin.x + col * advance_w + advance_w),
        fits_i32(origin.y + row * line_h + line_h),
        fits_i32(origin.x + col * advance_w + thickness),
        fits_i32(origin.y + row * line_h + line_h - thickness),
    ensures
        final(frame).wf(),
        ({
            let (x, y, w, h) = cursor_rect(advance_w, line_h, thickness, origin, row, col, style);
            rect_blended(old(frame)@, final(frame)@, x, y, w, h, color, CURSOR_COVERAGE)
        }),
{
    let x0: i64 = origin.x as i64 + (col as i64) * (advance_w as i64);
    let y0: i64 = origin.y as i64 + (row as i64) * (line_h as i64);
    let w = advance_w as i64;
    let h = line_h as i64;
    let t = thickness as i64;
    let (rx, ry, rw, rh): (i64, i64, i64, i64) = match style {
        CursorStyle::Block => (x0, y0, w, h),
        CursorStyle::Underline => (x0, y0 + h - t, w, t),
        CursorStyle::Bar => (x0, y0, t, h),
    };
    fill_rect(frame, rx, ry, rw, rh, color, CURSOR_COVERAGE);
}

/// Blends `color` at `coverage` over every pixel of the rectangle
/// `(x, y, w, h)`, row by row.
fn fill_rect(frame: &mut Frame, x: i64, y: i64, w: i64, h: i64, color: Color, coverage: u8)
    requires
        old(frame).wf(),
        0 <= w,
        0 <= h,
        fits_i32(x as int),
        fits_i32(y as int),
        fits_i32(x + w),
        fits_i32(y + h),
    ensures
        final(frame).wf(),
        rect_blended(old(frame)@, final(frame)@, x as int, y as int, w as int, h as int, color, coverage),
{
    let ghost start = frame@;
    let mut j: i64 = 0;
    while j < h
        invariant
            0 <= j <= h,
            0 <= w,
            fits_i32(x as int),
            fits_i32(y as int),
            fits_i32(x + w),
            fits_i32(y + h),
            frame.wf(),
            rect_blended(start, frame@, x as int, y as int, w as int, j as int, color, coverage),
        decreases h - j,
    {
        let mut i: i64 = 0;
        while i < w
            invariant
                0 <= j < h,
                0 <= i <= w,
                fits_i32(x as int),
                fits_i32(y as int),
                fits_i32(x + w),
                fits_i32(y + h),
                frame.wf(),
                frame@.width == start.width,
                frame@.height == start.height,
                forall|px: int, py: int|
                    0 <= px < start.width && 0 <= py < start.height ==> #[trigger] pixel_of(
                        frame@,
                        px,
                        py,
                    ) == if in_rect(px, py, x as int, y as int, w as int, j as int) || (py == y + j
                        && x <= px < x + i) {
                        over(pixel_of(start, px, py), color, coverage)
                    } else {
                        pixel_of(start, px, py)
                    },
            decreases w - i,
        {
            let ghost before = frame@;
            proof {
                frame.lemma_wf();
                lemma_blend_pixels(before, (x + i) as int, (y + j) as int, color, coverage);
            }
            frame.blend((x + i) as i32, (y + j) as i32, color, coverage);
            proof {
                assert(frame@ == FrameModel {
                    bytes: crate::frame::blended(before, (x + i) as int, (y + j) as int, color, coverage),
                    ..before
                });
            }
            i = i + 1;
        }
        j = j + 1;
    }
}

/// Where a mask's top-left pixel lands for a pen at `pen_x` on `baseline`.
pub open spec fn mask_origin(mask_left: i32, mask_top: i32, pen_x: int, baseline: int) -> (int, int) {
    (pen_x + mask_left, baseline - mask_top)
}

/// The frame after compositing a coverage mask of size `w` x `h` whose top-left
/// pixel lands at `(mx, my)`: each covered pixel becomes `over` its former color at
/// the mask's coverage there; every other pixel keeps its color.
pub open spec fn mask_painted(
    before: FrameModel,
    after: FrameModel,
    mx: int,
    my: int,
    w: int,
    h: int,
    alpha: Seq<u8>,
    color: Color,
) -> bool {
    &&& after.width == before.width
    &&& after.height == before.height
    &&& forall|px: int, py: int|
        0 <= px < before.width && 0 <= py < before.height ==> #[trigger] pixel_of(after, px, py) == if in_rect(
            px,
            py,
            mx,
            my,
            w,
            h,
        ) {
            over(pixel_of(before, px, py), color, alpha[(py - my) * w + (px - mx)])
        } else {
            pixel_of(before, px, py)
        }
}

proof fn lemma_mask_index(w: int, h: int, cx: int, cy: int)
    requires
        0 <= cx < w,
        0 <= cy < h,
    ensures
        0 <= cy * w + cx < w * h,
{
    assert(0 <= cy * w + cx < w * h) by (nonlinear_arith)
        requires
            0 <= cx < w,
            0 <= cy < h,
    ;
}

/// Composites one glyph's coverage mask in `color`, for a pen at `pen_x` on
/// `baseline`. Pixels outside the frame are skipped: masks legitimately overhang
/// cell edges.
pub fn paint_mask(frame: &mut Frame, mask: &GlyphMask, pen_x: i32, baseline: i32, color: Color)
    requires
        old(frame).wf(),
        mask.alpha@.len() == mask.width * mask.height,
        fits_i32(pen_x + mask.left),
        fits_i32(baseline - mask.top),
        fits_i32(pen_x + mask.left + mask.width),
        fits_i32(baseline - mask.top + mask.height),
    ensures
        final(frame).wf(),
        ({
            let (mx, my) = mask_origin(mask.left, mask.top, pen_x as int, baseline as int);
            mask_painted(
                old(frame)@,
                final(frame)@,
                mx,
                my,
                mask.width as int,
                mask.height as int,
                mask.alpha@,
                color,
            )
        }),
{
    let ghost start = frame@;
    let mx0: i64 = pen_x as i64 + mask.left as i64;
    let my0: i64 = baseline as i64 - mask.top as i64;
    let w = mask.width as usize;
    let h = mask.height as usize;
    let ghost wi = mask.width as int;
    let ghost hi = mask.height as int;
    let n = mask.alpha.len();
    let mut cy: usize = 0;
    while cy < h
        invariant
            0 <= cy <= h,
            w == wi,
            h == hi,
            n == mask.alpha@.len(),
            mask.alpha@.len() == wi * hi,
            fits_i32(mx0 as int),
            fits_i32(my0 as int),
            fits_i32(mx0 + wi),
            fits_i32(my0 + hi),
            frame.wf(),
            frame@.width == start.width,
            frame@.height == start.height,
            forall|px: int, py: int|
                0 <= px < start.width && 0 <= py < start.height ==> #[trigger] pixel_of(
                    frame@,
                    px,
                    py,
                ) == if in_rect(px, py, mx0 as int, my0 as int, wi, cy as int) {
                    over(
                        pixel_of(start, px, py),
                        color,
                        mask.alpha@[(py - my0) * wi + (px - mx0)],
                    )
                } else {
                    pixel_of(start, px, py)
                },
        decreases h - cy,
    {
        let mut cx: usize = 0;
        while cx < w
            invariant
                0 <= cy < h,
                0 <= cx <= w,
                w == wi,
                h == hi,
                n == mask.alpha@.len(),
                mask.alpha@.len() == wi * hi,
                fits_i32(mx0 as int),
                fits_i32(my0 as int),
                fits_i32(mx0 + wi),
                fits_i32(my0 + hi),
                frame.wf(),
                frame@.width == start.width,
                frame@.height == start.height,
                forall|px: int, py: int|
                    0 <= px < start.width && 0 <= py < start.height ==> #[trigger] pixel_of(
                        frame@,
                        px,
                        py,
                    ) == if in_rect(px, py, mx0 as int, my0 as int, wi, cy as int) || (py == my0
                        + cy && mx0 <= px < mx0 + cx) {
                        over(
                            pixel_of(start, px, py),
                            color,
                            mask.alpha@[(py - my0) * wi + (px - mx0)],
                        )
                    } else {
                        pixel_of(start, px, py)
                    },
            decreases w - cx,
        {
            proof {
                lemma_mask_index(wi, hi, cx as int, cy as int);
                assert(cy * w <= cy * w + cx);
            }
            let k = cy * w + cx;
            let coverage = mask.alpha[k];
            let ghost before = frame@;
            proof {
                frame.lemma_wf();
                lemma_blend_pixels(before, mx0 + cx, my0 + cy, color, coverage);
            }
            if coverage > 0 {
                frame.blend((mx0 + cx as i64) as i32, (my0 + cy as i64) as i32, color, coverage);
                proof {
                    assert(frame@ == FrameModel {
                        bytes: crate::frame::blended(before, mx0 + cx, my0 + cy, color, coverage),
                        ..before
                    });
                }
            }
            cx = cx + 1;
        }
        cy = cy + 1;
    }
}

/// The frame after refilling the pixel rows `y0 .. y0 + line_h` with the
/// background (or transparent black): what clearing a row band does.
pub open spec fn band_cleared(
    before: FrameModel,
    after: FrameModel,
    y0: int,
    line_h: int,
    transparent: bool,
    background: Color,
) -> bool {
    &&& after.width == before.width
    &&& after.height == before.height
    &&& forall|px: int, py: int|
        0 <= px < before.width && 0 <= py < before.height ==> #[trigger] pixel_of(after, px, py) == if y0
            <= py < y0 + line_h {
            if transparent {
                Color { r: 0, g: 0, b: 0, a: 0 }
            } else {
                background
            }
        } else {
            pixel_of(before, px, py)
        }
}

/// Where the glyph of column `col` of a row is drawn: the pen's x, and the
/// top-left corner of its mask.
pub open spec fn cell_geometry(origin: Point, advance_w: u32, col: int, baseline: int, mask: GlyphMask) -> (
    int,
    int,
    int,
) {
    let pen_x = origin.x + col * advance_w;
    (pen_x, pen_x + mask.left, baseline - mask.top)
}

/// Whether a cell's glyph is drawn: a cell with ink (not a wide glyph's
/// continuation, not blank), a non-empty mask, and a position that fits the
/// pixel coordinate range.
pub open spec fn cell_drawn(cell: Cell, mask: Option<GlyphMask>, origin: Point, advance_w: u32, col: int, baseline: int) -> bool {
    match mask {
        None => false,
        Some(m) => {
            let (pen_x, mx, my) = cell_geometry(origin, advance_w, col, baseline, m);
            &&& cell.width != 0
            &&& cell.g@ != " "@
            &&& m.width != 0 && m.height != 0
            &&& fits_i32(pen_x) && fits_i32(baseline)
            &&& fits_i32(mx) && fits_i32(my)
            &&& fits_i32(mx + m.width) && fits_i32(my + m.height)
        },
    }
}

/// One step of painting a row: column `col`'s glyph composited in its style's
/// foreground color, or nothing when the cell is not drawn.
pub open spec fn cell_step(
    before: FrameModel,
    after: FrameModel,
    cell: Cell,
    mask: Option<GlyphMask>,
    styles: Seq<crate::style::TextStyle>,
    origin: Point,
    advance_w: u32,
    col: int,
    baseline: int,
) -> bool {
    if cell_drawn(cell, mask, origin, advance_w, col, baseline) {
        let m = mask.unwrap();
        let (pen_x, mx, my) = cell_geometry(origin, advance_w, col, baseline, m);
        mask_painted(
            before,
            after,
            mx,
            my,
            m.width as int,
            m.height as int,
            m.alpha@,
            style_of(styles, cell.style).fg,
        )
    } else {
        after == before
    }
}

/// Repaints row `row_index` of the terminal: its pixel band is cleared to the
/// background, then every inked cell's glyph mask (`masks[col]`, rasterized by
/// the caller for `cells[col]`) is composited left to right in the color of the
/// cell's style. `ascent` is the baseline's offset from the top of the row.
///
/// The contract names the frame after each cell: the band cleared first, then
/// each cell's step in turn.
pub fn paint_row(
    frame: &mut Frame,
    origin: Point,
    advance_w: u32,
    line_h: u32,
    ascent: i32,
    transparent: bool,
    background: Color,
    row_index: u16,
    cells: &[Cell],
    masks: &[Option<GlyphMask>],
    styles: &StyleTable,
)
    requires
        old(frame).wf(),
        masks@.len() == cells@.len(),
        cells@.len() <= u16::MAX,
        forall|i: int|
            0 <= i < masks@.len() ==> (#[trigger] masks@[i] matches Some(m) ==> m.alpha@.len()
                == m.width * m.height),
    ensures
        final(frame).wf(),
        exists|steps: Seq<FrameModel>|
            {
                &&& steps.len() == cells@.len() + 1
                &&& band_cleared(
                    old(frame)@,
                    steps[0],
                    origin.y + row_index * line_h,
                    line_h as int,
                    transparent,
                    background,
                )
                &&& steps.last() == final(frame)@
                &&& forall|k: int|
                    0 <= k < cells@.len() ==> #[trigger] cell_step(
                        steps[k],
                        steps[k + 1],
                        cells@[k],
                        masks@[k],
                        styles@,
                        origin,
                        advance_w,
                        k,
                        origin.y + row_index * line_h + ascent,
                    )
            },
{
    proof {
        assert(row_index * line_h <= 65535 * 4294967295) by (nonlinear_arith)
            requires
                row_index <= 65535,
                line_h <= 4294967295,
        ;
    }
    let y0: i64 = origin.y as i64 + (row_index as i64) * (line_h as i64);
    let ghost start = frame@;
    frame.fill_rows(y0, line_h as i64, transparent, background);
    proof {
        assert(band_cleared(start, frame@, y0 as int, line_h as int, transparent, background));
    }
    let baseline: i64 = y0 + ascent as i64;
    let ghost mut steps: Seq<FrameModel> = seq![frame@];
    let n = cells.len();
    let mut col: usize = 0;
    while col < n
        invariant
            n == cells@.len() == masks@.len(),
            n <= u16::MAX,
            col <= n,
            y0 == origin.y + row_index * line_h,
            -4294967296 <= y0 <= 281474976710655 + 2147483647,
            frame.wf(),
            forall|i: int|
                0 <= i < masks@.len() ==> (#[trigger] masks@[i] matches Some(m) ==> m.alpha@.len()
                    == m.width * m.height),
            steps.len() == col + 1,
            band_cleared(start, steps[0], y0 as int, line_h as int, transparent, background),
            steps.last() == frame@,
            baseline == origin.y + row_index * line_h + ascent,
            forall|k: int|
                0 <= k < col ==> #[trigger] cell_step(
                    steps[k],
                    steps[k + 1],
                    cells@[k],
                    masks@[k],
                    styles@,
                    origin,
                    advance_w,
                    k,
                    baseline as int,
                ),
        decreases n - col,
    {
        let ghost before = frame@;
        let cell = &cells[col];
        let mut drawn = false;
        match &masks[col] {
            None => {},
            Some(mask) => {
                proof {
                    assert(col * advance_w <= 65535 * 4294967295) by (nonlinear_arith)
                        requires
                            col <= 65535,
                            advance_w <= 4294967295,
                    ;
                }
                let pen_x: i64 = origin.x as i64 + (col as i64) * (advance_w as i64);
                let mx: i64 = pen_x + mask.left as i64;
                let my: i64 = baseline - mask.top as i64;
                let lo: i64 = i32::MIN as i64;
                let hi: i64 = i32::MAX as i64;
                let fits = lo <= pen_x && pen_x <= hi && lo <= baseline && baseline <= hi && lo <= mx
                    && mx <= hi && lo <= my && my <= hi && mx + (mask.width as i64) <= hi && my
                    + (mask.height as i64) <= hi;
                if cell.width != 0 && !cell.is_blank() && mask.width != 0 && mask.height != 0 && fits {
                    let color = styles.get(cell.style).fg;
                    paint_mask(frame, mask, pen_x as i32, baseline as i32, color);
                    drawn = true;
                }
            },
        }
        proof {
            let ghost prev = steps;
            steps = steps.push(frame@);
            assert(steps[col as int] == before);
            assert(forall|k: int| 0 <= k < col ==> #[trigger] steps[k] == prev[k]);
            assert(forall|k: int| 0 <= k < col ==> #[trigger] steps[k + 1] == prev[k + 1]);
        }
        col = col + 1;
    }
    proof {
        assert(steps.last() == frame@);
    }
}

/// Refuses a target frame whose size differs from the canvas the renderer was
/// configured for.
pub fn check_render_size(canvas: Size, into: &Frame) -> (r: Result<(), RenderError>)
    ensures
        r is Ok <==> (into@.width == canvas.width && into@.height == canvas.height),
        r matches Err(e) ==> e == (RenderError::SizeMismatch {
            expected: canvas,
            got: Size { width: into@.width, height: into@.height },
        }),
{
    if into.width() != canvas.width || into.height() != canvas.height {
        return Err(
            RenderError::SizeMismatch {
                expected: canvas,
                got: Size { width: into.width(), height: into.height() },
            },
        );
    }
    Ok(())
}

/// The cell the cursor is drawn in: only a visible cursor, and only inside the
/// grid. The terminal may park its cursor one past the last row or column as a
/// "not writable" marker; such a cursor is not drawn. Blinking is already
/// folded into `visible`.
pub fn cursor_cell(state: &TerminalState) -> (r: Option<(u16, u16)>)
    ensures
        r == (if state.cursor.visible && state.cursor.row < state.grid@.rows && state.cursor.col
            < state.grid@.cols {
            Some((state.cursor.row, state.cursor.col))
        } else {
            None::<(u16, u16)>
        }),
{
    let cursor = &state.cursor;
    if cursor.visible && cursor.row < state.grid.rows() && cursor.col < state.grid.cols() {
        Some((cursor.row, cursor.col))
    } else {
        None
    }
}

/// Whether a row's cells are unchanged since it was last painted: same length,
/// and cell by cell the same text, width and style. A row whose cells are the
/// same need not be painted again.
pub fn same_cells(painted: &[Cell], current: &[Cell]) -> (r: bool)
    ensures
        r == (cells_view(painted@) == cells_view(current@)),
{
    if painted.len() != current.len() {
        proof {
            assert(cells_view(painted@).len() != cells_view(current@).len());
        }
        return false;
    }
    let mut i: usize = 0;
    while i < painted.len()
        invariant
            i <= painted@.len() == current@.len(),
            forall|j: int| 0 <= j < i ==> #[trigger] painted@[j]@ == current@[j]@,
        decreases painted@.len() - i,
    {
        let a = &painted[i];
        let b = &current[i];
        if !(a.width == b.width && a.style.0 == b.style.0 && str_eq(a.g.as_str(), b.g.as_str())) {
            proof {
                assert(cells_view(painted@)[i as int] != cells_view(current@)[i as int]);
            }
            return false;
        }
        i = i + 1;
    }
    proof {
        assert(cells_view(painted@) =~= cells_view(current@));
    }
    true
}

} // verus!

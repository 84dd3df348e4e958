//! Merging the rasterized glyphs of one grapheme cluster into a single coverage
//! mask. The glyph images come from the font stack; this module only places
//! them on a common grid and adds their coverage.
use crate::pipeline::GlyphMask;
use vstd::arithmetic::div_mod::lemma_fundamental_div_mod_converse;
use vstd::prelude::*;

verus! {

/// One rasterized glyph: `width` x `height` coverage bytes, row by row, whose
/// top-left corner sits at (`left`, `top`).
#[derive(Debug, Clone)]
pub struct PlacedGlyph {
    pub left: i32,
    pub top: i32,
    pub width: u32,
    pub height: u32,
    pub coverage: Vec<u8>,
}

/// A glyph with some area; glyphs without any take no part in the mask.
pub open spec fn inked(g: PlacedGlyph) -> bool {
    g.width > 0 && g.height > 0
}

/// The smallest rectangle `(left, top, right, bottom)` holding every inked glyph
/// of `gs`, if there is one.
pub open spec fn glyph_bounds(gs: Seq<PlacedGlyph>) -> Option<(int, int, int, int)>
    decreases gs.len(),
{
    if gs.len() == 0 {
        None
    } else {
        let g = gs.last();
        let prev = glyph_bounds(gs.drop_last());
        if !inked(g) {
            prev
        } else {
            let (l, t, r, b) = (g.left as int, g.top as int, g.left + g.width, g.top + g.height);
            match prev {
                None => Some((l, t, r, b)),
                Some((pl, pt, pr, pb)) => Some(
                    (
                        if pl <= l { pl } else { l },
                        if pt <= t { pt } else { t },
                        if pr >= r { pr } else { r },
                        if pb >= b { pb } else { b },
                    ),
                ),
            }
        }
    }
}

/// The coverage glyph `g` gives the point (`x`, `y`): its byte there, or nothing
/// outside it.
pub open spec fn glyph_coverage_at(g: PlacedGlyph, x: int, y: int) -> int {
    if g.left <= x < g.left + g.width && g.top <= y < g.top + g.height {
        g.coverage@[(y - g.top) * g.width + (x - g.left)] as int
    } else {
        0
    }
}

/// The coverage all glyphs of `gs` give the point (`x`, `y`), added up.
pub open spec fn total_coverage(gs: Seq<PlacedGlyph>, x: int, y: int) -> int
    decreases gs.len(),
{
    if gs.len() == 0 {
        0
    } else {
        total_coverage(gs.drop_last(), x, y) + glyph_coverage_at(gs.last(), x, y)
    }
}

/// `n`, or 255 when it is larger.
pub open spec fn saturated(n: int) -> u8 {
    if n > 255 {
        255
    } else {
        n as u8
    }
}

/// What the glyphs may hold for `composite_glyphs` to merge them: each inked
/// glyph has exactly its `width * height` coverage bytes and its far edges fit an
/// `i32`, and so do the width and height of the rectangle holding them all.
pub open spec fn glyphs_fit(gs: Seq<PlacedGlyph>) -> bool {
    &&& forall|k: int|
        0 <= k < gs.len() && #[trigger] inked(gs[k]) ==> {
            &&& gs[k].coverage@.len() == gs[k].width * gs[k].height
            &&& gs[k].left + gs[k].width <= i32::MAX
            &&& gs[k].top + gs[k].height <= i32::MAX
        }
    &&& glyph_bounds(gs) matches Some((l, t, r, b)) ==> r - l <= i32::MAX && b - t <= i32::MAX
}

/// The mask `gs` merge into: the rectangle holding every inked glyph, each of its
/// points covered by the sum of what the glyphs give it, capped at 255; an empty
/// mask at the origin when no glyph has ink.
pub open spec fn composite_spec(gs: Seq<PlacedGlyph>) -> (u32, u32, i32, i32, Seq<u8>) {
    match glyph_bounds(gs) {
        None => (0, 0, 0, 0, Seq::empty()),
        Some((l, t, r, b)) => {
            let w = r - l;
            let h = b - t;
            (
                w as u32,
                h as u32,
                l as i32,
                t as i32,
                Seq::new((w * h) as nat, |i: int| saturated(total_coverage(gs, l + i % w, t + i / w))),
            )
        },
    }
}

/// Where `glyph_bounds` lies for glyphs that fit: its corners are `i32`s and its
/// sides are positive.
proof fn lemma_bounds_in_range(gs: Seq<PlacedGlyph>)
    requires
        forall|k: int|
            0 <= k < gs.len() && #[trigger] inked(gs[k]) ==> gs[k].left + gs[k].width <= i32::MAX
                && gs[k].top + gs[k].height <= i32::MAX,
    ensures
        glyph_bounds(gs) matches Some((l, t, r, b)) ==> {
            &&& i32::MIN <= l < r <= i32::MAX
            &&& i32::MIN <= t < b <= i32::MAX
        },
    decreases gs.len(),
{
    if gs.len() > 0 {
        let init = gs.drop_last();
        assert forall|k: int|
            0 <= k < init.len() && #[trigger] inked(init[k]) implies init[k].left + init[k].width
                <= i32::MAX && init[k].top + init[k].height <= i32::MAX by {
            assert(init[k] == gs[k]);
        }
        lemma_bounds_in_range(init);
        assert(inked(gs.last()) ==> inked(gs[gs.len() - 1]));
    }
}

/// Whether `glyphs_fit` holds of `glyphs`.
pub fn composite_fits(glyphs: &[PlacedGlyph]) -> (b: bool)
    ensures
        b == glyphs_fit(glyphs@),
{
    let ghost gs = glyphs@;
    let mut k: usize = 0;
    let mut ok = true;
    let mut bounds: Option<(i64, i64, i64, i64)> = None;
    while k < glyphs.len()
        invariant
            k <= gs.len(),
            gs == glyphs@,
            ok == forall|j: int|
                0 <= j < k && #[trigger] inked(gs[j]) ==> {
                    &&& gs[j].coverage@.len() == gs[j].width * gs[j].height
                    &&& gs[j].left + gs[j].width <= i32::MAX
                    &&& gs[j].top + gs[j].height <= i32::MAX
                },
            match bounds {
                None => glyph_bounds(gs.take(k as int)) is None,
                Some((l, t, r, b)) => glyph_bounds(gs.take(k as int)) == Some(
                    (l as int, t as int, r as int, b as int),
                ),
            },
            glyph_bounds(gs.take(k as int)) matches Some((l, t, r, b)) ==> {
                &&& i32::MIN <= l <= i32::MAX
                &&& i32::MIN <= t <= i32::MAX
                &&& r <= i32::MAX + u32::MAX
                &&& b <= i32::MAX + u32::MAX
            },
        decreases gs.len() - k,
    {
        proof {
            assert(gs.take(k + 1).drop_last() =~= gs.take(k as int));
            assert(gs.take(k + 1).last() == gs[k as int]);
        }
        let g = &glyphs[k];
        if g.width > 0 && g.height > 0 {
            let r = g.left as i64 + g.width as i64;
            let b = g.top as i64 + g.height as i64;
            assert(g.width as u64 * g.height as u64 <= u32::MAX * u32::MAX) by (nonlinear_arith)
                requires
                    g.width <= u32::MAX,
                    g.height <= u32::MAX,
            ;
            let area_ok = g.coverage.len() as u64 == g.width as u64 * g.height as u64;
            ok = ok && area_ok && r <= i32::MAX as i64 && b <= i32::MAX as i64;
            bounds = match bounds {
                None => Some((g.left as i64, g.top as i64, r, b)),
                Some((pl, pt, pr, pb)) => Some(
                    (
                        if pl <= g.left as i64 { pl } else { g.left as i64 },
                        if pt <= g.top as i64 { pt } else { g.top as i64 },
                        if pr >= r { pr } else { r },
                        if pb >= b { pb } else { b },
                    ),
                ),
            };
        }
        k = k + 1;
    }
    proof {
        assert(gs.take(k as int) =~= gs);
    }
    match bounds {
        None => ok,
        Some((l, t, r, b)) => ok && (r as i128 - l as i128) <= i32::MAX as i128 && (b as i128 - t
            as i128) <= i32::MAX as i128,
    }
}

/// The coverage all glyphs give the point (`x`, `y`), capped at 255.
fn coverage_at(glyphs: &[PlacedGlyph], x: i64, y: i64) -> (c: u8)
    requires
        glyphs_fit(glyphs@),
        i32::MIN <= x <= i32::MAX,
        i32::MIN <= y <= i32::MAX,
    ensures
        c == saturated(total_coverage(glyphs@, x as int, y as int)),
{
    let ghost gs = glyphs@;
    let mut acc: u8 = 0;
    let mut k: usize = 0;
    while k < glyphs.len()
        invariant
            k <= gs.len(),
            gs == glyphs@,
            glyphs_fit(gs),
            i32::MIN <= x <= i32::MAX,
            i32::MIN <= y <= i32::MAX,
            acc == saturated(total_coverage(gs.take(k as int), x as int, y as int)),
            total_coverage(gs.take(k as int), x as int, y as int) >= 0,
        decreases gs.len() - k,
    {
        proof {
            assert(gs.take(k + 1).drop_last() =~= gs.take(k as int));
            assert(gs.take(k + 1).last() == gs[k as int]);
        }
        let g = &glyphs[k];
        let inside = g.left as i64 <= x && x < g.left as i64 + g.width as i64 && g.top as i64 <= y
            && y < g.top as i64 + g.height as i64;
        if inside {
            proof {
                assert(inked(gs[k as int]));
            }
            let dy = (y - g.top as i64) as u64;
            let dx = (x - g.left as i64) as u64;
            let w = g.width as u64;
            let h = g.height as u64;
            assert(dy * w + dx < w * h) by (nonlinear_arith)
                requires
                    dy < h,
                    dx < w,
            ;
            assert(w * h <= u32::MAX * u32::MAX) by (nonlinear_arith)
                requires
                    w <= u32::MAX,
                    h <= u32::MAX,
            ;
            assert(gs[k as int].coverage@.len() == w * h);
            let index64 = dy * w + dx;
            let n: usize = g.coverage.len();
            assert(index64 < n);
            let index = index64 as usize;
            let v = g.coverage[index];
            assert(glyph_coverage_at(gs[k as int], x as int, y as int) == v as int);
            acc = acc.saturating_add(v);
        }
        k = k + 1;
    }
    proof {
        assert(gs.take(k as int) =~= gs);
    }
    acc
}

/// Merges the glyphs of one cluster into one mask: the rectangle holding every
/// inked glyph, each point covered by the sum of the glyphs' coverage there,
/// capped at 255. Glyphs without area are passed over; with none inked the mask
/// is empty.
pub fn composite_glyphs(glyphs: &[PlacedGlyph]) -> (m: GlyphMask)
    requires
        glyphs_fit(glyphs@),
    ensures
        (m.width, m.height, m.left, m.top, m.alpha@) == composite_spec(glyphs@),
{
    let ghost gs = glyphs@;
    proof {
        lemma_bounds_in_range(gs);
    }
    let mut k: usize = 0;
    let mut bounds: Option<(i32, i32, i32, i32)> = None;
    while k < glyphs.len()
        invariant
            k <= gs.len(),
            gs == glyphs@,
            glyphs_fit(gs),
            match bounds {
                None => glyph_bounds(gs.take(k as int)) is None,
                Some((l, t, r, b)) => glyph_bounds(gs.take(k as int)) == Some(
                    (l as int, t as int, r as int, b as int),
                ),
            },
        decreases gs.len() - k,
    {
        proof {
            assert(gs.take(k + 1).drop_last() =~= gs.take(k as int));
            assert(gs.take(k + 1).last() == gs[k as int]);
        }
        let g = &glyphs[k];
        if g.width > 0 && g.height > 0 {
            proof {
                assert(inked(gs[k as int]));
            }
            let r = (g.left as i64 + g.width as i64) as i32;
            let b = (g.top as i64 + g.height as i64) as i32;
            bounds = match bounds {
                None => Some((g.left, g.top, r, b)),
                Some((pl, pt, pr, pb)) => Some(
                    (
                        if pl <= g.left { pl } else { g.left },
                        if pt <= g.top { pt } else { g.top },
                        if pr >= r { pr } else { r },
                        if pb >= b { pb } else { b },
                    ),
                ),
            };
        }
        k = k + 1;
    }
    proof {
        assert(gs.take(k as int) =~= gs);
    }
    match bounds {
        None => GlyphMask { width: 0, height: 0, left: 0, top: 0, alpha: Vec::new() },
        Some((l, t, r, b)) => {
            let width = (r as i64 - l as i64) as u32;
            let height = (b as i64 - t as i64) as u32;
            let ghost w = width as int;
            let mut alpha: Vec<u8> = Vec::new();
            let mut y: u32 = 0;
            while y < height
                invariant
                    gs == glyphs@,
                    glyphs_fit(gs),
                    glyph_bounds(gs) == Some((l as int, t as int, r as int, b as int)),
                    width as int == r - l,
                    height as int == b - t,
                    0 < width,
                    y <= height,
                    w == width,
                    alpha@.len() == y * w,
                    forall|i: int|
                        0 <= i < alpha@.len() ==> #[trigger] alpha@[i] == saturated(
                            total_coverage(gs, l + i % w, t + i / w),
                        ),
                decreases height - y,
            {
                let mut x: u32 = 0;
                while x < width
                    invariant
                        gs == glyphs@,
                        glyphs_fit(gs),
                        glyph_bounds(gs) == Some((l as int, t as int, r as int, b as int)),
                        width as int == r - l,
                        height as int == b - t,
                        y < height,
                        x <= width,
                        w == width,
                        alpha@.len() == y * w + x,
                        forall|i: int|
                            0 <= i < alpha@.len() ==> #[trigger] alpha@[i] == saturated(
                                total_coverage(gs, l + i % w, t + i / w),
                            ),
                    decreases width - x,
                {
                    let c = coverage_at(glyphs, l as i64 + x as i64, t as i64 + y as i64);
                    proof {
                        let i = y * w + x;
                        lemma_fundamental_div_mod_converse(i, w, y as int, x as int);
                    }
                    alpha.push(c);
                    x = x + 1;
                }
                proof {
                    assert(y * w + w == (y + 1) * w) by (nonlinear_arith);
                }
                y = y + 1;
            }
            proof {
                assert(height * w == w * height) by (nonlinear_arith);
                assert(alpha@.len() == composite_spec(gs).4.len());
                assert(alpha@ =~= composite_spec(gs).4);
            }
            GlyphMask { width, height, left: l, top: t, alpha }
        },
    }
}

} // verus!

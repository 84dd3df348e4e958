//! A rendered frame: straight (non-premultiplied) RGBA8, row-major.
use crate::color::Color;
use vstd::prelude::*;

verus! {

/// What a frame holds: its size and its RGBA bytes, row-major, four per pixel.
pub struct FrameModel {
    pub width: u32,
    pub height: u32,
    pub bytes: Seq<u8>,
}

/// A single rendered frame: straight (non-premultiplied) RGBA8, row-major.
///
/// Straight alpha is required end-to-end so `yuva420p` output composites correctly
/// in OBS and glyph edges do not carry a baked-in dark fringe.
#[derive(Debug, Clone, PartialEq, Eq)]
pub struct Frame {
    width: u32,
    height: u32,
    data: Vec<u8>,
}

impl View for Frame {
    type V = FrameModel;

    closed spec fn view(&self) -> FrameModel {
        FrameModel { width: self.width, height: self.height, bytes: self.data@ }
    }
}

/// Byte offset of pixel `(x, y)`, when it lies inside the frame.
pub open spec fn pixel_offset(m: FrameModel, x: int, y: int) -> Option<int> {
    if x < 0 || y < 0 || x >= m.width || y >= m.height {
        None
    } else {
        Some((y * m.width + x) * 4)
    }
}

/// The color stored at `(x, y)`, or transparent outside the frame.
pub open spec fn pixel_of(m: FrameModel, x: int, y: int) -> Color {
    match pixel_offset(m, x, y) {
        Some(o) => Color { r: m.bytes[o], g: m.bytes[o + 1], b: m.bytes[o + 2], a: m.bytes[o + 3] },
        None => Color { r: 0, g: 0, b: 0, a: 0 },
    }
}

/// The frame invariant: exactly four bytes per pixel.
pub open spec fn frame_wf(m: FrameModel) -> bool {
    m.bytes.len() == m.width * m.height * 4
}

/// Straight-alpha source-over: the source opacity after applying coverage.
pub open spec fn source_alpha(color_a: u8, coverage: u8) -> int {
    (color_a * coverage) / 255
}

/// Straight-alpha source-over: the composited alpha.
pub open spec fn out_alpha(src_a: int, dst_a: int) -> int {
    src_a + (dst_a * (255 - src_a)) / 255
}

/// Straight-alpha source-over of one color channel, clamped to 255.
pub open spec fn mix_channel(src: u8, dst: u8, src_a: int, dst_a: int) -> u8 {
    let out_a = out_alpha(src_a, dst_a);
    if out_a == 0 {
        0
    } else {
        let v = (src * src_a + (dst * dst_a * (255 - src_a)) / 255) / out_a;
        if v > 255 {
            255
        } else {
            v as u8
        }
    }
}

/// The bytes after blending `color` at `coverage` over pixel `(x, y)`.
pub open spec fn blended(m: FrameModel, x: int, y: int, color: Color, coverage: u8) -> Seq<u8> {
    let src_a = source_alpha(color.a, coverage);
    match pixel_offset(m, x, y) {
        None => m.bytes,
        Some(o) => if coverage == 0 || src_a == 0 {
            m.bytes
        } else {
            let dst_a = m.bytes[o + 3] as int;
            let oa = out_alpha(src_a, dst_a);
            m.bytes.update(o, mix_channel(color.r, m.bytes[o], src_a, dst_a)).update(
                o + 1,
                mix_channel(color.g, m.bytes[o + 1], src_a, dst_a),
            ).update(o + 2, mix_channel(color.b, m.bytes[o + 2], src_a, dst_a)).update(
                o + 3,
                if oa > 255 {
                    255u8
                } else {
                    oa as u8
                },
            )
        },
    }
}

/// The color of a pixel holding `dst` after `color` is blended over it at
/// `coverage/255` opacity (what `blend` does to that one pixel).
pub open spec fn over(dst: Color, color: Color, coverage: u8) -> Color {
    let src_a = source_alpha(color.a, coverage);
    if coverage == 0 || src_a == 0 {
        dst
    } else {
        let oa = out_alpha(src_a, dst.a as int);
        Color {
            r: mix_channel(color.r, dst.r, src_a, dst.a as int),
            g: mix_channel(color.g, dst.g, src_a, dst.a as int),
            b: mix_channel(color.b, dst.b, src_a, dst.a as int),
            a: if oa > 255 {
                255u8
            } else {
                oa as u8
            },
        }
    }
}

/// Blending at `(x, y)` changes that pixel (when it lies in the frame) to `over`
/// of its old color and leaves every other pixel alone.
pub proof fn lemma_blend_pixels(m: FrameModel, x: int, y: int, color: Color, coverage: u8)
    requires
        frame_wf(m),
    ensures
        forall|px: int, py: int|
            0 <= px < m.width && 0 <= py < m.height ==> #[trigger] pixel_of(
                FrameModel { bytes: blended(m, x, y, color, coverage), ..m },
                px,
                py,
            ) == if px == x && py == y {
                over(pixel_of(m, x, y), color, coverage)
            } else {
                pixel_of(m, px, py)
            },
{
    let n = FrameModel { bytes: blended(m, x, y, color, coverage), ..m };
    assert forall|px: int, py: int| 0 <= px < m.width && 0 <= py < m.height implies #[trigger] pixel_of(
        n,
        px,
        py,
    ) == if px == x && py == y {
        over(pixel_of(m, x, y), color, coverage)
    } else {
        pixel_of(m, px, py)
    } by {
        lemma_offset_in_bounds(m.width as int, m.height as int, px, py);
        if 0 <= x < m.width && 0 <= y < m.height && (px != x || py != y) {
            lemma_offset_in_bounds(m.width as int, m.height as int, x, y);
            lemma_distinct_pixels(m.width as int, m.height as int, px, py, x, y);
        }
    }
}

proof fn lemma_offset_in_bounds(w: int, h: int, x: int, y: int)
    requires
        0 <= x < w,
        0 <= y < h,
    ensures
        0 <= (y * w + x) * 4,
        (y * w + x) * 4 + 3 < w * h * 4,
{
    assert((y * w + x) * 4 + 3 < w * h * 4) by (nonlinear_arith)
        requires
            0 <= x < w,
            0 <= y < h,
    ;
    assert(0 <= (y * w + x) * 4) by (nonlinear_arith)
        requires
            0 <= x < w,
            0 <= y < h,
    ;
}

fn mix(src: u8, dst: u8, src_a: u32, dst_a: u32, out_a: u32) -> (r: u8)
    requires
        src_a <= 255,
        dst_a <= 255,
        out_a == out_alpha(src_a as int, dst_a as int),
    ensures
        r == mix_channel(src, dst, src_a as int, dst_a as int),
{
    if out_a == 0 {
        return 0;
    }
    proof {
        assert(src * src_a <= 255 * 255) by (nonlinear_arith)
            requires
                src <= 255,
                src_a <= 255,
        ;
        assert(dst * dst_a <= 255 * 255) by (nonlinear_arith)
            requires
                dst <= 255,
                dst_a <= 255,
        ;
        assert(dst * dst_a * (255 - src_a) <= 255 * 255 * 255) by (nonlinear_arith)
            requires
                dst <= 255,
                dst_a <= 255,
                src_a <= 255,
        ;
    }
    let s = (src as u32) * src_a;
    let d = (dst as u32) * dst_a * (255 - src_a) / 255;
    let v = (s + d) / out_a;
    if v > 255 {
        255
    } else {
        v as u8
    }
}

impl Frame {
    pub closed spec fn wf(&self) -> bool {
        frame_wf(self@)
    }

    pub proof fn lemma_wf(&self)
        requires
            self.wf(),
        ensures
            frame_wf(self@),
    {
    }

    /// Allocates a fully transparent `width` x `height` frame.
    ///
    /// When `width * height * 4` does not fit in `usize` this degrades to an empty
    /// 0x0 frame rather than panicking or wrapping.
    pub fn new(width: u32, height: u32) -> (f: Frame)
        ensures
            f.wf(),
            width * height * 4 <= usize::MAX ==> f@.width == width && f@.height == height
                && f@.bytes == Seq::new((width * height * 4) as nat, |i: int| 0u8),
            width * height * 4 > usize::MAX ==> f@.width == 0 && f@.height == 0
                && f@.bytes.len() == 0,
    {
        let byte_len = match (width as usize).checked_mul(height as usize) {
            Some(pixels) => pixels.checked_mul(4),
            None => None,
        };
        match byte_len {
            Some(len) => {
                let mut data: Vec<u8> = Vec::new();
                let mut i: usize = 0;
                while i < len
                    invariant
                        i <= len,
                        data@ == Seq::new(i as nat, |k: int| 0u8),
                    decreases len - i,
                {
                    data.push(0);
                    i = i + 1;
                    proof {
                        assert(data@ =~= Seq::new(i as nat, |k: int| 0u8));
                    }
                }
                Frame { width, height, data }
            },
            None => {
                proof {
                    if width * height <= usize::MAX {
                        assert(width * height * 4 > usize::MAX);
                    } else {
                        assert(width * height * 4 > usize::MAX) by (nonlinear_arith)
                            requires
                                width * height > usize::MAX,
                        ;
                    }
                }
                Frame { width: 0, height: 0, data: Vec::new() }
            },
        }
    }

    pub fn width(&self) -> (w: u32)
        ensures
            w == self@.width,
    {
        self.width
    }

    pub fn height(&self) -> (h: u32)
        ensures
            h == self@.height,
    {
        self.height
    }

    pub fn data(&self) -> (d: &[u8])
        ensures
            d@ == self@.bytes,
    {
        self.data.as_slice()
    }

    /// The RGBA bytes, for writing in place. The frame keeps its size: whatever
    /// the caller writes through the slice becomes the frame's bytes.
    pub fn data_mut(&mut self) -> (d: &mut [u8])
        requires
            old(self).wf(),
        ensures
            d@ == old(self)@.bytes,
            final(self)@ == (FrameModel { bytes: final(d)@, ..old(self)@ }),
    {
        self.data.as_mut_slice()
    }

    /// Every byte set to zero: fully transparent black.
    pub fn clear_transparent(&mut self)
        requires
            old(self).wf(),
        ensures
            final(self).wf(),
            final(self)@.width == old(self)@.width,
            final(self)@.height == old(self)@.height,
            final(self)@.bytes == Seq::new(old(self)@.bytes.len(), |i: int| 0u8),
    {
        let n = self.data.len();
        let ghost w = self.width;
        let ghost h = self.height;
        let mut i: usize = 0;
        while i < n
            invariant
                n == self.data@.len(),
                self.width == w && self.height == h,
                n == w * h * 4,
                i <= n,
                forall|k: int| 0 <= k < i ==> self.data@[k] == 0u8,
            decreases n - i,
        {
            self.data.set(i, 0);
            i = i + 1;
        }
        proof {
            assert(self.data@ =~= Seq::new(n as nat, |i: int| 0u8));
        }
    }

    /// Sets every pixel to `color`.
    pub fn fill(&mut self, color: Color)
        requires
            old(self).wf(),
        ensures
            final(self).wf(),
            final(self)@.width == old(self)@.width,
            final(self)@.height == old(self)@.height,
            final(self)@.bytes.len() == old(self)@.bytes.len(),
            forall|x: int, y: int|
                0 <= x < final(self)@.width && 0 <= y < final(self)@.height ==> #[trigger] pixel_of(
                    final(self)@,
                    x,
                    y,
                ) == color,
    {
        let n = self.data.len();
        let ghost w = self.width as int;
        let ghost h = self.height as int;
        proof {
            assert(n % 4 == 0) by (nonlinear_arith)
                requires
                    n == w * h * 4,
            ;
        }
        let mut i: usize = 0;
        while i < n
            invariant
                n == self.data@.len(),
                self.width == w && self.height == h,
                n % 4 == 0,
                n == w * h * 4,
                i % 4 == 0,
                i <= n,
                forall|k: int|
                    0 <= k < i ==> #[trigger] self.data@[k] == (if k % 4 == 0 {
                        color.r
                    } else if k % 4 == 1 {
                        color.g
                    } else if k % 4 == 2 {
                        color.b
                    } else {
                        color.a
                    }),
            decreases n - i,
        {
            self.data.set(i, color.r);
            self.data.set(i + 1, color.g);
            self.data.set(i + 2, color.b);
            self.data.set(i + 3, color.a);
            i = i + 4;
        }
        proof {
            assert(n % 4 == 0) by (nonlinear_arith)
                requires
                    n == w * h * 4,
            ;
            assert forall|x: int, y: int|
                0 <= x < self@.width && 0 <= y < self@.height implies #[trigger] pixel_of(
                self@,
                x,
                y,
            ) == color by {
                lemma_offset_in_bounds(w, h, x, y);
                let o = (y * w + x) * 4;
                assert(o % 4 == 0) by (nonlinear_arith)
                    requires
                        o == (y * w + x) * 4,
                ;
                assert((o + 1) % 4 == 1);
                assert((o + 2) % 4 == 2);
                assert((o + 3) % 4 == 3);
                assert(self.data@[o] == color.r);
                assert(self.data@[o + 1] == color.g);
                assert(self.data@[o + 2] == color.b);
                assert(self.data@[o + 3] == color.a);
            }
        }
    }

    /// The color at `(x, y)`, or transparent outside the frame. Coordinates are
    /// read as `i32`, so those past `i32::MAX` count as outside.
    pub fn pixel(&self, x: u32, y: u32) -> (c: Color)
        requires
            self.wf(),
        ensures
            c == pixel_of(self@, (x as i32) as int, (y as i32) as int),
    {
        match self.offset((x as i32) as i64, (y as i32) as i64) {
            Some(o) => Color {
                r: self.data[o],
                g: self.data[o + 1],
                b: self.data[o + 2],
                a: self.data[o + 3],
            },
            None => Color::transparent(),
        }
    }

    /// Source-over blend of `color` at `coverage/255` opacity, in straight alpha.
    ///
    /// Silently ignores out-of-bounds coordinates: the renderer legitimately blits
    /// glyph masks that overhang cell edges.
    pub fn blend(&mut self, x: i32, y: i32, color: Color, coverage: u8)
        requires
            old(self).wf(),
        ensures
            final(self).wf(),
            final(self)@.width == old(self)@.width,
            final(self)@.height == old(self)@.height,
            final(self)@.bytes == blended(old(self)@, x as int, y as int, color, coverage),
    {
        if coverage == 0 {
            return;
        }
        let offset = match self.offset(x as i64, y as i64) {
            Some(o) => o,
            None => {
                return;
            },
        };
        proof {
            assert(color.a * coverage <= 255 * 255) by (nonlinear_arith)
                requires
                    color.a <= 255,
                    coverage <= 255,
            ;
        }
        let src_a = ((color.a as u32) * (coverage as u32)) / 255;
        if src_a == 0 {
            return;
        }
        let dst_a = self.data[offset + 3] as u32;
        proof {
            assert(dst_a * (255 - src_a) <= 255 * 255) by (nonlinear_arith)
                requires
                    dst_a <= 255,
                    src_a <= 255,
            ;
            assert((dst_a * (255 - src_a)) / 255 <= 255);
        }
        let out_a = src_a + dst_a * (255 - src_a) / 255;
        let r = mix(color.r, self.data[offset], src_a, dst_a, out_a);
        let g = mix(color.g, self.data[offset + 1], src_a, dst_a, out_a);
        let b = mix(color.b, self.data[offset + 2], src_a, dst_a, out_a);
        let a: u8 = if out_a > 255 {
            255
        } else {
            out_a as u8
        };
        self.data.set(offset, r);
        self.data.set(offset + 1, g);
        self.data.set(offset + 2, b);
        self.data.set(offset + 3, a);
    }

    fn offset(&self, x: i64, y: i64) -> (r: Option<usize>)
        requires
            self.wf(),
        ensures
            r matches Some(o) ==> pixel_offset(self@, x as int, y as int) == Some(o as int) && o
                + 3 < self@.bytes.len(),
            r is None ==> pixel_offset(self@, x as int, y as int) is None,
    {
        if x < 0 || y < 0 || x >= self.width as i64 || y >= self.height as i64 {
            return None;
        }
        proof {
            lemma_offset_in_bounds(self.width as int, self.height as int, x as int, y as int);
        }
        let _len = self.data.len();
        Some(((y as usize) * (self.width as usize) + (x as usize)) * 4)
    }

    /// Fills the pixel rows `y0 .. y0 + line_h` that lie inside the frame with
    /// `color`, or with transparent black when `transparent` is set.
    pub fn fill_rows(&mut self, y0: i64, line_h: i64, transparent: bool, color: Color)
        requires
            old(self).wf(),
        ensures
            final(self).wf(),
            final(self)@.width == old(self)@.width,
            final(self)@.height == old(self)@.height,
            forall|x: int, y: int|
                0 <= x < old(self)@.width && 0 <= y < old(self)@.height ==> #[trigger] pixel_of(
                    final(self)@,
                    x,
                    y,
                ) == if y0 <= y < y0 + line_h {
                    if transparent {
                        Color { r: 0, g: 0, b: 0, a: 0 }
                    } else {
                        color
                    }
                } else {
                    pixel_of(old(self)@, x, y)
                },
    {
        let c = if transparent {
            Color::transparent()
        } else {
            color
        };
        let ghost w = self.width as int;
        let ghost h = self.height as int;
        let ghost start = self@;
        let lo: i64 = if y0 < 0 {
            0
        } else {
            y0
        };
        let end: i64 = if line_h > 0 && y0 <= i64::MAX - line_h {
            y0 + line_h
        } else if line_h > 0 {
            i64::MAX
        } else {
            y0
        };
        let hi: i64 = if end > self.height as i64 {
            self.height as i64
        } else {
            end
        };
        let mut y: i64 = lo;
        while y < hi
            invariant
                self.wf(),
                self@.width == w && self@.height == h,
                0 <= lo <= y,
                y == lo || y <= hi,
                hi <= h,
                lo == (if y0 < 0 {
                    0
                } else {
                    y0
                }),
                hi == (if end > h {
                    h
                } else {
                    end as int
                }),
                end == (if line_h > 0 && y0 <= i64::MAX - line_h {
                    y0 + line_h
                } else if line_h > 0 {
                    i64::MAX as int
                } else {
                    y0 as int
                }),
                start.width == w && start.height == h,
                frame_wf(start),
                forall|px: int, py: int|
                    0 <= px < w && 0 <= py < h ==> #[trigger] pixel_of(self@, px, py) == if lo
                        <= py < y {
                        c
                    } else {
                        pixel_of(start, px, py)
                    },
            decreases hi - y,
        {
            let mut x: u32 = 0;
            while x < self.width
                invariant
                    self.wf(),
                    self@.width == w && self@.height == h,
                    0 <= lo <= y < hi <= h,
                    x <= w,
                    start.width == w && start.height == h,
                    frame_wf(start),
                    forall|px: int, py: int|
                        0 <= px < w && 0 <= py < h ==> #[trigger] pixel_of(self@, px, py) == if (lo
                            <= py < y) || (py == y && px < x) {
                            c
                        } else {
                            pixel_of(start, px, py)
                        },
                decreases w - x,
            {
                let o = self.offset(x as i64, y).unwrap();
                let ghost before = self@;
                self.data.set(o, c.r);
                self.data.set(o + 1, c.g);
                self.data.set(o + 2, c.b);
                self.data.set(o + 3, c.a);
                proof {
                    assert forall|px: int, py: int|
                        0 <= px < w && 0 <= py < h implies #[trigger] pixel_of(self@, px, py) == if (
                        lo <= py < y) || (py == y && px < x + 1) {
                            c
                        } else {
                            pixel_of(start, px, py)
                        } by {
                        if px != x || py != y {
                            lemma_offset_in_bounds(w, h, px, py);
                            lemma_distinct_pixels(w, h, px, py, x as int, y as int);
                            assert(pixel_of(self@, px, py) == pixel_of(before, px, py));
                        }
                    }
                }
                x = x + 1;
            }
            y = y + 1;
        }
        proof {
            assert forall|px: int, py: int|
                0 <= px < w && 0 <= py < h implies #[trigger] pixel_of(self@, px, py) == if y0
                <= py < y0 + line_h {
                    c
                } else {
                    pixel_of(start, px, py)
                } by {
                if line_h > 0 && y0 > i64::MAX - line_h {
                    assert(y0 + line_h > i64::MAX);
                }
                assert((lo <= py < hi) == (y0 <= py < y0 + line_h));
                assert((lo <= py < y) == (lo <= py < hi));
            }
        }
    }
}

/// Distinct pixels occupy disjoint four-byte groups.
proof fn lemma_distinct_pixels(w: int, h: int, x1: int, y1: int, x2: int, y2: int)
    requires
        0 <= x1 < w,
        0 <= y1 < h,
        0 <= x2 < w,
        0 <= y2 < h,
        x1 != x2 || y1 != y2,
    ensures
        (y1 * w + x1) * 4 + 3 < (y2 * w + x2) * 4 || (y2 * w + x2) * 4 + 3 < (y1 * w + x1) * 4,
{
    assert(y1 * w + x1 != y2 * w + x2) by (nonlinear_arith)
        requires
            0 <= x1 < w,
            0 <= x2 < w,
            x1 != x2 || y1 != y2,
    ;
}


/// Blending at zero coverage leaves a pixel as it was.
pub proof fn lemma_zero_coverage_keeps(dst: Color, color: Color)
    ensures
        over(dst, color, 0) == dst,
{
}

/// An opaque color blended at full coverage replaces the pixel outright,
/// whatever it held before.
pub proof fn lemma_opaque_blend_replaces(dst: Color, color: Color)
    requires
        color.a == 255,
    ensures
        over(dst, color, 255) == color,
{
    let src_a = source_alpha(color.a, 255);
    assert(src_a == 255);
    assert(out_alpha(255, dst.a as int) == 255);
    assert((color.r * 255 + (dst.r * dst.a * 0) / 255) / 255 == color.r) by (nonlinear_arith);
    assert((color.g * 255 + (dst.g * dst.a * 0) / 255) / 255 == color.g) by (nonlinear_arith);
    assert((color.b * 255 + (dst.b * dst.a * 0) / 255) / 255 == color.b) by (nonlinear_arith);
}

} // verus!

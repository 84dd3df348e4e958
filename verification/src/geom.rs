//! Plain pixel geometry: sizes, points, rectangles and padding.
use vstd::prelude::*;

verus! {

#[derive(Debug, Clone, Copy, PartialEq, Eq, Default, Structural)]
pub struct Size {
    pub width: u32,
    pub height: u32,
}

#[derive(Debug, Clone, Copy, PartialEq, Eq, Default, Structural)]
pub struct Point {
    pub x: i32,
    pub y: i32,
}

#[derive(Debug, Clone, Copy, PartialEq, Eq, Default, Structural)]
pub struct Rect {
    pub x: i32,
    pub y: i32,
    pub width: u32,
    pub height: u32,
}

#[derive(Debug, Clone, Copy, PartialEq, Eq, Default, Structural)]
pub struct Padding {
    pub top: u32,
    pub right: u32,
    pub bottom: u32,
    pub left: u32,
}

impl Padding {
    pub fn uniform(value: u32) -> (p: Padding)
        ensures
            p == (Padding { top: value, right: value, bottom: value, left: value }),
    {
        Padding { top: value, right: value, bottom: value, left: value }
    }

    /// Total horizontal padding (`left + right`).
    pub fn horizontal(self) -> (r: u32)
        requires
            self.left + self.right <= u32::MAX,
        ensures
            r == self.left + self.right,
    {
        self.left + self.right
    }

    /// Total vertical padding (`top + bottom`).
    pub fn vertical(self) -> (r: u32)
        requires
            self.top + self.bottom <= u32::MAX,
        ensures
            r == self.top + self.bottom,
    {
        self.top + self.bottom
    }
}

/// `a - b`, or 0 when `b > a`.
pub open spec fn sat_sub(a: int, b: int) -> int {
    if a >= b {
        a - b
    } else {
        0
    }
}

/// The rectangle `r` shrunk by `p`: the origin moves in by the left and top
/// padding and each extent loses its axis total, saturating at zero.
pub open spec fn inset_rect(r: Rect, p: Padding) -> Rect {
    Rect {
        x: (r.x + (p.left as i32)) as i32,
        y: (r.y + (p.top as i32)) as i32,
        width: sat_sub(r.width as int, p.left + p.right) as u32,
        height: sat_sub(r.height as int, p.top + p.bottom) as u32,
    }
}

/// Whether `inset` can run without overflow on these values.
pub open spec fn inset_fits(r: Rect, p: Padding) -> bool {
    &&& p.left + p.right <= u32::MAX
    &&& p.top + p.bottom <= u32::MAX
    &&& i32::MIN <= r.x + (p.left as i32) <= i32::MAX
    &&& i32::MIN <= r.y + (p.top as i32) <= i32::MAX
}

impl Rect {
    /// Shrinks the rectangle by `padding`, saturating at zero rather than
    /// underflowing when the padding exceeds the available space.
    pub fn inset(self, padding: Padding) -> (r: Rect)
        requires
            inset_fits(self, padding),
        ensures
            r == inset_rect(self, padding),
    {
        Rect {
            x: self.x + padding.left as i32,
            y: self.y + padding.top as i32,
            width: self.width.saturating_sub(padding.horizontal()),
            height: self.height.saturating_sub(padding.vertical()),
        }
    }
}

} // verus!

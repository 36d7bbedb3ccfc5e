//! Screen rectangles and colours as plain values. The arithmetic is that of
//! the windowing backend's rectangles: coordinates and extents are clamped
//! into a range in which no sum of a position and an extent can overflow.

use vstd::prelude::*;

verus! {

/// The largest coordinate and the largest extent of a rectangle.
pub const MAX_EXTENT: i32 = 0x3fff_ffff;

/// The smallest coordinate of a rectangle.
pub const MIN_POSITION: i32 = -0x4000_0000;

/// An extent brought into range: zero becomes one, too large becomes the largest.
pub open spec fn clamped_size(val: int) -> int {
    if val <= 0 {
        1
    } else if val > MAX_EXTENT {
        MAX_EXTENT as int
    } else {
        val
    }
}

/// A coordinate brought into range.
pub open spec fn clamped_position(val: int) -> int {
    if val > MAX_EXTENT {
        MAX_EXTENT as int
    } else if val < MIN_POSITION {
        MIN_POSITION as int
    } else {
        val
    }
}

fn clamp_size(val: u32) -> (clamped: u32)
    ensures
        clamped == clamped_size(val as int),
{
    if val == 0 {
        1
    } else if val > 0x3fff_ffff {
        0x3fff_ffff
    } else {
        val
    }
}

fn clamp_position(val: i64) -> (clamped: i32)
    ensures
        clamped == clamped_position(val as int),
{
    if val > 0x3fff_ffff {
        MAX_EXTENT
    } else if val < -0x4000_0000 {
        MIN_POSITION
    } else {
        val as i32
    }
}

/// An opaque colour with red, green and blue parts.
#[derive(Clone, Copy, Debug, PartialEq, Eq, Structural)]
pub struct Color {
    pub r: u8,
    pub g: u8,
    pub b: u8,
}

/// A rectangle on the screen: its top-left corner and its extent in pixels.
#[derive(Clone, Copy, Debug, PartialEq, Eq, Structural)]
pub struct Rect {
    pub x: i32,
    pub y: i32,
    pub w: u32,
    pub h: u32,
}

impl Rect {
    /// The rectangle is not empty and lies within the range of coordinates.
    pub open spec fn wf(self) -> bool {
        &&& MIN_POSITION <= self.x <= MAX_EXTENT
        &&& MIN_POSITION <= self.y <= MAX_EXTENT
        &&& 1 <= self.w <= MAX_EXTENT
        &&& 1 <= self.h <= MAX_EXTENT
    }

    /// The rectangle that `new` makes of four numbers.
    pub open spec fn spec_new(x: int, y: int, width: int, height: int) -> Rect {
        Rect {
            x: clamped_position(x) as i32,
            y: clamped_position(y) as i32,
            w: clamped_size(width) as u32,
            h: clamped_size(height) as u32,
        }
    }

    /// The middle of the rectangle, rounded down.
    pub open spec fn spec_center(self) -> (int, int) {
        (clamped_position(self.x + self.w / 2), clamped_position(self.y + self.h / 2))
    }

    /// The rectangle of the given extent whose middle is `(cx, cy)`.
    pub open spec fn spec_from_center(cx: int, cy: int, width: int, height: int) -> Rect {
        let w = clamped_size(width);
        let h = clamped_size(height);
        Rect {
            x: clamped_position(clamped_position(cx) - w / 2) as i32,
            y: clamped_position(clamped_position(cy) - h / 2) as i32,
            w: w as u32,
            h: h as u32,
        }
    }

    /// Whether the point lies inside; the right and bottom edges are outside.
    pub open spec fn spec_contains(self, px: int, py: int) -> bool {
        self.x <= px < self.x + self.w && self.y <= py < self.y + self.h
    }

    /// The smallest rectangle that holds both, as far as the range allows.
    pub open spec fn spec_union(self, other: Rect) -> Rect {
        let left = vstd::math::min(self.x as int, other.x as int);
        let top = vstd::math::min(self.y as int, other.y as int);
        let right = vstd::math::max(self.x + self.w, other.x + other.w);
        let bottom = vstd::math::max(self.y + self.h, other.y + other.h);
        Rect::spec_new(left, top, right - left, bottom - top)
    }

    /// A rectangle with its top-left corner at `(x, y)`. Coordinates and
    /// extents out of range are clamped; an extent of zero becomes one.
    pub fn new(x: i32, y: i32, width: u32, height: u32) -> (rect: Rect)
        ensures
            rect.wf(),
            rect == Rect::spec_new(x as int, y as int, width as int, height as int),
    {
        Rect {
            x: clamp_position(x as i64),
            y: clamp_position(y as i64),
            w: clamp_size(width),
            h: clamp_size(height),
        }
    }

    /// A rectangle of the given extent centred on `center`.
    pub fn from_center(center: (i32, i32), width: u32, height: u32) -> (rect: Rect)
        ensures
            rect.wf(),
            rect == Rect::spec_from_center(
                center.0 as int,
                center.1 as int,
                width as int,
                height as int,
            ),
    {
        let w = clamp_size(width);
        let h = clamp_size(height);
        let cx = clamp_position(center.0 as i64);
        let cy = clamp_position(center.1 as i64);
        Rect {
            x: clamp_position(cx as i64 - (w / 2) as i64),
            y: clamp_position(cy as i64 - (h / 2) as i64),
            w,
            h,
        }
    }

    pub fn x(&self) -> (x: i32)
        ensures
            x == self.x,
    {
        self.x
    }

    pub fn y(&self) -> (y: i32)
        ensures
            y == self.y,
    {
        self.y
    }

    pub fn width(&self) -> (width: u32)
        ensures
            width == self.w,
    {
        self.w
    }

    pub fn height(&self) -> (height: u32)
        ensures
            height == self.h,
    {
        self.h
    }

    /// The middle of the rectangle; where an extent is odd, rounded down.
    pub fn center(&self) -> (center: (i32, i32))
        requires
            self.wf(),
        ensures
            (center.0 as int, center.1 as int) == self.spec_center(),
    {
        (
            clamp_position(self.x as i64 + (self.w / 2) as i64),
            clamp_position(self.y as i64 + (self.h / 2) as i64),
        )
    }

    /// Whether the rectangle contains the point `(px, py)`.
    pub fn contains_point(&self, px: i32, py: i32) -> (inside: bool)
        requires
            self.wf(),
        ensures
            inside == self.spec_contains(px as int, py as int),
    {
        let inside_x = px >= self.x && (px as i64) < self.x as i64 + self.w as i64;
        inside_x && (py >= self.y && (py as i64) < self.y as i64 + self.h as i64)
    }

    /// The smallest rectangle that holds both this one and `other`.
    pub fn union(&self, other: Rect) -> (joined: Rect)
        requires
            self.wf(),
            other.wf(),
        ensures
            joined.wf(),
            joined == self.spec_union(other),
    {
        let left = if other.x < self.x {
            other.x
        } else {
            self.x
        };
        let top = if other.y < self.y {
            other.y
        } else {
            self.y
        };
        let self_right = self.x as i64 + self.w as i64;
        let other_right = other.x as i64 + other.w as i64;
        let right = if other_right > self_right {
            other_right
        } else {
            self_right
        };
        let self_bottom = self.y as i64 + self.h as i64;
        let other_bottom = other.y as i64 + other.h as i64;
        let bottom = if other_bottom > self_bottom {
            other_bottom
        } else {
            self_bottom
        };
        Rect::new(left, top, (right - left as i64) as u32, (bottom - top as i64) as u32)
    }
}

/// The union holds every point of both rectangles when it had not to be
/// clamped, that is when it is no wider and no higher than the largest extent.
pub proof fn lemma_union_contains(a: Rect, b: Rect, px: int, py: int)
    requires
        a.wf(),
        b.wf(),
        vstd::math::max(a.x + a.w, b.x + b.w) - vstd::math::min(a.x as int, b.x as int)
            <= MAX_EXTENT,
        vstd::math::max(a.y + a.h, b.y + b.h) - vstd::math::min(a.y as int, b.y as int)
            <= MAX_EXTENT,
        a.spec_contains(px, py) || b.spec_contains(px, py),
    ensures
        a.spec_union(b).spec_contains(px, py),
{
}

} // verus!

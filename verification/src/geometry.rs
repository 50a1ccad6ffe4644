//! Points, sizes and rectangles in whole layout pixels.
//!
//! A layout table entry is relative to the parent surface and holds `i32`
//! components. Everything the compiler emits is absolute and held in `i64`, so
//! that the sum of an entry and the origins of all its ancestors is exact.

use vstd::prelude::*;

verus! {

/// One layout table entry: the rectangle of a surface relative to its parent.
#[derive(Clone, Copy, Debug, PartialEq, Eq, Structural)]
pub struct ComputedLayout {
    pub x: i32,
    pub y: i32,
    pub width: i32,
    pub height: i32,
}

/// A displacement in layout space.
#[derive(Clone, Copy, Debug, PartialEq, Eq, Structural)]
pub struct LayoutVector2D {
    pub x: i32,
    pub y: i32,
}

/// An absolute position in layout space.
#[derive(Clone, Copy, Debug, PartialEq, Eq, Structural)]
pub struct LayoutPoint {
    pub x: i64,
    pub y: i64,
}

/// The extent of a rectangle.
#[derive(Clone, Copy, Debug, PartialEq, Eq, Structural)]
pub struct LayoutSize {
    pub width: i64,
    pub height: i64,
}

/// An absolute rectangle in layout space.
#[derive(Clone, Copy, Debug, PartialEq, Eq, Structural)]
pub struct LayoutRect {
    pub origin: LayoutPoint,
    pub size: LayoutSize,
}

/// Largest distance from zero that an accumulated origin may reach.
///
/// It leaves room, within `i64`, for every offset the compiler adds to an
/// origin: a layout entry, a shadow offset and spread, a glyph offset.
pub const ORIGIN_LIMIT: i64 = 0x1_0000_0000_0000;

/// Largest distance from zero of a component of a layout entry.
pub const ENTRY_LIMIT: i64 = 0x8000_0000;

pub open spec fn abs(v: int) -> int {
    if v < 0 {
        -v
    } else {
        v
    }
}

impl ComputedLayout {
    pub fn new(x: i32, y: i32, width: i32, height: i32) -> (entry: Self)
        ensures
            entry == (ComputedLayout { x, y, width, height }),
    {
        ComputedLayout { x, y, width, height }
    }

    /// The extent of the entry. It is the size available to the surface's text.
    pub fn size(&self) -> (size: LayoutSize)
        ensures
            size == (LayoutSize { width: self.width as i64, height: self.height as i64 }),
    {
        LayoutSize { width: self.width as i64, height: self.height as i64 }
    }

    /// The entry moved into the coordinate frame whose origin is `origin`.
    pub open spec fn placed_at(self, origin: LayoutPoint) -> LayoutRect {
        LayoutRect {
            origin: LayoutPoint { x: (origin.x + self.x) as i64, y: (origin.y + self.y) as i64 },
            size: LayoutSize { width: self.width as i64, height: self.height as i64 },
        }
    }

    /// Translates the entry by the absolute origin of the parent surface.
    pub fn translate(&self, origin: LayoutPoint) -> (rect: LayoutRect)
        requires
            origin.within(ORIGIN_LIMIT as int - ENTRY_LIMIT),
        ensures
            rect == self.placed_at(origin),
            rect.origin.x == origin.x + self.x,
            rect.origin.y == origin.y + self.y,
            rect.size.width == self.width,
            rect.size.height == self.height,
    {
        LayoutRect {
            origin: LayoutPoint { x: origin.x + self.x as i64, y: origin.y + self.y as i64 },
            size: LayoutSize { width: self.width as i64, height: self.height as i64 },
        }
    }
}

impl LayoutPoint {
    pub fn new(x: i64, y: i64) -> (point: Self)
        ensures
            point == (LayoutPoint { x, y }),
    {
        LayoutPoint { x, y }
    }

    pub fn zero() -> (point: Self)
        ensures
            point == (LayoutPoint { x: 0, y: 0 }),
    {
        LayoutPoint { x: 0, y: 0 }
    }

    /// Both coordinates are at most `bound` away from zero.
    pub open spec fn within(self, bound: int) -> bool {
        abs(self.x as int) <= bound && abs(self.y as int) <= bound
    }
}

impl LayoutSize {
    pub fn new(width: i64, height: i64) -> (size: Self)
        ensures
            size == (LayoutSize { width, height }),
    {
        LayoutSize { width, height }
    }

    pub fn zero() -> (size: Self)
        ensures
            size == (LayoutSize { width: 0, height: 0 }),
    {
        LayoutSize { width: 0, height: 0 }
    }
}

impl LayoutRect {
    pub fn new(origin: LayoutPoint, size: LayoutSize) -> (rect: Self)
        ensures
            rect == (LayoutRect { origin, size }),
    {
        LayoutRect { origin, size }
    }

    /// The point lies inside the rectangle: on or after the near edges and
    /// strictly before the far edges.
    pub open spec fn holds(self, x: int, y: int) -> bool {
        &&& self.origin.x <= x < self.origin.x + self.size.width
        &&& self.origin.y <= y < self.origin.y + self.size.height
    }

    /// The whole of `inner` lies inside the rectangle.
    pub open spec fn encloses(self, inner: LayoutRect) -> bool {
        &&& self.origin.x <= inner.origin.x
        &&& self.origin.y <= inner.origin.y
        &&& inner.origin.x + inner.size.width <= self.origin.x + self.size.width
        &&& inner.origin.y + inner.size.height <= self.origin.y + self.size.height
    }

    /// The rectangle moved by `offset` and grown by `margin` on every side.
    pub open spec fn spread_by(self, offset: LayoutVector2D, margin: int) -> LayoutRect {
        LayoutRect {
            origin: LayoutPoint {
                x: (self.origin.x + offset.x - margin) as i64,
                y: (self.origin.y + offset.y - margin) as i64,
            },
            size: LayoutSize {
                width: (self.size.width + 2 * margin) as i64,
                height: (self.size.height + 2 * margin) as i64,
            },
        }
    }

    /// The size is that of a layout entry and the origin is within the
    /// limit that the compiler keeps.
    pub open spec fn bounded(self) -> bool {
        &&& self.origin.within(ORIGIN_LIMIT as int)
        &&& abs(self.size.width as int) <= ENTRY_LIMIT
        &&& abs(self.size.height as int) <= ENTRY_LIMIT
    }

    pub fn contains(&self, x: i64, y: i64) -> (inside: bool)
        ensures
            inside == self.holds(x as int, y as int),
    {
        let px: i128 = x as i128;
        let py: i128 = y as i128;
        let left: i128 = self.origin.x as i128;
        let top: i128 = self.origin.y as i128;
        let right: i128 = left + self.size.width as i128;
        let bottom: i128 = top + self.size.height as i128;
        left <= px && px < right && top <= py && py < bottom
    }

    /// Moves the rectangle by `offset` and grows it by `margin` on every side.
    pub fn translate_inflate(&self, offset: LayoutVector2D, margin: i64) -> (rect: LayoutRect)
        requires
            self.bounded(),
            abs(margin as int) <= 2 * ENTRY_LIMIT,
        ensures
            rect == self.spread_by(offset, margin as int),
    {
        LayoutRect {
            origin: LayoutPoint {
                x: self.origin.x + offset.x as i64 - margin,
                y: self.origin.y + offset.y as i64 - margin,
            },
            size: LayoutSize {
                width: self.size.width + 2 * margin,
                height: self.size.height + 2 * margin,
            },
        }
    }
}

} // verus!

//! Terminal-cell rectangles.

use vstd::prelude::*;

verus! {

/// `a + b`, saturated at `u16::MAX`.
pub open spec fn sat_add(a: int, b: int) -> int {
    if a + b > u16::MAX {
        u16::MAX as int
    } else {
        a + b
    }
}

/// `a - b`, saturated at zero.
pub open spec fn sat_sub(a: int, b: int) -> int {
    if a - b < 0 {
        0
    } else {
        a - b
    }
}

/// A rectangle of terminal cells: `x`/`y` is the top-left cell, `width`/`height` its size.
#[derive(Clone, Copy, Debug, Default, PartialEq, Eq, Hash, Structural)]
pub struct Rect {
    pub x: u16,
    pub y: u16,
    pub width: u16,
    pub height: u16,
}

impl Rect {
    /// First column right of the rectangle, saturated at `u16::MAX`.
    pub open spec fn right_spec(self) -> int {
        sat_add(self.x as int, self.width as int)
    }

    /// First row below the rectangle, saturated at `u16::MAX`.
    pub open spec fn bottom_spec(self) -> int {
        sat_add(self.y as int, self.height as int)
    }

    /// The rectangle ends within the coordinate space: its right column and bottom row do
    /// not pass `u16::MAX`. Every rectangle made by [`Rect::new`] is normalized.
    pub open spec fn normalized(self) -> bool {
        self.x + self.width <= u16::MAX && self.y + self.height <= u16::MAX
    }

    /// Whether the cell `(col, row)` lies inside the rectangle.
    pub open spec fn holds(self, col: int, row: int) -> bool {
        self.x <= col < self.right_spec() && self.y <= row < self.bottom_spec()
    }

    /// Creates a rectangle, shrinking `width` and `height` so that it ends within the
    /// coordinate space.
    pub fn new(x: u16, y: u16, width: u16, height: u16) -> (r: Self)
        ensures
            r.x == x,
            r.y == y,
            r.width == sat_add(x as int, width as int) - x,
            r.height == sat_add(y as int, height as int) - y,
            r.normalized(),
    {
        let width = x.saturating_add(width) - x;
        let height = y.saturating_add(height) - y;
        Rect { x, y, width, height }
    }

    /// Left column.
    pub fn left(self) -> (r: u16)
        ensures
            r == self.x,
    {
        self.x
    }

    /// Top row.
    pub fn top(self) -> (r: u16)
        ensures
            r == self.y,
    {
        self.y
    }

    /// First column right of the rectangle, saturated at `u16::MAX`.
    pub fn right(self) -> (r: u16)
        ensures
            r == self.right_spec(),
    {
        self.x.saturating_add(self.width)
    }

    /// First row below the rectangle, saturated at `u16::MAX`.
    pub fn bottom(self) -> (r: u16)
        ensures
            r == self.bottom_spec(),
    {
        self.y.saturating_add(self.height)
    }

    /// Whether the cell `(col, row)` lies inside the rectangle.
    pub fn contains(self, col: u16, row: u16) -> (r: bool)
        ensures
            r == self.holds(col as int, row as int),
    {
        col >= self.x && col < self.right() && row >= self.y && row < self.bottom()
    }
}

} // verus!

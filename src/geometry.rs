use vstd::prelude::*;

verus! {

/// A (row, column) coordinate in a buffer's grid of characters.
#[derive(Debug, Clone, Copy, PartialEq, Eq, Structural)]
pub struct Point {
    pub row: usize,
    pub column: usize,
}

/// Lexicographic order on positions: row first, then column.
pub open spec fn point_le(a: Point, b: Point) -> bool {
    a.row < b.row || (a.row == b.row && a.column <= b.column)
}

pub open spec fn point_lt(a: Point, b: Point) -> bool {
    a.row < b.row || (a.row == b.row && a.column < b.column)
}

impl Point {
    pub fn new(row: usize, column: usize) -> (r: Point)
        ensures
            r.row == row,
            r.column == column,
    {
        Point { row, column }
    }

    pub fn row(&self) -> (r: usize)
        ensures
            r == self.row,
    {
        self.row
    }

    pub fn column(&self) -> (r: usize)
        ensures
            r == self.column,
    {
        self.column
    }

    /// `self <= other` in lexicographic order.
    pub fn le(&self, other: &Point) -> (r: bool)
        ensures
            r == point_le(*self, *other),
    {
        self.row < other.row || (self.row == other.row && self.column <= other.column)
    }

    /// `self < other` in lexicographic order.
    pub fn lt(&self, other: &Point) -> (r: bool)
        ensures
            r == point_lt(*self, *other),
    {
        self.row < other.row || (self.row == other.row && self.column < other.column)
    }
}

/// A screen-space vector in whole pixels.
#[derive(Debug, Clone, Copy, PartialEq, Eq, Structural)]
pub struct Offset {
    pub x: i64,
    pub y: i64,
}

impl Offset {
    pub fn new(x: i64, y: i64) -> (r: Offset)
        ensures
            r.x == x,
            r.y == y,
    {
        Offset { x, y }
    }
}

/// A screen-space rectangle in whole pixels: top-left corner and size.
#[derive(Debug, Clone, Copy, PartialEq, Eq, Structural)]
pub struct Rect {
    pub x: i64,
    pub y: i64,
    pub w: i64,
    pub h: i64,
}

pub open spec fn rect_contains(r: Rect, px: int, py: int) -> bool {
    r.x <= px <= r.x + r.w && r.y <= py <= r.y + r.h
}

pub open spec fn sat_add(a: int, b: int) -> int {
    if a + b > i64::MAX {
        i64::MAX as int
    } else if a + b < i64::MIN {
        i64::MIN as int
    } else {
        a + b
    }
}

impl Rect {
    pub fn new(x: i64, y: i64, w: i64, h: i64) -> (r: Rect)
        ensures
            r.x == x,
            r.y == y,
            r.w == w,
            r.h == h,
    {
        Rect { x, y, w, h }
    }

    /// Whether the point lies inside the rectangle, edges included.
    pub fn contains(&self, px: i64, py: i64) -> (r: bool)
        ensures
            r == rect_contains(*self, px as int, py as int),
    {
        let px = px as i128;
        let py = py as i128;
        let x = self.x as i128;
        let y = self.y as i128;
        x <= px && px <= x + self.w as i128 && y <= py && py <= y + self.h as i128
    }

    /// The rectangle moved by `d`; coordinates saturate at the bounds of `i64`.
    pub fn offset(&self, d: Offset) -> (r: Rect)
        ensures
            r.x == sat_add(self.x as int, d.x as int),
            r.y == sat_add(self.y as int, d.y as int),
            r.w == self.w,
            r.h == self.h,
    {
        Rect { x: add_saturating(self.x, d.x), y: add_saturating(self.y, d.y), w: self.w, h: self.h }
    }
}

/// Sum of two `i64` values, saturating at the type's bounds.
pub fn add_saturating(a: i64, b: i64) -> (r: i64)
    ensures
        r == sat_add(a as int, b as int),
{
    let s = a as i128 + b as i128;
    if s > i64::MAX as i128 {
        i64::MAX
    } else if s < i64::MIN as i128 {
        i64::MIN
    } else {
        s as i64
    }
}

} // verus!

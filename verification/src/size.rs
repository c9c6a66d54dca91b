//! Basic types representing size and point information.

use vstd::prelude::*;

verus! {

/// Represents the size of a 2-dimensional space expressed as _rows_ and _columns_.
#[derive(Copy, Clone, Debug, PartialEq, Eq, Structural)]
pub struct Size {
    pub rows: u32,
    pub cols: u32,
}

/// Represent a point in a 2-dimensional space expressed as _row_ and _column_.
#[derive(Copy, Clone, Debug, PartialEq, Eq, Structural)]
pub struct Point {
    pub row: u32,
    pub col: u32,
}

impl Size {
    /// The size (`0`, `0`).
    pub open spec fn zero_spec() -> Size {
        Size { rows: 0, cols: 0 }
    }

    /// A size of (`0`, `0`).
    pub fn zero() -> (s: Size)
        ensures
            s == Size::zero_spec(),
    {
        Size { rows: 0, cols: 0 }
    }

    /// Creates a size of (`rows`, `cols`).
    pub fn new(rows: u32, cols: u32) -> (s: Size)
        ensures
            s.rows == rows,
            s.cols == cols,
    {
        Size { rows, cols }
    }

    /// Creates a size of (`rows`, `0`).
    pub fn rows(rows: u32) -> (s: Size)
        ensures
            s.rows == rows,
            s.cols == 0,
    {
        Size { rows, cols: 0 }
    }

    /// Creates a size of (`0`, `cols`).
    pub fn cols(cols: u32) -> (s: Size)
        ensures
            s.rows == 0,
            s.cols == cols,
    {
        Size { rows: 0, cols }
    }

    /// Returns the component-wise difference `self - rhs`.
    pub fn minus(self, rhs: Size) -> (s: Size)
        requires
            rhs.rows <= self.rows,
            rhs.cols <= self.cols,
        ensures
            s.rows == self.rows - rhs.rows,
            s.cols == self.cols - rhs.cols,
    {
        Size { rows: self.rows - rhs.rows, cols: self.cols - rhs.cols }
    }

    /// Returns `true` if this is the size (`0`, `0`).
    pub fn is_zero(&self) -> (b: bool)
        ensures
            b == (self.rows == 0 && self.cols == 0),
    {
        self.rows == 0 && self.cols == 0
    }
}

impl Point {
    /// The point (`0`, `0`).
    pub open spec fn origin_spec() -> Point {
        Point { row: 0, col: 0 }
    }

    /// A point of (`0`, `0`).
    pub fn origin() -> (p: Point)
        ensures
            p == Point::origin_spec(),
    {
        Point { row: 0, col: 0 }
    }

    /// Creates a point of (`row`, `col`).
    pub fn new(row: u32, col: u32) -> (p: Point)
        ensures
            p.row == row,
            p.col == col,
    {
        Point { row, col }
    }

    /// Returns `true` if this point is adjacent to and follows `p`.
    pub fn follows(&self, p: Point) -> (b: bool)
        ensures
            b == (self.row == p.row && self.col == p.col + 1),
    {
        self.row == p.row && p.col < u32::MAX && self.col == p.col + 1
    }

    /// Returns the component-wise sum `self + rhs`.
    pub fn plus(self, rhs: Point) -> (p: Point)
        requires
            self.row + rhs.row <= u32::MAX,
            self.col + rhs.col <= u32::MAX,
        ensures
            p.row == self.row + rhs.row,
            p.col == self.col + rhs.col,
    {
        Point { row: self.row + rhs.row, col: self.col + rhs.col }
    }

    /// Returns the component-wise difference `self - rhs`.
    pub fn minus(self, rhs: Point) -> (p: Point)
        requires
            rhs.row <= self.row,
            rhs.col <= self.col,
        ensures
            p.row == self.row - rhs.row,
            p.col == self.col - rhs.col,
    {
        Point { row: self.row - rhs.row, col: self.col - rhs.col }
    }

    /// Returns the point displaced by `size`.
    pub fn plus_size(self, size: Size) -> (p: Point)
        requires
            self.row + size.rows <= u32::MAX,
            self.col + size.cols <= u32::MAX,
        ensures
            p.row == self.row + size.rows,
            p.col == self.col + size.cols,
    {
        Point { row: self.row + size.rows, col: self.col + size.cols }
    }
}

} // verus!

//! A grid of cells representing characters on a display.

use crate::color::Color;
use crate::size::{Point, Size};
use vstd::prelude::*;

verus! {

/// A pair containing a [`char`] and a [`Color`].
#[derive(Copy, Clone, Eq, PartialEq, Debug, Structural)]
pub struct Cell {
    pub value: char,
    pub color: Color,
}

/// A 2-dimensional array of [`Cell`]s stored row by row.
pub struct Grid {
    size: Size,
    content: Vec<Cell>,
}

/// The cell holding `\0` in color (`0`, `0`).
pub open spec fn empty_cell() -> Cell {
    Cell { value: '\0', color: Color { fg: 0, bg: 0 } }
}

/// The point of the cell stored at `index` in a grid of `cols` columns.
pub open spec fn point_at(index: int, cols: int) -> Point {
    Point { row: (index / cols) as u32, col: (index % cols) as u32 }
}

/// The cells of `a` that differ from `b` among the first `n`, in index order, each
/// paired with the point where it lies and taken from `b`.
pub open spec fn diff_upto(a: Seq<Cell>, b: Seq<Cell>, cols: int, n: int) -> Seq<(Point, Cell)>
    decreases n,
{
    if n <= 0 {
        Seq::empty()
    } else {
        let rest = diff_upto(a, b, cols, n - 1);
        if a[n - 1] != b[n - 1] {
            rest.push((point_at(n - 1, cols), b[n - 1]))
        } else {
            rest
        }
    }
}

impl Cell {
    /// The cell holding `\0` in color (`0`, `0`).
    pub fn empty() -> (c: Cell)
        ensures
            c == empty_cell(),
    {
        Cell { value: '\0', color: Color::zero() }
    }

    pub fn new(value: char, color: Color) -> (c: Cell)
        ensures
            c.value == value && c.color == color,
    {
        Cell { value, color }
    }
}

impl Default for Cell {
    fn default() -> (c: Cell)
        ensures
            c == empty_cell(),
    {
        Cell::empty()
    }
}

impl Grid {
    /// The grid's consistency: it holds one cell for every row and column.
    pub closed spec fn wf(&self) -> bool {
        self.content@.len() == self.size.rows * self.size.cols
    }

    /// A well-formed grid holds `rows * cols` cells.
    pub proof fn lemma_len(&self)
        requires
            self.wf(),
        ensures
            self.cells().len() == self.dims().rows * self.dims().cols,
    {
    }

    /// The number of rows and columns.
    pub closed spec fn dims(&self) -> Size {
        self.size
    }

    /// The cells, row by row.
    pub closed spec fn cells(&self) -> Seq<Cell> {
        self.content@
    }

    /// The cell at (`row`, `col`).
    pub open spec fn cell(&self, row: int, col: int) -> Cell {
        self.cells()[row * self.dims().cols + col]
    }

    /// Creates a grid of the given `size` with all cells set to [`Cell::empty`].
    pub fn new(size: Size) -> (g: Grid)
        requires
            size.rows * size.cols <= u32::MAX,
        ensures
            g.wf(),
            g.dims() == size,
            g.cells() == (Seq::new((size.rows * size.cols) as nat, |i: int| empty_cell())),
    {
        let n = size.rows as usize * size.cols as usize;
        let content = vec![Cell::empty(); n];
        let g = Grid { size, content };
        assert(g.cells() =~= Seq::new((size.rows * size.cols) as nat, |i: int| empty_cell()));
        g
    }

    /// Creates a grid of size (`0`, `0`).
    pub fn zero() -> (g: Grid)
        ensures
            g.wf(),
            g.dims() == (Size { rows: 0, cols: 0 }),
            g.cells() == Seq::<Cell>::empty(),
    {
        Grid { size: Size::zero(), content: Vec::new() }
    }

    /// Returns the number of rows and columns.
    pub fn size(&self) -> (s: Size)
        ensures
            s == self.dims(),
    {
        self.size
    }

    /// Returns the cells, row by row.
    pub fn content(&self) -> (v: &Vec<Cell>)
        ensures
            v@ == self.cells(),
    {
        &self.content
    }

    /// Sets the `row`:`col` cell to `cell`.
    pub fn set_cell(&mut self, row: u32, col: u32, cell: Cell)
        requires
            old(self).wf(),
            row < old(self).dims().rows,
            col < old(self).dims().cols,
        ensures
            final(self).wf(),
            final(self).dims() == old(self).dims(),
            final(self).cells() == old(self).cells().update(
                row * old(self).dims().cols + col,
                cell,
            ),
    {
        proof {
            lemma_cell_index(row as int, col as int, self.size.rows as int, self.size.cols as int);
        }
        let len = self.content.len();
        assert(row * self.size.cols + col < len);
        assert(row * self.size.cols <= row * self.size.cols + col);
        let i = row as usize * self.size.cols as usize + col as usize;
        self.content.set(i, cell);
    }

    /// Fills all cells in `row` in the range [`start_col`, `end_col`) with `cell`.
    pub fn fill_range(&mut self, row: u32, start_col: u32, end_col: u32, cell: Cell)
        requires
            old(self).wf(),
            row < old(self).dims().rows,
            start_col <= end_col <= old(self).dims().cols,
        ensures
            final(self).wf(),
            final(self).dims() == old(self).dims(),
            final(self).cells().len() == old(self).cells().len(),
            forall|i: int|
                0 <= i < old(self).cells().len() ==> #[trigger] final(self).cells()[i] == (if row
                    * old(self).dims().cols + start_col <= i < row * old(self).dims().cols
                    + end_col {
                    cell
                } else {
                    old(self).cells()[i]
                }),
    {
        proof {
            if end_col > 0 {
                lemma_cell_index(row as int, (end_col - 1) as int, self.size.rows as int, self.size.cols as int);
            }
            assert(row * self.size.cols + end_col <= (row + 1) * self.size.cols) by (nonlinear_arith)
                requires
                    end_col <= self.size.cols,
            ;
            assert((row + 1) * self.size.cols <= self.size.rows * self.size.cols) by (nonlinear_arith)
                requires
                    row < self.size.rows,
            ;
        }
        let len = self.content.len();
        assert(row * self.size.cols + end_col <= len);
        let row_index = row as usize * self.size.cols as usize;
        let start = row_index + start_col as usize;
        let end = row_index + end_col as usize;
        let mut i = start;
        while i < end
            invariant
                self.wf(),
                self.size == old(self).size,
                start <= i <= end <= self.content@.len(),
                self.content@.len() == old(self).content@.len(),
                forall|k: int|
                    0 <= k < self.content@.len() ==> #[trigger] self.content@[k] == (if start <= k
                        < i {
                        cell
                    } else {
                        old(self).content@[k]
                    }),
            decreases end - i,
        {
            self.content.set(i, cell);
            i = i + 1;
        }
    }

    /// Sets all cells to [`Cell::empty`].
    pub fn clear(&mut self)
        requires
            old(self).wf(),
        ensures
            final(self).wf(),
            final(self).dims() == old(self).dims(),
            final(self).cells() == (Seq::new(old(self).cells().len(), |i: int| empty_cell())),
    {
        let mut i: usize = 0;
        while i < self.content.len()
            invariant
                self.wf(),
                self.size == old(self).size,
                self.content@.len() == old(self).content@.len(),
                0 <= i <= self.content@.len(),
                forall|k: int| 0 <= k < i ==> #[trigger] self.content@[k] == empty_cell(),
            decreases self.content@.len() - i,
        {
            self.content.set(i, Cell::empty());
            i = i + 1;
        }
        assert(self.cells() =~= Seq::new(old(self).cells().len(), |i: int| empty_cell()));
    }

    /// Applies the differences in `other` with respect to this grid and returns them
    /// in row-major order, each with the point where it lies.
    ///
    /// Afterwards this grid holds the same cells as `other`.
    pub fn reconcile(&mut self, other: &Grid) -> (diff: Vec<(Point, Cell)>)
        requires
            old(self).wf(),
            other.wf(),
            old(self).dims() == other.dims(),
        ensures
            final(self).wf(),
            final(self).dims() == old(self).dims(),
            final(self).cells() == other.cells(),
            diff@ == diff_upto(
                old(self).cells(),
                other.cells(),
                old(self).dims().cols as int,
                old(self).cells().len() as int,
            ),
    {
        let mut diff: Vec<(Point, Cell)> = Vec::new();
        let n = self.content.len();
        let cols = self.size.cols;
        let mut i: usize = 0;
        while i < n
            invariant
                self.wf(),
                other.wf(),
                self.size == old(self).size,
                cols == self.size.cols,
                n == self.content@.len(),
                n == old(self).content@.len(),
                other.content@.len() == n,
                0 <= i <= n,
                forall|k: int| 0 <= k < i ==> #[trigger] self.content@[k] == other.content@[k],
                forall|k: int| i <= k < n ==> #[trigger] self.content@[k] == old(self).content@[k],
                diff@ == diff_upto(old(self).content@, other.content@, cols as int, i as int),
            decreases n - i,
        {
            let other_cell = other.content[i];
            if self.content[i] != other_cell {
                self.content.set(i, other_cell);
                proof {
                    if cols == 0 {
                        assert(self.size.rows * self.size.cols == 0) by (nonlinear_arith)
                            requires
                                cols == 0,
                                cols == self.size.cols,
                        ;
                    }
                    assert(i as int / cols as int <= u32::MAX) by (nonlinear_arith)
                        requires
                            cols > 0,
                            i < self.size.rows * cols,
                    ;
                }
                let row = (i / cols as usize) as u32;
                let col = (i % cols as usize) as u32;
                diff.push((Point::new(row, col), other_cell));
            }
            i = i + 1;
        }
        assert(self.cells() =~= other.cells());
        diff
    }
}

pub proof fn lemma_cell_index(row: int, col: int, rows: int, cols: int)
    requires
        0 <= row < rows,
        0 <= col < cols,
    ensures
        0 <= row * cols + col < rows * cols,
{
    assert(row * cols + col < (row + 1) * cols) by (nonlinear_arith)
        requires
            col < cols,
    ;
    assert((row + 1) * cols <= rows * cols) by (nonlinear_arith)
        requires
            row < rows,
            cols > 0,
    ;
    assert(row * cols >= 0) by (nonlinear_arith)
        requires
            row >= 0,
            cols >= 0,
    ;
}

} // verus!

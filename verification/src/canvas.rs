//! An abstraction over the terminal display that represents the visible area as a
//! grid of cells.
//!
//! A canvas is comprised of a _front_ and _back_ grid, where the front faithfully
//! represents what is visible on the display and the back contains pending updates
//! not yet visible.
//!
//! Updates to the canvas are always written to the _back_ grid first, then reconciled
//! with the _front_ grid to produce a diff, which is then turned into terminal output
//! that the caller sends.

use crate::ansi::{color_seq, cursor_seq};
use crate::color::Color;
use crate::grid::{diff_upto, point_at, Cell, Grid};
use crate::size::{Point, Size};
use crate::writer::Writer;
use core::ops::Range;
use vstd::prelude::*;

verus! {

/// An abstraction over the terminal display, defined by its _origin_ relative to the
/// top-left corner of the display and its _size_.
pub struct Canvas {
    origin: Point,
    size: Size,
    back: Grid,
    front: Grid,
    writer: Writer,
}

/// The output that draws `cell` at `p` on a canvas whose origin is `origin`, given
/// the previously drawn change `hint`, if any: the cursor is moved unless `p`
/// directly follows the hint, and the color is selected unless it is the hint's.
pub open spec fn cell_out(origin: Point, p: Point, cell: Cell, hint: Option<(Point, Cell)>) -> Seq<char> {
    let move_to = cursor_seq((origin.row + p.row) as nat, (origin.col + p.col) as nat);
    match hint {
        Some((prev_p, prev_cell)) => (if p.row != prev_p.row || p.col != prev_p.col + 1 {
            move_to
        } else {
            Seq::empty()
        }) + (if cell.color != prev_cell.color {
            color_seq(cell.color)
        } else {
            Seq::empty()
        }) + seq![cell.value],
        None => move_to + color_seq(cell.color) + seq![cell.value],
    }
}

/// The output that draws the first `n` of `changes` in order.
pub open spec fn changes_out(origin: Point, changes: Seq<(Point, Cell)>, n: int) -> Seq<char>
    decreases n,
{
    if n <= 0 {
        Seq::empty()
    } else {
        changes_out(origin, changes, n - 1) + cell_out(
            origin,
            changes[n - 1].0,
            changes[n - 1].1,
            if n >= 2 { Some(changes[n - 2]) } else { None },
        )
    }
}

/// The output that draws `changes`: nothing if there are none, otherwise the
/// changes between hiding and showing the cursor.
pub open spec fn draw_out(origin: Point, changes: Seq<(Point, Cell)>) -> Seq<char> {
    if changes.len() == 0 {
        Seq::empty()
    } else {
        "\x1b[?25l"@ + changes_out(origin, changes, changes.len() as int) + "\x1b[?25h"@
    }
}

proof fn lemma_diff_points(a: Seq<Cell>, b: Seq<Cell>, rows: int, cols: int, n: int)
    requires
        0 <= n <= rows * cols,
        cols > 0,
        rows >= 0,
        rows <= u32::MAX,
    ensures
        forall|j: int|
            0 <= j < diff_upto(a, b, cols, n).len() ==> (#[trigger] diff_upto(a, b, cols, n)[j]).0.row
                < rows && diff_upto(a, b, cols, n)[j].0.col < cols,
    decreases n,
{
    if n > 0 {
        lemma_diff_points(a, b, rows, cols, n - 1);
        let k = n - 1;
        assert(k / cols < rows && k % cols < cols && k / cols >= 0 && k % cols >= 0) by (nonlinear_arith)
            requires
                0 <= k < rows * cols,
                cols > 0,
        ;
        let p = point_at(k, cols);
        assert(p.row < rows && p.col < cols);
        let rest = diff_upto(a, b, cols, n - 1);
        let d = diff_upto(a, b, cols, n);
        assert forall|j: int| 0 <= j < d.len() implies (#[trigger] d[j]).0.row < rows && d[j].0.col < cols by {
            if j < rest.len() {
                assert(d[j] == rest[j]);
            }
        }
    }
}

impl Canvas {
    /// The canvas's consistency: both grids have the canvas's size, the writer shares
    /// its origin, and every cell's display position is addressable.
    pub closed spec fn wf(&self) -> bool {
        &&& self.back.wf()
        &&& self.front.wf()
        &&& self.back.dims() == self.size
        &&& self.front.dims() == self.size
        &&& self.writer.origin() == self.origin
        &&& self.size.rows * self.size.cols <= u32::MAX
        &&& self.origin.row + self.size.rows < u32::MAX
        &&& self.origin.col + self.size.cols < u32::MAX
    }

    /// Both grids of a consistent canvas hold a cell for each row and column.
    pub proof fn lemma_cells(&self)
        requires
            self.wf(),
        ensures
            self.back_cells().len() == self.dims().rows * self.dims().cols,
            self.front_cells().len() == self.dims().rows * self.dims().cols,
    {
        self.back.lemma_len();
        self.front.lemma_len();
    }

    pub closed spec fn org(&self) -> Point {
        self.origin
    }

    pub closed spec fn dims(&self) -> Size {
        self.size
    }

    /// The cells pending display.
    pub closed spec fn back_cells(&self) -> Seq<Cell> {
        self.back.cells()
    }

    /// The cells believed visible.
    pub closed spec fn front_cells(&self) -> Seq<Cell> {
        self.front.cells()
    }

    /// The terminal output produced but not yet sent.
    pub closed spec fn pending(&self) -> Seq<char> {
        self.writer.pending()
    }

    /// The back cells after writing `cell` at (`row`, `col`).
    pub open spec fn back_with(&self, row: int, col: int, cell: Cell) -> Seq<Cell> {
        self.back_cells().update(row * self.dims().cols + col, cell)
    }

    /// Creates a canvas at `origin` of the given `size` with all cells empty.
    pub fn new(origin: Point, size: Size) -> (c: Canvas)
        requires
            size.rows * size.cols <= u32::MAX,
            origin.row + size.rows < u32::MAX,
            origin.col + size.cols < u32::MAX,
        ensures
            c.wf(),
            c.org() == origin,
            c.dims() == size,
            c.back_cells() == c.front_cells(),
            c.pending() == Seq::<char>::empty(),
    {
        Canvas {
            origin,
            size,
            back: Grid::new(size),
            front: Grid::new(size),
            writer: Writer::new(origin),
        }
    }

    /// Creates a canvas at the origin of size (`0`, `0`).
    pub fn zero() -> (c: Canvas)
        ensures
            c.wf(),
            c.org() == Point::origin_spec(),
            c.dims() == Size::zero_spec(),
            c.back_cells() == c.front_cells(),
            c.pending() == Seq::<char>::empty(),
    {
        Canvas {
            origin: Point::origin(),
            size: Size::zero(),
            back: Grid::zero(),
            front: Grid::zero(),
            writer: Writer::new(Point::origin()),
        }
    }

    pub fn origin(&self) -> (p: Point)
        ensures
            p == self.org(),
    {
        self.origin
    }

    pub fn size(&self) -> (s: Size)
        ensures
            s == self.dims(),
    {
        self.size
    }

    /// Sets the cell at (`row`, `col`) to `cell`.
    pub fn set_cell(&mut self, row: u32, col: u32, cell: Cell)
        requires
            old(self).wf(),
            row < old(self).dims().rows,
            col < old(self).dims().cols,
        ensures
            final(self).wf(),
            final(self).org() == old(self).org(),
            final(self).dims() == old(self).dims(),
            final(self).front_cells() == old(self).front_cells(),
            final(self).pending() == old(self).pending(),
            final(self).back_cells() == old(self).back_with(row as int, col as int, cell),
    {
        self.back.set_cell(row, col, cell);
    }

    /// Sets the cell at (`row`, `col`) to the value `c` using `color`.
    pub fn set(&mut self, row: u32, col: u32, c: char, color: Color)
        requires
            old(self).wf(),
            row < old(self).dims().rows,
            col < old(self).dims().cols,
        ensures
            final(self).wf(),
            final(self).org() == old(self).org(),
            final(self).dims() == old(self).dims(),
            final(self).front_cells() == old(self).front_cells(),
            final(self).pending() == old(self).pending(),
            final(self).back_cells() == old(self).back_with(
                row as int,
                col as int,
                Cell { value: c, color },
            ),
    {
        self.set_cell(row, col, Cell::new(c, color));
    }

    /// Writes `c` using `color` at (`row`, `col`), returning `1` if the character was
    /// written or `0` if `col` lies beyond the end of the row.
    pub fn write_char(&mut self, row: u32, col: u32, c: char, color: Color) -> (n: u32)
        requires
            old(self).wf(),
            row < old(self).dims().rows,
        ensures
            final(self).wf(),
            final(self).org() == old(self).org(),
            final(self).dims() == old(self).dims(),
            final(self).front_cells() == old(self).front_cells(),
            final(self).pending() == old(self).pending(),
            col < old(self).dims().cols ==> n == 1 && final(self).back_cells() == old(self).back_with(
                row as int,
                col as int,
                Cell { value: c, color },
            ),
            col >= old(self).dims().cols ==> n == 0 && final(self).back_cells() == old(self).back_cells(),
    {
        if col < self.size.cols {
            self.back.set_cell(row, col, Cell::new(c, color));
            1
        } else {
            0
        }
    }

    /// Writes `chars` using `color` in `row` starting at column `col`, returning the
    /// number of characters written, which is fewer than `chars.len()` if the row
    /// ends first.
    pub fn write(&mut self, row: u32, col: u32, chars: &[char], color: Color) -> (n: u32)
        requires
            old(self).wf(),
            row < old(self).dims().rows,
            col <= old(self).dims().cols,
        ensures
            final(self).wf(),
            final(self).org() == old(self).org(),
            final(self).dims() == old(self).dims(),
            final(self).front_cells() == old(self).front_cells(),
            final(self).pending() == old(self).pending(),
            n == (if chars@.len() < old(self).dims().cols - col {
                chars@.len()
            } else {
                (old(self).dims().cols - col) as nat
            }),
            final(self).back_cells().len() == old(self).back_cells().len(),
            forall|i: int|
                0 <= i < old(self).back_cells().len() ==> #[trigger] final(self).back_cells()[i]
                    == ({
                    let base = row * old(self).dims().cols + col;
                    if base <= i < base + n {
                        Cell { value: chars@[i - base], color }
                    } else {
                        old(self).back_cells()[i]
                    }
                }),
    {
        let avail = (self.size.cols - col) as usize;
        let n = if chars.len() < avail {
            chars.len()
        } else {
            avail
        };
        let mut i: usize = 0;
        while i < n
            invariant
                self.wf(),
                self.origin == old(self).origin,
                self.size == old(self).size,
                self.front == old(self).front,
                self.writer == old(self).writer,
                0 <= i <= n,
                n <= avail,
                avail == self.size.cols - col,
                n <= chars@.len(),
                row < self.size.rows,
                self.back.wf(),
                old(self).wf(),
                self.back.dims() == self.size,
                self.back.cells().len() == old(self).back.cells().len(),
                forall|k: int|
                    0 <= k < old(self).back.cells().len() ==> #[trigger] self.back.cells()[k] == ({
                        let base = row * self.size.cols + col;
                        if base <= k < base + i {
                            Cell { value: chars@[k - base], color }
                        } else {
                            old(self).back.cells()[k]
                        }
                    }),
            decreases n - i,
        {
            proof {
                old(self).back.lemma_len();
                self.back.lemma_len();
                crate::grid::lemma_cell_index(row as int, (col + i) as int, self.size.rows as int, self.size.cols as int);
            }
            self.back.set_cell(row, col + i as u32, Cell::new(chars[i], color));
            assert(row * self.size.cols + (col + i) == row * self.size.cols + col + i);
            i = i + 1;
        }
        n as u32
    }

    /// Writes the characters of `chars` using `color` in `row` starting at column
    /// `col`, returning the number of characters written.
    pub fn write_str(&mut self, row: u32, col: u32, chars: &str, color: Color) -> (n: u32)
        requires
            old(self).wf(),
            row < old(self).dims().rows,
            col <= old(self).dims().cols,
        ensures
            final(self).wf(),
            final(self).org() == old(self).org(),
            final(self).dims() == old(self).dims(),
            final(self).front_cells() == old(self).front_cells(),
            final(self).pending() == old(self).pending(),
            n == (if chars@.len() < old(self).dims().cols - col {
                chars@.len()
            } else {
                (old(self).dims().cols - col) as nat
            }),
            final(self).back_cells().len() == old(self).back_cells().len(),
            forall|i: int|
                0 <= i < old(self).back_cells().len() ==> #[trigger] final(self).back_cells()[i]
                    == ({
                    let base = row * old(self).dims().cols + col;
                    if base <= i < base + n {
                        Cell { value: chars@[i - base], color }
                    } else {
                        old(self).back_cells()[i]
                    }
                }),
    {
        let cs = crate::strings::chars_of(chars);
        self.write(row, col, cs.as_slice(), color)
    }

    /// Fills the cells in `row` for the column range `cols` with `cell`.
    pub fn fill_cell(&mut self, row: u32, cols: Range<u32>, cell: Cell)
        requires
            old(self).wf(),
            row < old(self).dims().rows,
            cols.start <= cols.end <= old(self).dims().cols,
        ensures
            final(self).wf(),
            final(self).org() == old(self).org(),
            final(self).dims() == old(self).dims(),
            final(self).front_cells() == old(self).front_cells(),
            final(self).pending() == old(self).pending(),
            final(self).back_cells().len() == old(self).back_cells().len(),
            forall|i: int|
                0 <= i < old(self).back_cells().len() ==> #[trigger] final(self).back_cells()[i]
                    == (if row * old(self).dims().cols + cols.start <= i < row * old(self).dims().cols
                    + cols.end {
                    cell
                } else {
                    old(self).back_cells()[i]
                }),
    {
        self.back.fill_range(row, cols.start, cols.end, cell);
    }

    /// Fills the cells in `row` for the column range `cols` with the value `c` using
    /// `color`.
    pub fn fill(&mut self, row: u32, cols: Range<u32>, c: char, color: Color)
        requires
            old(self).wf(),
            row < old(self).dims().rows,
            cols.start <= cols.end <= old(self).dims().cols,
        ensures
            final(self).wf(),
            final(self).org() == old(self).org(),
            final(self).dims() == old(self).dims(),
            final(self).front_cells() == old(self).front_cells(),
            final(self).pending() == old(self).pending(),
            final(self).back_cells().len() == old(self).back_cells().len(),
            forall|i: int|
                0 <= i < old(self).back_cells().len() ==> #[trigger] final(self).back_cells()[i]
                    == (if row * old(self).dims().cols + cols.start <= i < row * old(self).dims().cols
                    + cols.end {
                    Cell { value: c, color }
                } else {
                    old(self).back_cells()[i]
                }),
    {
        self.fill_cell(row, cols, Cell::new(c, color));
    }

    /// Fills the cells in `row` from column `start_col` to the end of the row with
    /// `cell`.
    pub fn fill_cell_from(&mut self, row: u32, start_col: u32, cell: Cell)
        requires
            old(self).wf(),
            row < old(self).dims().rows,
            start_col <= old(self).dims().cols,
        ensures
            final(self).wf(),
            final(self).org() == old(self).org(),
            final(self).dims() == old(self).dims(),
            final(self).front_cells() == old(self).front_cells(),
            final(self).pending() == old(self).pending(),
            final(self).back_cells().len() == old(self).back_cells().len(),
            forall|i: int|
                0 <= i < old(self).back_cells().len() ==> #[trigger] final(self).back_cells()[i]
                    == (if row * old(self).dims().cols + start_col <= i < (row + 1) * old(
                    self,
                ).dims().cols {
                    cell
                } else {
                    old(self).back_cells()[i]
                }),
    {
        proof {
            assert((row + 1) * self.size.cols == row * self.size.cols + self.size.cols) by (nonlinear_arith);
        }
        self.fill_cell(row, start_col..self.size.cols, cell);
    }

    /// Fills the cells in `row` from column `start_col` to the end of the row with the
    /// value `c` using `color`.
    pub fn fill_from(&mut self, row: u32, start_col: u32, c: char, color: Color)
        requires
            old(self).wf(),
            row < old(self).dims().rows,
            start_col <= old(self).dims().cols,
        ensures
            final(self).wf(),
            final(self).org() == old(self).org(),
            final(self).dims() == old(self).dims(),
            final(self).front_cells() == old(self).front_cells(),
            final(self).pending() == old(self).pending(),
            final(self).back_cells().len() == old(self).back_cells().len(),
            forall|i: int|
                0 <= i < old(self).back_cells().len() ==> #[trigger] final(self).back_cells()[i]
                    == (if row * old(self).dims().cols + start_col <= i < (row + 1) * old(
                    self,
                ).dims().cols {
                    Cell { value: c, color }
                } else {
                    old(self).back_cells()[i]
                }),
    {
        self.fill_cell_from(row, start_col, Cell::new(c, color));
    }

    /// Fills all cells in `row` with the value `c` using `color`.
    pub fn fill_row(&mut self, row: u32, c: char, color: Color)
        requires
            old(self).wf(),
            row < old(self).dims().rows,
        ensures
            final(self).wf(),
            final(self).org() == old(self).org(),
            final(self).dims() == old(self).dims(),
            final(self).front_cells() == old(self).front_cells(),
            final(self).pending() == old(self).pending(),
            final(self).back_cells().len() == old(self).back_cells().len(),
            forall|i: int|
                0 <= i < old(self).back_cells().len() ==> #[trigger] final(self).back_cells()[i]
                    == (if row * old(self).dims().cols <= i < (row + 1) * old(self).dims().cols {
                    Cell { value: c, color }
                } else {
                    old(self).back_cells()[i]
                }),
    {
        proof {
            assert((row + 1) * self.size.cols == row * self.size.cols + self.size.cols) by (nonlinear_arith);
        }
        self.fill(row, 0..self.size.cols, c, color);
    }

    /// Moves the cursor to `cursor` on the canvas.
    pub fn set_cursor(&mut self, cursor: Point)
        requires
            old(self).wf(),
            cursor.row < old(self).dims().rows,
            cursor.col < old(self).dims().cols,
        ensures
            final(self).wf(),
            final(self).org() == old(self).org(),
            final(self).dims() == old(self).dims(),
            final(self).front_cells() == old(self).front_cells(),
            final(self).back_cells() == old(self).back_cells(),
            final(self).pending() == old(self).pending() + cursor_seq(
                (old(self).org().row + cursor.row) as nat,
                (old(self).org().col + cursor.col) as nat,
            ),
    {
        self.writer.set_cursor(cursor);
    }

    /// Produces the output for all pending modifications: the cells of the back grid
    /// that differ from the front grid, in row-major order. Afterwards the front grid
    /// equals the back grid.
    pub fn draw(&mut self)
        requires
            old(self).wf(),
        ensures
            final(self).wf(),
            final(self).org() == old(self).org(),
            final(self).dims() == old(self).dims(),
            final(self).back_cells() == old(self).back_cells(),
            final(self).front_cells() == old(self).back_cells(),
            final(self).pending() == old(self).pending() + draw_out(
                old(self).org(),
                diff_upto(
                    old(self).front_cells(),
                    old(self).back_cells(),
                    old(self).dims().cols as int,
                    old(self).front_cells().len() as int,
                ),
            ),
    {
        let changes = self.front.reconcile(&self.back);
        if changes.len() > 0 {
            proof {
                if self.size.cols == 0 {
                    assert(self.size.rows * self.size.cols == 0) by (nonlinear_arith)
                        requires
                            self.size.cols == 0,
                    ;
                }
                old(self).front.lemma_len();
                lemma_diff_points(
                    old(self).front_cells(),
                    old(self).back_cells(),
                    self.size.rows as int,
                    self.size.cols as int,
                    old(self).front_cells().len() as int,
                );
            }
            let ghost start = self.writer.pending();
            self.writer.hide_cursor();
            let mut i: usize = 0;
            while i < changes.len()
                invariant
                    self.wf(),
                    self.origin == old(self).origin,
                    self.size == old(self).size,
                    self.back == old(self).back,
                    self.front.cells() == old(self).back_cells(),
                    0 <= i <= changes@.len(),
                    forall|j: int|
                        0 <= j < changes@.len() ==> (#[trigger] changes@[j]).0.row < self.size.rows
                            && changes@[j].0.col < self.size.cols,
                    self.writer.pending() == start + "\x1b[?25l"@ + changes_out(
                        self.origin,
                        changes@,
                        i as int,
                    ),
                decreases changes@.len() - i,
            {
                let (p, cell) = changes[i];
                let hint = if i > 0 {
                    Some(changes[i - 1])
                } else {
                    None
                };
                let ghost before = self.writer.pending();
                self.draw_cell(p, cell, hint);
                i = i + 1;
                assert(self.writer.pending() =~= start + "\x1b[?25l"@ + changes_out(
                    self.origin,
                    changes@,
                    i as int,
                ));
            }
            self.writer.show_cursor();
            assert(self.writer.pending() =~= start + draw_out(self.origin, changes@));
        } else {
            assert(self.writer.pending() =~= old(self).pending() + draw_out(self.origin, changes@));
        }
    }

    /// Clears the front grid such that a subsequent [`draw`](Self::draw) renders the
    /// entire canvas.
    pub fn clear(&mut self)
        requires
            old(self).wf(),
        ensures
            final(self).wf(),
            final(self).org() == old(self).org(),
            final(self).dims() == old(self).dims(),
            final(self).back_cells() == old(self).back_cells(),
            final(self).pending() == old(self).pending(),
            final(self).front_cells() == (Seq::new(
                old(self).front_cells().len(),
                |i: int| crate::grid::empty_cell(),
            )),
    {
        self.front.clear();
    }

    /// Hands over the terminal output produced so far, which the caller sends to the
    /// terminal, and clears it.
    pub fn send(&mut self) -> (out: String)
        requires
            old(self).wf(),
        ensures
            final(self).wf(),
            out@ == old(self).pending(),
            final(self).pending() == Seq::<char>::empty(),
            final(self).org() == old(self).org(),
            final(self).dims() == old(self).dims(),
            final(self).back_cells() == old(self).back_cells(),
            final(self).front_cells() == old(self).front_cells(),
    {
        self.writer.send()
    }

    /// Draws `cell` at point `p`, where `hint` is the last cell drawn, if any.
    fn draw_cell(&mut self, p: Point, cell: Cell, hint: Option<(Point, Cell)>)
        requires
            old(self).wf(),
            p.row < old(self).size.rows,
            p.col < old(self).size.cols,
        ensures
            final(self).wf(),
            final(self).origin == old(self).origin,
            final(self).size == old(self).size,
            final(self).back == old(self).back,
            final(self).front == old(self).front,
            final(self).writer.pending() == old(self).writer.pending() + cell_out(
                old(self).origin,
                p,
                cell,
                hint,
            ),
    {
        match hint {
            Some((prev_p, prev_cell)) => {
                if p.row != prev_p.row || !p.follows(prev_p) {
                    self.writer.set_cursor(p);
                }
                if cell.color != prev_cell.color {
                    self.writer.set_color(cell.color);
                }
            },
            None => {
                self.writer.set_cursor(p);
                self.writer.set_color(cell.color);
            },
        }
        self.writer.write(cell.value);
        assert(self.writer.pending() =~= old(self).writer.pending() + cell_out(
            old(self).origin,
            p,
            cell,
            hint,
        ));
    }
}

} // verus!

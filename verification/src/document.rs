//! A buffer shown on a wrapping display the size of a window's text area, with
//! the cursor moves that follow the display's rows.

use crate::buffer::{Buffer, MAX_CAPACITY};
use crate::error::Result;
use crate::grid::Cell;
use crate::render::{render, rendered_row, Style};
use crate::text::count_nl;
use crate::size::Point;
use crate::window::Window;
use crate::wrap::{adjusted_len, down, row_start_of, snapped, up, WrappingRenderer};
use vstd::prelude::*;

verus! {

/// Where [`Document::align_cursor`] puts the cursor's row on the display.
#[derive(Copy, Clone, PartialEq, Eq, Structural, Debug)]
pub enum Focus {
    /// In the middle of the display.
    Auto,
    /// At the given row, or at the bottom row where the display has fewer rows.
    Row(u32),
}

/// The display row that `focus` asks for on a display of `rows` rows.
pub open spec fn focus_row(focus: Focus, rows: int) -> int {
    match focus {
        Focus::Auto => rows / 2,
        Focus::Row(r) => if r < rows - 1 { r as int } else { rows - 1 },
    }
}

/// A buffer and the display that shows it.
pub struct Document {
    buffer: Buffer,
    display: WrappingRenderer,
}

impl Document {
    /// The text of the document.
    pub closed spec fn text(&self) -> Seq<char> {
        self.buffer@
    }

    /// The display that shows the text.
    pub closed spec fn display(&self) -> WrappingRenderer {
        self.display
    }

    /// The buffer is well formed and the display is consistent with its text,
    /// keeping no column for moves up and down.
    pub closed spec fn wf(&self) -> bool {
        &&& self.buffer.wf()
        &&& self.display.wf(self.buffer@)
        &&& self.display.snap_col() is None
    }

    /// The cursor position in the text.
    pub open spec fn pos(&self) -> int {
        self.display().pos()
    }

    /// The start of the row that holds the cursor.
    pub open spec fn row_pos(&self) -> int {
        self.display().cur_pos()
    }

    /// The start of the display's top row.
    pub open spec fn top(&self) -> int {
        self.display().top_pos()
    }

    /// The cursor on the display.
    pub open spec fn cursor(&self) -> Point {
        self.display().cursor()
    }

    /// The number of rows of the display.
    pub open spec fn rows(&self) -> int {
        self.display().rows()
    }

    /// The number of columns of the display.
    pub open spec fn cols(&self) -> int {
        self.display().cols()
    }

    /// The cursor is at `p`, on display row `k` or as near it as the text above
    /// allows.
    pub open spec fn placed(&self, p: int, k: int) -> bool {
        let s = self.text();
        let c = self.cols();
        let cur = row_start_of(s, c, p);
        &&& self.pos() == p
        &&& self.row_pos() == cur
        &&& self.top() == up(s, c, cur, k as nat).0
        &&& self.cursor().row == up(s, c, cur, k as nat).1
        &&& self.cursor().col == p - cur
    }

    /// `d` keeps the text and the size of this document's display.
    pub open spec fn keeps_frame(&self, d: Document) -> bool {
        &&& d.text() == self.text()
        &&& d.rows() == self.rows()
        &&& d.cols() == self.cols()
    }

    /// Creates a document of `buffer` shown on the text area of `window`, all but
    /// its banner row, with the cursor at the buffer's insertion point on a row as
    /// near the middle as the text above allows.
    pub fn new(buffer: Buffer, window: Window) -> (d: Document)
        requires
            buffer.wf(),
            window.size.rows > 1,
            window.size.cols > 0,
        ensures
            d.wf(),
            d.text() == buffer@,
            d.rows() == window.size.rows - 1,
            d.cols() == window.size.cols,
            d.placed(buffer.pos() as int, (window.size.rows - 1) / 2),
    {
        proof {
            buffer.lemma_wf();
        }
        let display = WrappingRenderer::new(&buffer, buffer.get_pos(), window.size.rows - 1, window.size.cols);
        Document { buffer, display }
    }

    /// Returns the buffer.
    pub fn buffer(&self) -> (b: &Buffer)
        requires
            self.wf(),
        ensures
            b.wf(),
            b@ == self.text(),
    {
        &self.buffer
    }

    /// Returns the cursor position in the text.
    pub fn get_pos(&self) -> (p: usize)
        ensures
            p == self.pos(),
    {
        self.display.get_pos()
    }

    /// Returns the cursor on the display.
    pub fn get_cursor(&self) -> (c: Point)
        ensures
            c == self.cursor(),
    {
        self.display.cursor_point()
    }

    /// Returns the start of the display's top row.
    pub fn top_row(&self) -> (t: usize)
        ensures
            t == self.top(),
    {
        self.display.top_row()
    }

    /// Renders the rows of the display into cells styled by `st`, the cursor's line
    /// numbered in the line color where the margin shows.
    pub fn render(&self, st: &Style) -> (g: Vec<Vec<Cell>>)
        requires
            self.wf(),
        ensures
            g@.len() == self.rows(),
            forall|i: int|
                0 <= i < g@.len() ==> (#[trigger] g@[i])@ == rendered_row(
                    self.text(),
                    self.cols(),
                    self.top(),
                    *st,
                    self.cursor().row as int,
                    (count_nl(self.text().take(self.pos())) + 1) as int,
                    (0, 0),
                    Seq::<Option<u8>>::empty(),
                    i,
                ),
    {
        proof {
            self.buffer.lemma_wf();
            self.display.lemma_wf(self.buffer@);
            crate::text::lemma_count_nl_le_len(self.buffer@.take(self.display.pos()));
        }
        let cline = self.buffer.line_of(self.display.get_pos()) + 1;
        let fg: Vec<Option<u8>> = Vec::new();
        render(&self.buffer, &self.display, st, cline, (0, 0), &fg)
    }

    /// Inserts `c` at the cursor, which moves past it; the display is fitted to
    /// the new text as [`WrappingRenderer::fits`] says.
    pub fn insert_char(&mut self, c: char) -> (r: Result<()>)
        requires
            old(self).wf(),
            old(self).text().len() < MAX_CAPACITY,
        ensures
            r is Ok,
            final(self).wf(),
            final(self).text() == old(self).text().take(old(self).pos()) + seq![c] + old(self).text().skip(
                old(self).pos(),
            ),
            old(self).display().fits(final(self).text(), old(self).pos() + 1, final(self).display()),
    {
        let cs = vec![c];
        self.insert(&cs)
    }

    /// Inserts `cs` at the cursor, which moves past them; the display is fitted to
    /// the new text as [`WrappingRenderer::fits`] says.
    pub fn insert(&mut self, cs: &Vec<char>) -> (r: Result<()>)
        requires
            old(self).wf(),
            old(self).text().len() + cs@.len() <= MAX_CAPACITY,
        ensures
            r is Ok,
            final(self).wf(),
            final(self).text() == old(self).text().take(old(self).pos()) + cs@ + old(self).text().skip(
                old(self).pos(),
            ),
            old(self).display().fits(final(self).text(), old(self).pos() + cs@.len(), final(self).display()),
    {
        proof {
            self.display.lemma_wf(self.buffer@);
        }
        self.buffer.set_pos(self.display.get_pos());
        let p = self.buffer.insert(cs.as_slice());
        self.display.refit(&self.buffer, p);
        Ok(())
    }

    /// Moves the display so that the cursor's row is where `focus` asks, or as
    /// near it as the text above allows.
    pub fn align_cursor(&mut self, focus: Focus)
        requires
            old(self).wf(),
        ensures
            final(self).wf(),
            old(self).keeps_frame(*final(self)),
            final(self).placed(old(self).pos(), focus_row(focus, old(self).rows())),
    {
        proof {
            self.display.lemma_wf(self.buffer@);
        }
        let rows = self.display.rows_of();
        let row = match focus {
            Focus::Auto => rows / 2,
            Focus::Row(r) => if r < rows - 1 { r } else { rows - 1 },
        };
        self.display = WrappingRenderer::with_cursor_row(
            &self.buffer,
            self.display.get_pos(),
            rows,
            self.display.cols_of(),
            row,
        );
    }

    /// Moves the cursor up one row, to its column as near as that row allows; the
    /// display scrolls down where the cursor was on its top row. At the top of the
    /// text nothing changes.
    pub fn move_up(&mut self)
        requires
            old(self).wf(),
        ensures
            final(self).wf(),
            old(self).keeps_frame(*final(self)),
            ({
                let s = old(self).text();
                let c = old(self).cols();
                let x = up(s, c, old(self).row_pos(), 1);
                let crow = old(self).cursor().row;
                let col = snapped(s, c, x.0, old(self).cursor().col as int);
                &&& x.1 == 0 ==> final(self).display() == old(self).display()
                &&& x.1 > 0 ==> {
                    &&& final(self).row_pos() == x.0
                    &&& final(self).pos() == x.0 + col
                    &&& final(self).cursor().col == col
                    &&& crow > 0 ==> final(self).cursor().row == crow - 1 && final(self).top() == old(self).top()
                    &&& crow == 0 ==> final(self).cursor().row == 0 && final(self).top() == x.0
                }
            }),
    {
        proof {
            reveal_with_fuel(up, 2);
        }
        if self.display.move_up(&self.buffer, 1, false) > 0 {
            self.display.forget_col();
        }
    }

    /// Moves the cursor down one row, to its column as near as that row allows; the
    /// display scrolls up where the cursor was on its bottom row. On the last row
    /// of the text nothing changes.
    pub fn move_down(&mut self)
        requires
            old(self).wf(),
        ensures
            final(self).wf(),
            old(self).keeps_frame(*final(self)),
            ({
                let s = old(self).text();
                let c = old(self).cols();
                let x = down(s, c, old(self).row_pos(), 1);
                let crow = old(self).cursor().row;
                let col = snapped(s, c, x.0, old(self).cursor().col as int);
                let y = up(s, c, x.0, (old(self).rows() - 1) as nat);
                &&& x.1 == 0 ==> final(self).display() == old(self).display()
                &&& x.1 > 0 ==> {
                    &&& final(self).row_pos() == x.0
                    &&& final(self).pos() == x.0 + col
                    &&& final(self).cursor().col == col
                    &&& crow + 1 < old(self).rows() ==> final(self).cursor().row == crow + 1 && final(self).top()
                        == old(self).top()
                    &&& crow + 1 >= old(self).rows() ==> final(self).cursor().row == y.1 && final(self).top() == y.0
                }
            }),
    {
        proof {
            reveal_with_fuel(down, 2);
        }
        if self.display.move_down(&self.buffer, 1, false) > 0 {
            self.display.forget_col();
        }
    }

    /// Moves the cursor left one character, as [`WrappingRenderer::moves_left`] says.
    pub fn move_left(&mut self)
        requires
            old(self).wf(),
        ensures
            final(self).wf(),
            final(self).text() == old(self).text(),
            old(self).display().moves_left(old(self).text(), final(self).display()),
    {
        self.display.move_left(&self.buffer);
    }

    /// Moves the cursor right one character, as [`WrappingRenderer::moves_right`]
    /// says.
    pub fn move_right(&mut self)
        requires
            old(self).wf(),
        ensures
            final(self).wf(),
            final(self).text() == old(self).text(),
            old(self).display().moves_right(old(self).text(), final(self).display()),
    {
        self.display.move_right(&self.buffer);
    }

    /// Moves the cursor up as many rows as the display has, or to the top row of
    /// the text, to its column as near as that row allows, keeping its display row
    /// where the text above allows. Where it cannot move, nothing changes.
    pub fn move_page_up(&mut self)
        requires
            old(self).wf(),
        ensures
            final(self).wf(),
            old(self).keeps_frame(*final(self)),
            ({
                let s = old(self).text();
                let c = old(self).cols();
                let rows = old(self).rows();
                let x = up(s, c, old(self).row_pos(), rows as nat);
                let crow = old(self).cursor().row;
                let col = snapped(s, c, x.0, old(self).cursor().col as int);
                let y = up(s, c, x.0, crow as nat);
                &&& x.1 == 0 ==> final(self).display() == old(self).display()
                &&& x.1 > 0 ==> {
                    &&& final(self).row_pos() == x.0
                    &&& final(self).pos() == x.0 + col
                    &&& final(self).cursor().col == col
                    &&& x.1 < rows ==> final(self).top() == x.0 && final(self).cursor().row == 0
                    &&& x.1 >= rows ==> final(self).top() == y.0 && final(self).cursor().row == y.1
                }
            }),
    {
        let rows = self.display.rows_of();
        if self.display.move_up(&self.buffer, rows, true) > 0 {
            self.display.forget_col();
        }
    }

    /// Moves the cursor down as many rows as the display has, or to the last row of
    /// the text, to its column as near as that row allows; the display moves down
    /// as many rows and the cursor keeps its display row. Where it cannot move,
    /// nothing changes.
    pub fn move_page_down(&mut self)
        requires
            old(self).wf(),
        ensures
            final(self).wf(),
            old(self).keeps_frame(*final(self)),
            ({
                let s = old(self).text();
                let c = old(self).cols();
                let x = down(s, c, old(self).row_pos(), old(self).rows() as nat);
                let col = snapped(s, c, x.0, old(self).cursor().col as int);
                &&& x.1 == 0 ==> final(self).display() == old(self).display()
                &&& x.1 > 0 ==> {
                    &&& final(self).row_pos() == x.0
                    &&& final(self).pos() == x.0 + col
                    &&& final(self).cursor() == (Point { row: old(self).cursor().row, col: col as u32 })
                    &&& final(self).top() == down(s, c, old(self).top(), x.1).0
                }
            }),
    {
        let rows = self.display.rows_of();
        if self.display.move_down(&self.buffer, rows, true) > 0 {
            self.display.forget_col();
        }
    }

    /// Moves the cursor to the start of its row.
    pub fn move_beg(&mut self)
        requires
            old(self).wf(),
        ensures
            final(self).wf(),
            old(self).keeps_frame(*final(self)),
            final(self).pos() == old(self).row_pos(),
            final(self).row_pos() == old(self).row_pos(),
    {
        self.display.move_start(&self.buffer);
    }

    /// Moves the cursor to the last column of its row.
    pub fn move_end(&mut self)
        requires
            old(self).wf(),
        ensures
            final(self).wf(),
            old(self).keeps_frame(*final(self)),
            final(self).pos() == old(self).row_pos() + adjusted_len(old(self).text(), old(self).cols(), old(self).row_pos()),
    {
        self.display.move_end(&self.buffer);
    }

    /// Moves the cursor to the top of the text, on the top row of the display.
    pub fn move_top(&mut self)
        requires
            old(self).wf(),
        ensures
            final(self).wf(),
            old(self).keeps_frame(*final(self)),
            final(self).pos() == 0,
            final(self).row_pos() == 0,
            final(self).top() == 0,
            final(self).cursor() == (Point { row: 0, col: 0 }),
    {
        proof {
            self.display.lemma_wf(self.buffer@);
            crate::text::lemma_line_start_bounds(self.buffer@, 0);
            assert(0int % self.cols() == 0) by (nonlinear_arith)
                requires
                    self.cols() > 0,
            ;
        }
        self.display = WrappingRenderer::with_cursor_row(
            &self.buffer,
            0,
            self.display.rows_of(),
            self.display.cols_of(),
            0,
        );
    }

    /// Moves the cursor to the end of the text, on the bottom row of the display
    /// or as near it as the text above allows.
    pub fn move_bottom(&mut self)
        requires
            old(self).wf(),
        ensures
            final(self).wf(),
            old(self).keeps_frame(*final(self)),
            final(self).placed(old(self).text().len() as int, old(self).rows() - 1),
    {
        proof {
            self.display.lemma_wf(self.buffer@);
        }
        let rows = self.display.rows_of();
        self.display = WrappingRenderer::with_cursor_row(
            &self.buffer,
            self.buffer.size(),
            rows,
            self.display.cols_of(),
            rows - 1,
        );
    }

    /// Scrolls the contents up one row, as [`WrappingRenderer::scrolls_up`] says.
    pub fn scroll_up(&mut self)
        requires
            old(self).wf(),
        ensures
            final(self).wf(),
            final(self).text() == old(self).text(),
            old(self).display().scrolls_up(old(self).text(), final(self).display()),
    {
        self.display.scroll_up(&self.buffer);
    }

    /// Scrolls the contents down one row, as [`WrappingRenderer::scrolls_down`]
    /// says.
    pub fn scroll_down(&mut self)
        requires
            old(self).wf(),
        ensures
            final(self).wf(),
            final(self).text() == old(self).text(),
            old(self).display().scrolls_down(old(self).text(), final(self).display()),
    {
        self.display.scroll_down(&self.buffer);
    }
}

} // verus!

//! Windows: a canvas for the text of an editor, and a banner below it.
//!
//! The banner shows, on its left, the source of the editor, its syntax and its
//! modes, and on its right the code point of the character under the cursor and
//! the cursor's location, as far as the columns allow.

use crate::canvas::{draw_out, Canvas};
use crate::color::Color;
use crate::grid::{diff_upto, Cell};
use crate::source::{source_text, Source};
use crate::strings::{chars_of, decimal_chars, hex_chars};
use crate::sys::{file_name, file_name_spec};
use crate::size::{Point, Size};
use crate::strings::{decimal, hexadecimal, zero_padded};
use vstd::prelude::*;

verus! {

/// Minimum number of columns required to show the left area of the banner.
pub const MIN_COLS_FOR_LEFT: u32 = 16;

/// Minimum number of columns required to show the left and right areas.
pub const MIN_COLS_FOR_RIGHT: u32 = 40;

/// Number of columns between distinct areas of the banner.
pub const GAP_COLS: u32 = 1;

/// Number of columns that adorn the syntax: `(` and `)`.
pub const SYNTAX_COLS: u32 = 2;

/// Number of columns of the modes: `-??-`.
pub const MODE_COLS: u32 = 4;

/// Number of columns of the code point under the cursor: `-????-`.
pub const CHAR_COLS: u32 = 6;

/// Number of columns of line numbers.
pub const LINE_COLS: u32 = 7;

/// Number of columns of column numbers.
pub const COL_COLS: u32 = 7;

/// The first line and column numbers too large to be shown.
pub const LOCATION_LIMIT: u32 = 10_000_000;

/// Number of columns of the location: line, `:` and column.
pub const LOCATION_COLS: u32 = 15;

/// The columns of the left and right areas of a banner of `cols` columns, each a
/// range of columns where it is shown.
pub open spec fn areas_of(cols: u32) -> (Option<(u32, u32)>, Option<(u32, u32)>) {
    if cols < MIN_COLS_FOR_LEFT {
        (None, None)
    } else if cols < MIN_COLS_FOR_RIGHT {
        (Some((GAP_COLS, (cols - GAP_COLS) as u32)), None)
    } else {
        let right_start = (cols - GAP_COLS - LOCATION_COLS - GAP_COLS - CHAR_COLS) as u32;
        (Some((GAP_COLS, (right_start - GAP_COLS) as u32)), Some((right_start, (cols - GAP_COLS) as u32)))
    }
}

/// Returns the columns of the left and right areas of a banner of `cols` columns.
pub fn calc_areas(cols: u32) -> (r: (Option<(u32, u32)>, Option<(u32, u32)>))
    ensures
        r == areas_of(cols),
{
    if cols < MIN_COLS_FOR_LEFT {
        (None, None)
    } else if cols < MIN_COLS_FOR_RIGHT {
        (Some((GAP_COLS, cols - GAP_COLS)), None)
    } else {
        let right_start = cols - GAP_COLS - LOCATION_COLS - GAP_COLS - CHAR_COLS;
        (Some((GAP_COLS, right_start - GAP_COLS)), Some((right_start, cols - GAP_COLS)))
    }
}

/// The columns that a source and a syntax need in the left area.
pub open spec fn needed(source: Seq<char>, syntax: Seq<char>) -> int {
    source.len() + GAP_COLS + syntax.len() + SYNTAX_COLS
}

/// The source and syntax that the left area shows in `avail` columns: both as
/// they are where they fit; else the short form of the source (its file name)
/// with the syntax where they fit; else the short form alone, its front replaced
/// by `...` where it is still too long.
pub open spec fn left_layout(source: Seq<char>, short: Seq<char>, syntax: Seq<char>, avail: int) -> (
    Seq<char>,
    Seq<char>,
) {
    if needed(source, syntax) <= avail {
        (source, syntax)
    } else if needed(short, syntax) <= avail {
        (short, syntax)
    } else if short.len() > avail {
        ("..."@ + short.skip(short.len() - avail + 3), Seq::empty())
    } else {
        (short, Seq::empty())
    }
}

/// Returns the source and syntax that the left area shows in `avail` columns,
/// given the source, its short form and the syntax.
pub fn left_parts(source: &Vec<char>, short: &Vec<char>, syntax: &Vec<char>, avail: u32) -> (r: (
    Vec<char>,
    Vec<char>,
))
    requires
        avail >= 3,
    ensures
        r.0@ == left_layout(source@, short@, syntax@, avail as int).0,
        r.1@ == left_layout(source@, short@, syntax@, avail as int).1,
{
    if fits(source, syntax, avail) {
        (copy_chars(source), copy_chars(syntax))
    } else if fits(short, syntax, avail) {
        (copy_chars(short), copy_chars(syntax))
    } else if short.len() > avail as usize {
        let skip = short.len() - avail as usize + 3;
        let mut out: Vec<char> = Vec::new();
        out.push('.');
        out.push('.');
        out.push('.');
        proof {
            reveal_strlit("...");
            assert(out@ =~= "..."@ + short@.subrange(skip as int, skip as int));
        }
        let mut k = skip;
        while k < short.len()
            invariant
                skip <= k <= short@.len(),
                out@ == "..."@ + short@.subrange(skip as int, k as int),
            decreases short@.len() - k,
        {
            out.push(short[k]);
            k = k + 1;
            assert(out@ =~= "..."@ + short@.subrange(skip as int, k as int));
        }
        proof {
            assert(short@.subrange(skip as int, short@.len() as int) =~= short@.skip(skip as int));
        }
        (out, Vec::new())
    } else {
        (copy_chars(short), Vec::new())
    }
}

/// Returns `true` if `s` and `syntax` fit in `avail` columns.
fn fits(s: &Vec<char>, syntax: &Vec<char>, avail: u32) -> (b: bool)
    ensures
        b == (needed(s@, syntax@) <= avail),
{
    (s.len() as u64) <= (avail as u64) && (syntax.len() as u64) <= (avail as u64) && (s.len() as u64)
        + (syntax.len() as u64) + 3 <= (avail as u64)
}

/// Returns a copy of `v`.
fn copy_chars(v: &Vec<char>) -> (r: Vec<char>)
    ensures
        r@ == v@,
{
    let r = v.clone();
    assert(r@ =~= v@);
    r
}

/// How a line or column number `n`, counted from `0`, is shown: counted from `1`,
/// or as dashes where it is too large.
pub open spec fn location_text(n: u32, dashes: u32) -> Seq<char> {
    if n + 1 < LOCATION_LIMIT {
        decimal((n + 1) as nat)
    } else {
        Seq::new(dashes as nat, |i: int| '-')
    }
}

/// How the code point of `c` is shown: at least four lowercase hexadecimal
/// digits.
pub open spec fn code_text(c: char) -> Seq<char> {
    zero_padded(hexadecimal((c as u32) as nat), 4)
}

/// A window: the area of a canvas above the row of its banner.
#[derive(Copy, Clone, PartialEq, Eq, Structural, Debug)]
pub struct Window {
    /// The top-left point of the window on the terminal.
    pub origin: Point,
    /// The size of the window, its banner included.
    pub size: Size,
}

/// The point on the canvas of a window at `origin` of `size` that corresponds to
/// the point `p` of the terminal, if the canvas holds it.
pub open spec fn canvas_point(origin: Point, size: Size, p: Point) -> Option<Point> {
    if size.rows > 0 && origin.row <= p.row < origin.row + size.rows - 1 && origin.col <= p.col < origin.col
        + size.cols {
        Some(Point { row: (p.row - origin.row) as u32, col: (p.col - origin.col) as u32 })
    } else {
        None
    }
}

impl Window {
    /// Creates a window at `origin` of `size`, its banner included.
    pub fn new(origin: Point, size: Size) -> (w: Window)
        ensures
            w.origin == origin,
            w.size == size,
    {
        Window { origin, size }
    }

    /// Creates a window of no size, which shows nothing.
    pub fn zombie() -> (w: Window)
        ensures
            w.origin == (Point { row: 0, col: 0 }),
            w.size == (Size { rows: 0, cols: 0 }),
    {
        Window { origin: Point { row: 0, col: 0 }, size: Size { rows: 0, cols: 0 } }
    }

    /// Returns `true` if the window has no size.
    pub fn is_zombie(&self) -> (b: bool)
        ensures
            b == (self.size == Size { rows: 0, cols: 0 }),
    {
        self.size.rows == 0 && self.size.cols == 0
    }

    /// Returns the point on the window's canvas that corresponds to the point `p`
    /// of the terminal, or `None` where the canvas does not hold it.
    pub fn point_on_canvas(&self, p: Point) -> (r: Option<Point>)
        ensures
            r == canvas_point(self.origin, self.size, p),
    {
        if self.size.rows > 0 && p.row >= self.origin.row && p.row - self.origin.row < self.size.rows - 1
            && p.col >= self.origin.col && p.col - self.origin.col < self.size.cols {
            Some(Point { row: p.row - self.origin.row, col: p.col - self.origin.col })
        } else {
            None
        }
    }
}

/// The cell at column `i` of `row` once `text` is written in `color` from column
/// `at`.
pub open spec fn put_cell(row: Seq<Cell>, at: int, text: Seq<char>, color: Color, i: int) -> Cell {
    if at <= i < at + text.len() {
        Cell { value: text[i - at], color }
    } else {
        row[i]
    }
}

/// `row` with `text` written in `color` from column `at`, as far as the row goes.
pub open spec fn put(row: Seq<Cell>, at: int, text: Seq<char>, color: Color) -> Seq<Cell> {
    Seq::new(row.len(), |i: int| put_cell(row, at, text, color, i))
}

/// The cell at column `i` of `row` once columns `from` up to `to` are blanked in
/// `color`.
pub open spec fn blank_cell(row: Seq<Cell>, from: int, to: int, color: Color, i: int) -> Cell {
    if from <= i < to {
        Cell { value: ' ', color }
    } else {
        row[i]
    }
}

/// `row` with spaces in `color` from column `from` up to column `to`.
pub open spec fn blank(row: Seq<Cell>, from: int, to: int, color: Color) -> Seq<Cell> {
    Seq::new(row.len(), |i: int| blank_cell(row, from, to, color, i))
}

/// Ten to the power `k`.
pub open spec fn pow10(k: nat) -> nat
    decreases k,
{
    if k == 0 {
        1
    } else {
        10 * pow10((k - 1) as nat)
    }
}

/// A number below ten to the power `k` has at most `k` decimal digits.
proof fn lemma_decimal_len(n: nat, k: nat)
    requires
        k >= 1,
        n < pow10(k),
    ensures
        decimal(n).len() <= k,
    decreases k,
{
    if n >= 10 {
        let p = pow10((k - 1) as nat);
        assert(n / 10 < p) by (nonlinear_arith)
            requires
                n < 10 * p,
        ;
        if k == 1 {
            assert(false);
        } else {
            lemma_decimal_len(n / 10, (k - 1) as nat);
        }
    }
}

/// A number below sixteen to the power of `k` has at most `k` hexadecimal digits.
proof fn lemma_hex_len(n: nat, k: nat, p: nat)
    requires
        k >= 1,
        n < p,
        p == pow16(k),
    ensures
        hexadecimal(n).len() <= k,
    decreases k,
{
    if n >= 16 {
        let q = pow16((k - 1) as nat);
        assert(n / 16 < q) by (nonlinear_arith)
            requires
                n < 16 * q,
        ;
        if k == 1 {
            assert(false);
        } else {
            lemma_hex_len(n / 16, (k - 1) as nat, q);
        }
    }
}

/// Sixteen to the power `k`.
pub open spec fn pow16(k: nat) -> nat
    decreases k,
{
    if k == 0 {
        1
    } else {
        16 * pow16((k - 1) as nat)
    }
}

/// The code point of any character has at most six hexadecimal digits.
proof fn lemma_code_len(c: char)
    ensures
        4 <= code_text(c).len() <= 6,
{
    reveal_with_fuel(pow16, 7);
    assert(pow16(6) == 16777216);
    lemma_hex_len((c as u32) as nat, 6, pow16(6));
}

/// Line and column numbers take at most seven columns.
proof fn lemma_location_len(n: u32)
    ensures
        1 <= location_text(n, 7).len() <= 7,
{
    if n + 1 < LOCATION_LIMIT {
        reveal_with_fuel(pow10, 8);
        assert(pow10(7) == 10_000_000);
        lemma_decimal_len((n + 1) as nat, 7);
    }
}

/// The banner row after its left area `(start, end)` is drawn over `row`: the
/// source and syntax as [`left_layout`] lays them out, the line-ending and tab
/// modes, and spaces up to the end of the area.
pub open spec fn left_drawn(
    row: Seq<Cell>,
    start: int,
    end: int,
    shown: (Seq<char>, Seq<char>),
    source_color: Color,
    banner: Color,
    accent: Color,
    eol: char,
    tab: char,
) -> Seq<Cell> {
    let (src, syn) = shown;
    let r1 = put(row, start, src, source_color);
    let c1 = start + src.len();
    let r2 = if syn.len() > 0 {
        put(put(put(r1, c1, " ("@, banner), c1 + 2, syn, accent), c1 + 2 + syn.len(), ")"@, banner)
    } else {
        r1
    };
    let c2 = if syn.len() > 0 { c1 + 3 + syn.len() } else { c1 };
    let r3 = put(put(put(put(r2, c2, " -"@, banner), c2 + 2, seq![eol], accent), c2 + 3, seq![tab], accent), c2 + 4, "-"@, banner);
    blank(r3, c2 + 5, end, banner)
}

/// The banner row after its right area `(start, end)` is drawn over `row`: the
/// code point of `ch` between dashes from the start, and the location `loc`,
/// counted from `1`, ending one column before the end, spaces between; a long code
/// point runs under the location.
pub open spec fn right_drawn(row: Seq<Cell>, start: int, end: int, ch: char, loc: Point, banner: Color, accent: Color) -> Seq<Cell> {
    let code = code_text(ch);
    let line = location_text(loc.row, LINE_COLS);
    let colt = location_text(loc.col, COL_COLS);
    let r3 = put(put(put(row, start, "-"@, banner), start + 1, code, accent), start + 1 + code.len(), "-"@, banner);
    let col = start + 2 + code.len();
    let next = end - GAP_COLS - line.len() - 1 - colt.len();
    let r4 = if col < next { blank(r3, col, next, banner) } else { r3 };
    put(put(put(r4, next, line, banner), next + line.len(), ":"@, accent), next + line.len() + 1, colt, banner)
}

/// The bar below the canvas of a window.
pub struct Banner {
    canvas: Canvas,
    left_area: Option<(u32, u32)>,
    right_area: Option<(u32, u32)>,
    active_bg: u8,
    inactive_bg: u8,
    banner_color: Color,
    accent_color: Color,
    dirty_color: Color,
    dirty: bool,
    source: Vec<char>,
    short: Vec<char>,
    syntax: Vec<char>,
    eol: char,
    tab: char,
    ch: char,
    loc: Point,
}

impl Banner {
    /// The banner's consistency: a canvas of one row whose width gives the areas.
    pub closed spec fn wf(&self) -> bool {
        &&& self.canvas.wf()
        &&& self.canvas.dims().rows == 1 || (self.canvas.dims().rows == 0 && self.canvas.dims().cols == 0)
        &&& (self.left_area, self.right_area) == areas_of(self.canvas.dims().cols)
        &&& self.canvas.dims().rows == 0 ==> self.left_area is None
    }

    /// The cells of the banner's row.
    pub closed spec fn row(&self) -> Seq<Cell> {
        self.canvas.back_cells()
    }

    /// The cells shown on the terminal.
    pub closed spec fn shown_row(&self) -> Seq<Cell> {
        self.canvas.front_cells()
    }

    /// The output for the terminal produced and not yet sent.
    pub closed spec fn pending(&self) -> Seq<char> {
        self.canvas.pending()
    }

    /// The origin of the banner on the terminal and its width.
    pub closed spec fn place(&self) -> (Point, u32) {
        (self.canvas.org(), self.canvas.dims().cols)
    }

    /// The backgrounds of an active and of an inactive banner.
    pub closed spec fn backgrounds(&self) -> (u8, u8) {
        (self.active_bg, self.inactive_bg)
    }

    /// The left and right areas.
    pub closed spec fn areas(&self) -> (Option<(u32, u32)>, Option<(u32, u32)>) {
        (self.left_area, self.right_area)
    }

    /// The colors of text, of accents and of the source of a dirty editor.
    pub closed spec fn colors(&self) -> (Color, Color, Color) {
        (self.banner_color, self.accent_color, self.dirty_color)
    }

    /// The source, its short form and the syntax shown.
    pub closed spec fn texts(&self) -> (Seq<char>, Seq<char>, Seq<char>) {
        (self.source@, self.short@, self.syntax@)
    }

    /// The editor has unsaved changes.
    pub closed spec fn is_dirty(&self) -> bool {
        self.dirty
    }

    /// The line-ending and tab mode indicators.
    pub closed spec fn modes(&self) -> (char, char) {
        (self.eol, self.tab)
    }

    /// The character under the cursor and its location.
    pub closed spec fn cursor(&self) -> (char, Point) {
        (self.ch, self.loc)
    }

    /// `self` and `other` agree on all but their rows and output.
    pub open spec fn same_fields(&self, other: &Banner) -> bool {
        &&& self.areas() == other.areas()
        &&& self.colors() == other.colors()
        &&& self.texts() == other.texts()
        &&& self.is_dirty() == other.is_dirty()
        &&& self.modes() == other.modes()
        &&& self.cursor() == other.cursor()
        &&& self.row().len() == other.row().len()
        &&& self.place() == other.place()
        &&& self.backgrounds() == other.backgrounds()
    }

    /// The row after the left area is drawn over `row`.
    pub open spec fn with_left(&self, row: Seq<Cell>) -> Seq<Cell> {
        match self.areas().0 {
            Some((start, end)) => left_drawn(
                row,
                start as int,
                end as int,
                left_layout(self.texts().0, self.texts().1, self.texts().2, end - start - GAP_COLS - MODE_COLS),
                if self.is_dirty() { self.colors().2 } else { self.colors().0 },
                self.colors().0,
                self.colors().1,
                self.modes().0,
                self.modes().1,
            ),
            None => row,
        }
    }

    /// The row after the right area is drawn over `row`.
    pub open spec fn with_right(&self, row: Seq<Cell>) -> Seq<Cell> {
        match self.areas().1 {
            Some((start, end)) => right_drawn(
                row,
                start as int,
                end as int,
                self.cursor().0,
                self.cursor().1,
                self.colors().0,
                self.colors().1,
            ),
            None => row,
        }
    }

    /// The row of spaces in the banner's color.
    pub open spec fn cleared(&self) -> Seq<Cell> {
        Seq::new(self.row().len(), |i: int| Cell { value: ' ', color: self.colors().0 })
    }

    /// The full row: cleared, then both areas drawn.
    pub open spec fn full(&self) -> Seq<Cell> {
        self.with_right(self.with_left(self.cleared()))
    }

    /// Draws the left area.
    #[verifier::rlimit(40)]
    fn draw_left(&mut self)
        requires
            old(self).wf(),
        ensures
            final(self).wf(),
            final(self).row() == old(self).with_left(old(self).row()),
            final(self).shown_row() == old(self).shown_row(),
            final(self).pending() == old(self).pending(),
            final(self).same_fields(&*old(self)),
    {
        match self.left_area {
            Some((start, end)) => {
                let avail = end - start - GAP_COLS - MODE_COLS;
                let (src, syn) = left_parts(&self.source, &self.short, &self.syntax, avail);
                let ghost row0 = self.canvas.back_cells();
                proof {
                    self.canvas.lemma_cells();
                    lemma_left_fits(self.source@, self.short@, self.syntax@, avail as int);
                    assert(self.canvas.dims().rows == 1);
                    assert(row0.len() == self.canvas.dims().cols);
                    assert(end <= self.canvas.dims().cols);
                    let lay = left_layout(self.source@, self.short@, self.syntax@, avail as int);
                    assert(src@ == lay.0 && syn@ == lay.1);
                    assert(src@.len() + (if syn@.len() > 0 { syn@.len() + 3 } else { 0 }) <= avail);
                }
                let color = if self.dirty { self.dirty_color } else { self.banner_color };
                let mut col = start;
                let sl = src.as_slice();
                assert(sl@ == src@);
                let n = self.canvas.write(0, col, sl, color);
                proof {
                    lemma_written(row0, self.canvas.back_cells(), start as int, src@, color, self.canvas.dims().cols as int);
                }
                col = col + n;
                let ghost r1 = self.canvas.back_cells();
                if syn.len() > 0 {
                    let ghost c1 = col;
                    col = col + self.canvas.write_str(0, col, " (", self.banner_color);
                    proof {
                        reveal_strlit(" (");
                        lemma_written(r1, self.canvas.back_cells(), c1 as int, " ("@, self.banner_color, self.canvas.dims().cols as int);
                    }
                    let ghost ra = self.canvas.back_cells();
                    let sy = syn.as_slice();
                    assert(sy@ == syn@);
                    col = col + self.canvas.write(0, col, sy, self.accent_color);
                    proof {
                        lemma_written(ra, self.canvas.back_cells(), c1 + 2, syn@, self.accent_color, self.canvas.dims().cols as int);
                    }
                    let ghost rb = self.canvas.back_cells();
                    col = col + self.canvas.write_char(0, col, ')', self.banner_color);
                    proof {
                        reveal_strlit(")");
                        lemma_written(rb, self.canvas.back_cells(), c1 + 2 + syn@.len(), ")"@, self.banner_color, self.canvas.dims().cols as int);
                    }
                }
                let ghost r2 = self.canvas.back_cells();
                let ghost c2 = col;
                col = col + self.canvas.write_str(0, col, " -", self.banner_color);
                proof {
                    reveal_strlit(" -");
                    lemma_written(r2, self.canvas.back_cells(), c2 as int, " -"@, self.banner_color, self.canvas.dims().cols as int);
                }
                let ghost r3 = self.canvas.back_cells();
                col = col + self.canvas.write_char(0, col, self.eol, self.accent_color);
                proof {
                    lemma_written(r3, self.canvas.back_cells(), c2 + 2, seq![self.eol], self.accent_color, self.canvas.dims().cols as int);
                }
                let ghost r4 = self.canvas.back_cells();
                col = col + self.canvas.write_char(0, col, self.tab, self.accent_color);
                proof {
                    lemma_written(r4, self.canvas.back_cells(), c2 + 3, seq![self.tab], self.accent_color, self.canvas.dims().cols as int);
                }
                let ghost r5 = self.canvas.back_cells();
                col = col + self.canvas.write_char(0, col, '-', self.banner_color);
                proof {
                    reveal_strlit("-");
                    lemma_written(r5, self.canvas.back_cells(), c2 + 4, "-"@, self.banner_color, self.canvas.dims().cols as int);
                }
                let ghost r6 = self.canvas.back_cells();
                self.canvas.fill(0, col..end, ' ', self.banner_color);
                proof {
                    assert(self.canvas.back_cells() =~= blank(r6, c2 + 5, end as int, self.banner_color));
                }
            },
            None => {},
        }
    }
}

/// A write of all of `text` from `at` in a row of `cols` cells is a [`put`].
proof fn lemma_written(before: Seq<Cell>, after: Seq<Cell>, at: int, text: Seq<char>, color: Color, cols: int)
    requires
        before.len() == cols,
        after.len() == before.len(),
        0 <= at,
        at + text.len() <= cols,
        forall|i: int|
            0 <= i < before.len() ==> #[trigger] after[i] == ({
                let base = 0 * cols + at;
                if base <= i < base + (if text.len() < cols - at { text.len() } else { (cols - at) as nat }) {
                    Cell { value: text[i - base], color }
                } else {
                    before[i]
                }
            }),
    ensures
        after == put(before, at, text, color),
{
    assert(0 * cols == 0);
    assert(after =~= put(before, at, text, color));
}

/// What the left area shows fits in it, modes included.
proof fn lemma_left_fits(source: Seq<char>, short: Seq<char>, syntax: Seq<char>, avail: int)
    requires
        avail >= 3,
    ensures
        ({
            let (src, syn) = left_layout(source, short, syntax, avail);
            src.len() + (if syn.len() > 0 { syn.len() + 3 } else { 0 }) <= avail
        }),
{
    reveal_strlit("...");
}

/// Returns the characters that show the code point of `c`.
fn code_chars(c: char) -> (v: Vec<char>)
    ensures
        v@ == code_text(c),
{
    let digits = hex_chars((c as u32) as u64);
    let mut v: Vec<char> = Vec::new();
    let mut k = digits.len();
    while k < 4
        invariant
            digits@ == hexadecimal((c as u32) as nat),
            digits@.len() <= k <= (if digits@.len() < 4 { 4 } else { digits@.len() }),
            v@ == Seq::new((k - digits@.len()) as nat, |i: int| '0'),
        decreases 4 - k,
    {
        v.push('0');
        k = k + 1;
        assert(v@ =~= Seq::new((k - digits@.len()) as nat, |i: int| '0'));
    }
    let ghost zeros = v@;
    let mut j: usize = 0;
    while j < digits.len()
        invariant
            j <= digits@.len(),
            v@ == zeros + digits@.take(j as int),
        decreases digits@.len() - j,
    {
        v.push(digits[j]);
        j = j + 1;
        assert(v@ =~= zeros + digits@.take(j as int));
    }
    proof {
        assert(digits@.take(digits@.len() as int) =~= digits@);
        if digits@.len() >= 4 {
            assert(zeros =~= Seq::<char>::empty());
        }
        assert(v@ =~= code_text(c));
    }
    v
}

/// Returns the characters that show the line or column number `n`.
fn location_chars(n: u32, dashes: u32) -> (v: Vec<char>)
    ensures
        v@ == location_text(n, dashes),
{
    if n < LOCATION_LIMIT - 1 {
        decimal_chars(n as u64 + 1)
    } else {
        let mut v: Vec<char> = Vec::new();
        let mut k: u32 = 0;
        while k < dashes
            invariant
                k <= dashes,
                v@ == Seq::new(k as nat, |i: int| '-'),
            decreases dashes - k,
        {
            v.push('-');
            k = k + 1;
            assert(v@ =~= Seq::new(k as nat, |i: int| '-'));
        }
        v
    }
}

impl Banner {
    /// Draws the right area.
    fn draw_right(&mut self)
        requires
            old(self).wf(),
        ensures
            final(self).wf(),
            final(self).row() == old(self).with_right(old(self).row()),
            final(self).shown_row() == old(self).shown_row(),
            final(self).pending() == old(self).pending(),
            final(self).same_fields(&*old(self)),
    {
        match self.right_area {
            Some((start, end)) => {
                let ghost row0 = self.canvas.back_cells();
                let cols = self.canvas.size().cols;
                proof {
                    self.canvas.lemma_cells();
                    assert(self.canvas.dims().rows == 1);
                    lemma_code_len(self.ch);
                    lemma_location_len(self.loc.row);
                    lemma_location_len(self.loc.col);
                }
                let code = code_chars(self.ch);
                let line = location_chars(self.loc.row, LINE_COLS);
                let colt = location_chars(self.loc.col, COL_COLS);
                let mut col = start;
                col = col + self.canvas.write_char(0, col, '-', self.banner_color);
                proof {
                    reveal_strlit("-");
                    lemma_written(row0, self.canvas.back_cells(), start as int, "-"@, self.banner_color, cols as int);
                }
                let ghost r1 = self.canvas.back_cells();
                col = col + self.canvas.write(0, col, code.as_slice(), self.accent_color);
                proof {
                    lemma_written(r1, self.canvas.back_cells(), start + 1, code@, self.accent_color, cols as int);
                }
                let ghost r2 = self.canvas.back_cells();
                col = col + self.canvas.write_char(0, col, '-', self.banner_color);
                proof {
                    lemma_written(r2, self.canvas.back_cells(), start + 1 + code@.len(), "-"@, self.banner_color, cols as int);
                }
                let ghost r3 = self.canvas.back_cells();
                let next_col = end - GAP_COLS - line.len() as u32 - 1 - colt.len() as u32;
                if col < next_col {
                    self.canvas.fill(0, col..next_col, ' ', self.banner_color);
                    proof {
                        assert(self.canvas.back_cells() =~= blank(r3, col as int, next_col as int, self.banner_color));
                    }
                }
                let ghost r4 = self.canvas.back_cells();
                col = next_col;
                col = col + self.canvas.write(0, col, line.as_slice(), self.banner_color);
                proof {
                    lemma_written(r4, self.canvas.back_cells(), next_col as int, line@, self.banner_color, cols as int);
                }
                let ghost r5 = self.canvas.back_cells();
                col = col + self.canvas.write_char(0, col, ':', self.accent_color);
                proof {
                    reveal_strlit(":");
                    lemma_written(r5, self.canvas.back_cells(), next_col + line@.len(), ":"@, self.accent_color, cols as int);
                }
                let ghost r6 = self.canvas.back_cells();
                self.canvas.write(0, col, colt.as_slice(), self.banner_color);
                proof {
                    lemma_written(r6, self.canvas.back_cells(), next_col + line@.len() + 1, colt@, self.banner_color, cols as int);
                }
            },
            None => {},
        }
    }

    /// Fills the row with spaces in the banner's color.
    fn clear(&mut self)
        requires
            old(self).wf(),
        ensures
            final(self).wf(),
            final(self).row() == old(self).cleared(),
            final(self).shown_row() == old(self).shown_row(),
            final(self).pending() == old(self).pending(),
            final(self).same_fields(&*old(self)),
    {
        proof {
            self.canvas.lemma_cells();
        }
        if self.canvas.size().rows > 0 {
            self.canvas.fill_row(0, ' ', self.banner_color);
            assert(self.canvas.back_cells() =~= old(self).cleared());
        } else {
            assert(self.canvas.back_cells() =~= old(self).cleared());
        }
    }

    /// Creates a banner at `origin` of `cols` columns with the colors of the theme:
    /// the backgrounds of an active and of an inactive banner, and the foregrounds of
    /// its text, of its accents and of the source of an editor with unsaved changes.
    pub fn new(origin: Point, cols: u32, active_bg: u8, inactive_bg: u8, banner_fg: u8, accent_fg: u8, dirty_fg: u8) -> (b: Banner)
        requires
            origin.row + 1 < u32::MAX,
            origin.col + cols < u32::MAX,
        ensures
            b.wf(),
            b.areas() == areas_of(cols),
            b.colors() == (
                Color { fg: banner_fg, bg: inactive_bg },
                Color { fg: accent_fg, bg: inactive_bg },
                Color { fg: dirty_fg, bg: inactive_bg },
            ),
            b.texts() == (Seq::<char>::empty(), Seq::<char>::empty(), Seq::<char>::empty()),
            !b.is_dirty(),
            b.modes() == ('?', '?'),
            b.cursor() == ('\0', Point { row: 0, col: 0 }),
            b.row() == b.cleared(),
            b.row().len() == cols,
            b.pending().len() == 0,
    {
        let canvas = Canvas::new(origin, Size { rows: 1, cols });
        let (left_area, right_area) = calc_areas(cols);
        let mut b = Banner {
            canvas,
            left_area,
            right_area,
            active_bg,
            inactive_bg,
            banner_color: Color { fg: banner_fg, bg: inactive_bg },
            accent_color: Color { fg: accent_fg, bg: inactive_bg },
            dirty_color: Color { fg: dirty_fg, bg: inactive_bg },
            dirty: false,
            source: Vec::new(),
            short: Vec::new(),
            syntax: Vec::new(),
            eol: '?',
            tab: '?',
            ch: '\0',
            loc: Point { row: 0, col: 0 },
        };
        proof {
            b.canvas.lemma_cells();
        }
        b.clear();
        b
    }

    /// Creates a banner of no size, which shows nothing.
    pub fn none() -> (b: Banner)
        ensures
            b.wf(),
            b.row().len() == 0,
            b.areas() == (None::<(u32, u32)>, None::<(u32, u32)>),
    {
        let b = Banner {
            canvas: Canvas::zero(),
            left_area: None,
            right_area: None,
            active_bg: 0,
            inactive_bg: 0,
            banner_color: Color { fg: 0, bg: 0 },
            accent_color: Color { fg: 0, bg: 0 },
            dirty_color: Color { fg: 0, bg: 0 },
            dirty: false,
            source: Vec::new(),
            short: Vec::new(),
            syntax: Vec::new(),
            eol: '?',
            tab: '?',
            ch: '\0',
            loc: Point { row: 0, col: 0 },
        };
        proof {
            b.canvas.lemma_cells();
        }
        b
    }

    /// Produces the output for the cells changed since the last draw.
    pub fn draw(&mut self)
        requires
            old(self).wf(),
        ensures
            final(self).wf(),
            final(self).same_fields(&*old(self)),
            final(self).row() == old(self).row(),
            final(self).shown_row() == old(self).row(),
            final(self).pending() == old(self).pending() + draw_out(
                old(self).place().0,
                diff_upto(
                    old(self).shown_row(),
                    old(self).row(),
                    old(self).place().1 as int,
                    old(self).shown_row().len() as int,
                ),
            ),
    {
        self.canvas.draw();
    }

    /// Draws the whole banner again: cleared, then both areas.
    pub fn redraw(&mut self)
        requires
            old(self).wf(),
        ensures
            final(self).wf(),
            final(self).same_fields(&*old(self)),
            final(self).row() == old(self).full(),
            final(self).shown_row() == old(self).full(),
    {
        self.clear();
        let ghost c = *self;
        self.draw_left();
        proof {
            assert(self.row() == old(self).with_left(old(self).cleared()));
        }
        self.draw_right();
        self.canvas.draw();
    }

    /// Colors the banner as the banner of the active window where `yes` holds, or
    /// else of an inactive one, and draws it again.
    pub fn focus(&mut self, yes: bool)
        requires
            old(self).wf(),
        ensures
            final(self).wf(),
            final(self).areas() == old(self).areas(),
            final(self).texts() == old(self).texts(),
            final(self).is_dirty() == old(self).is_dirty(),
            final(self).modes() == old(self).modes(),
            final(self).cursor() == old(self).cursor(),
            final(self).colors().0.fg == old(self).colors().0.fg,
            final(self).colors().1.fg == old(self).colors().1.fg,
            final(self).colors().2.fg == old(self).colors().2.fg,
            final(self).colors().0.bg == (if yes { old(self).backgrounds().0 } else { old(self).backgrounds().1 }),
            final(self).colors().1.bg == final(self).colors().0.bg,
            final(self).colors().2.bg == final(self).colors().0.bg,
            final(self).row() == final(self).full(),
            final(self).shown_row() == final(self).full(),
    {
        let bg = if yes { self.active_bg } else { self.inactive_bg };
        self.banner_color.bg = bg;
        self.accent_color.bg = bg;
        self.dirty_color.bg = bg;
        self.redraw();
    }

    /// Hands over the output produced so far, which the caller sends to the
    /// terminal.
    pub fn send(&mut self) -> (out: String)
        requires
            old(self).wf(),
        ensures
            final(self).wf(),
            final(self).same_fields(&*old(self)),
            out@ == old(self).pending(),
            final(self).pending().len() == 0,
            final(self).row() == old(self).row(),
            final(self).shown_row() == old(self).shown_row(),
    {
        self.canvas.send()
    }

    /// Marks the editor as having unsaved changes, or not, and draws the left area
    /// where that changes.
    pub fn set_dirty(&mut self, dirty: bool)
        requires
            old(self).wf(),
        ensures
            final(self).wf(),
            final(self).is_dirty() == dirty,
            final(self).areas() == old(self).areas() && final(self).colors() == old(self).colors()
                && final(self).texts() == old(self).texts() && final(self).modes() == old(self).modes()
                && final(self).cursor() == old(self).cursor(),
            final(self).row() == (if dirty != old(self).is_dirty() {
                final(self).with_left(old(self).row())
            } else {
                old(self).row()
            }),
            final(self).shown_row() == old(self).shown_row(),
    {
        if dirty != self.dirty {
            self.dirty = dirty;
            self.draw_left();
        }
    }

    /// Sets the source shown, with the home directory `home`, and draws the left area.
    pub fn set_source(&mut self, source: &Source, home: &str)
        requires
            old(self).wf(),
        ensures
            final(self).wf(),
            final(self).texts() == (
                source_text(*source, home@),
                match *source {
                    Source::File(path, _) => file_name_spec(path@),
                    _ => source_text(*source, home@),
                },
                old(self).texts().2,
            ),
            final(self).areas() == old(self).areas() && final(self).colors() == old(self).colors()
                && final(self).is_dirty() == old(self).is_dirty() && final(self).modes() == old(self).modes()
                && final(self).cursor() == old(self).cursor(),
            final(self).row() == final(self).with_left(old(self).row()),
            final(self).shown_row() == old(self).shown_row(),
    {
        let text = source.text(home);
        let short = match source {
            Source::File(path, _) => file_name(path.as_str()),
            _ => source.text(home),
        };
        self.source = chars_of(text.as_str());
        self.short = chars_of(short.as_str());
        self.draw_left();
    }

    /// Sets the name of the syntax shown and draws the left area.
    pub fn set_syntax(&mut self, syntax: &str)
        requires
            old(self).wf(),
        ensures
            final(self).wf(),
            final(self).texts() == (old(self).texts().0, old(self).texts().1, syntax@),
            final(self).areas() == old(self).areas() && final(self).colors() == old(self).colors()
                && final(self).is_dirty() == old(self).is_dirty() && final(self).modes() == old(self).modes()
                && final(self).cursor() == old(self).cursor(),
            final(self).row() == final(self).with_left(old(self).row()),
            final(self).shown_row() == old(self).shown_row(),
    {
        self.syntax = chars_of(syntax);
        self.draw_left();
    }

    /// Shows the line-ending mode, `\` for CRLF and `/` for LF, and draws the left
    /// area.
    pub fn set_eol(&mut self, crlf: bool)
        requires
            old(self).wf(),
        ensures
            final(self).wf(),
            final(self).modes() == (if crlf { '\\' } else { '/' }, old(self).modes().1),
            final(self).areas() == old(self).areas() && final(self).colors() == old(self).colors()
                && final(self).is_dirty() == old(self).is_dirty() && final(self).texts() == old(self).texts()
                && final(self).cursor() == old(self).cursor(),
            final(self).row() == final(self).with_left(old(self).row()),
            final(self).shown_row() == old(self).shown_row(),
    {
        self.eol = if crlf { '\\' } else { '/' };
        self.draw_left();
    }

    /// Shows the tab mode, `T` for hard tabs and `t` for soft ones, and draws the
    /// left area.
    pub fn set_tab(&mut self, tab_hard: bool)
        requires
            old(self).wf(),
        ensures
            final(self).wf(),
            final(self).modes() == (old(self).modes().0, if tab_hard { 'T' } else { 't' }),
            final(self).areas() == old(self).areas() && final(self).colors() == old(self).colors()
                && final(self).is_dirty() == old(self).is_dirty() && final(self).texts() == old(self).texts()
                && final(self).cursor() == old(self).cursor(),
            final(self).row() == final(self).with_left(old(self).row()),
            final(self).shown_row() == old(self).shown_row(),
    {
        self.tab = if tab_hard { 'T' } else { 't' };
        self.draw_left();
    }

    /// Shows the character under the cursor, `NUL` at the end of the text, and
    /// draws the right area.
    pub fn set_char(&mut self, c: Option<char>)
        requires
            old(self).wf(),
        ensures
            final(self).wf(),
            final(self).cursor() == (
                match c {
                    Some(x) => x,
                    None => '\0',
                },
                old(self).cursor().1,
            ),
            final(self).areas() == old(self).areas() && final(self).colors() == old(self).colors()
                && final(self).is_dirty() == old(self).is_dirty() && final(self).texts() == old(self).texts()
                && final(self).modes() == old(self).modes(),
            final(self).row() == final(self).with_right(old(self).row()),
            final(self).shown_row() == old(self).shown_row(),
    {
        self.ch = match c {
            Some(x) => x,
            None => '\0',
        };
        self.draw_right();
    }

    /// Shows the location `loc` of the cursor, counted from `0`, and draws the
    /// right area.
    pub fn set_location(&mut self, loc: Point)
        requires
            old(self).wf(),
        ensures
            final(self).wf(),
            final(self).cursor() == (old(self).cursor().0, loc),
            final(self).areas() == old(self).areas() && final(self).colors() == old(self).colors()
                && final(self).is_dirty() == old(self).is_dirty() && final(self).texts() == old(self).texts()
                && final(self).modes() == old(self).modes(),
            final(self).row() == final(self).with_right(old(self).row()),
            final(self).shown_row() == old(self).shown_row(),
    {
        self.loc = loc;
        self.draw_right();
    }
}

} // verus!

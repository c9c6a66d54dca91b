//! Rendering the text of a wrapping display into cells: each row of the display
//! shows a row of the text, optionally behind a margin of line numbers, styled by
//! the theme, the selection, the cursor's row and the colors of syntax tokens.

use crate::buffer::Buffer;
use crate::color::Color;
use crate::config::Theme;
use crate::grid::Cell;
use crate::size::Point;
use crate::strings::{decimal, decimal_chars};
use crate::text::{count_nl, line_start};
use crate::wrap::{down, is_bottom, is_row_start, row_end, row_len, WrappingRenderer};
use vstd::prelude::*;

verus! {

/// Columns of the margin of line numbers, where it is shown.
pub const MARGIN_COLS: u32 = 6;

/// Line numbers from this one on show only their last digits in the margin.
pub const LINE_LIMIT: u32 = 100000;

/// The character shown for `\n` where line ends are made visible.
pub const EOL_CHAR: char = '\u{21b2}';

/// The character shown for `\t`.
pub const TAB_CHAR: char = '\u{2192}';

/// The character shown for any other control character.
pub const CTRL_CHAR: char = '\u{bf}';

/// How text is styled: the theme's colors, whether line ends are made visible,
/// whether the cursor's row is highlighted, and whether the margin of line numbers
/// is shown.
#[derive(Copy, Clone, Debug)]
pub struct Style {
    pub theme: Theme,
    pub eol: bool,
    pub spotlight: bool,
    pub margin: bool,
}

/// `c` is a control character (Unicode category `Cc`).
pub open spec fn is_control(c: char) -> bool {
    (c as u32) < 0x20 || (0x7f <= (c as u32) && (c as u32) <= 0x9f)
}

/// The character shown for `c`.
pub open spec fn shown_char(c: char, eol: bool) -> char {
    if c == '\n' {
        if eol { EOL_CHAR } else { ' ' }
    } else if c == '\t' {
        TAB_CHAR
    } else if is_control(c) {
        CTRL_CHAR
    } else {
        c
    }
}

/// The syntax color of position `pos`, if `fg` gives one.
pub open spec fn syntax_fg(fg: Seq<Option<u8>>, pos: int) -> Option<u8> {
    if 0 <= pos < fg.len() { fg[pos] } else { None }
}

/// The cell that shows `c`, at position `pos` of the text, on display row `row`:
/// control characters in the whitespace color, others in their syntax color or the
/// text color; selected positions on the selection's background, the cursor's row
/// `crow` on the spotlight's where enabled.
pub open spec fn text_cell(st: Style, c: char, pos: int, row: int, crow: int, sel: (int, int), fg: Seq<Option<u8>>) -> Cell {
    let f = if is_control(c) {
        st.theme.whitespace_fg
    } else {
        match syntax_fg(fg, pos) {
            Some(x) => x,
            None => st.theme.text_fg,
        }
    };
    let b = if sel.0 <= pos < sel.1 {
        st.theme.select_bg
    } else if st.spotlight && row == crow {
        st.theme.spotlight_bg
    } else {
        st.theme.text_bg
    };
    Cell { value: shown_char(c, st.eol), color: Color { fg: f, bg: b } }
}

/// A blank cell past the end of the text.
pub open spec fn blank_cell(st: Style) -> Cell {
    Cell { value: ' ', color: Color { fg: st.theme.text_fg, bg: st.theme.text_bg } }
}

/// The cell at column `j` of the text area of display row `i`, for the display
/// whose top row starts at `top`, `c` columns wide.
pub open spec fn area_cell(
    s: Seq<char>,
    c: int,
    top: int,
    st: Style,
    crow: int,
    sel: (int, int),
    fg: Seq<Option<u8>>,
    i: int,
    j: int,
) -> Cell {
    let d = down(s, c, top, i as nat);
    let r = d.0;
    let len = row_len(s, c, r);
    if d.1 != i {
        blank_cell(st)
    } else if j < len {
        text_cell(st, s[r + j], r + j, i, crow, sel, fg)
    } else if len > 0 && s[r + len - 1] == '\n' {
        text_cell(st, ' ', r + len - 1, i, crow, sel, fg)
    } else {
        text_cell(st, ' ', r + len, i, crow, sel, fg)
    }
}

/// `t`, preceded by spaces to make it `w` characters at least.
pub open spec fn pad_left(t: Seq<char>, w: nat) -> Seq<char> {
    if t.len() < w {
        Seq::new((w - t.len()) as nat, |k: int| ' ') + t
    } else {
        t
    }
}

/// `t`, preceded by zeros to make it `w` characters at least.
pub open spec fn zero_left(t: Seq<char>, w: nat) -> Seq<char> {
    if t.len() < w {
        Seq::new((w - t.len()) as nat, |k: int| '0') + t
    } else {
        t
    }
}

/// The text of the margin for line `ln`: the number right-aligned, or for large
/// numbers dashes and its last three digits, then a space.
pub open spec fn margin_text(ln: nat) -> Seq<char> {
    if ln < LINE_LIMIT {
        pad_left(decimal(ln), 5) + seq![' ']
    } else {
        seq!['-', '-'] + zero_left(decimal(ln % 1000), 3) + seq![' ']
    }
}

/// The cell at column `k` of the margin of display row `i`: the line number of a
/// row that starts a line, in the line color on the cursor's line `cline`, else
/// blank.
pub open spec fn margin_cell(s: Seq<char>, c: int, top: int, st: Style, cline: int, i: int, k: int) -> Cell {
    let d = down(s, c, top, i as nat);
    let r = d.0;
    let margin = Color { fg: st.theme.margin_fg, bg: st.theme.margin_bg };
    if d.1 != i || r != line_start(s, r) {
        Cell { value: ' ', color: margin }
    } else {
        let ln = count_nl(s.take(r)) + 1;
        let color = if ln == cline { Color { fg: st.theme.line_fg, bg: st.theme.margin_bg } } else { margin };
        Cell { value: margin_text(ln)[k], color }
    }
}

/// The cells of display row `i`, `c` columns of text behind the margin where it is
/// shown.
pub open spec fn rendered_row(
    s: Seq<char>,
    c: int,
    top: int,
    st: Style,
    crow: int,
    cline: int,
    sel: (int, int),
    fg: Seq<Option<u8>>,
    i: int,
) -> Seq<Cell> {
    let m: int = if st.margin { MARGIN_COLS as int } else { 0 };
    Seq::new(
        (m + c) as nat,
        |k: int|
            if k < m {
                margin_cell(s, c, top, st, cline, i, k)
            } else {
                area_cell(s, c, top, st, crow, sel, fg, i, k - m)
            },
    )
}

/// Moving down one more row from the top reaches the row after the one reached so
/// far, while there is one.
proof fn lemma_down_step(s: Seq<char>, c: int, r: int, i: nat)
    ensures
        down(s, c, r, i + 1) == (if down(s, c, r, i).1 == i && !is_bottom(s, c, down(s, c, r, i).0) {
            (row_end(s, c, down(s, c, r, i).0), i + 1)
        } else {
            down(s, c, r, i)
        }),
    decreases i,
{
    reveal_with_fuel(down, 2);
    if i > 0 && !is_bottom(s, c, r) {
        lemma_down_step(s, c, row_end(s, c, r), (i - 1) as nat);
    }
}

/// Returns the margin text for line `ln`.
fn margin_chars(ln: u32) -> (v: Vec<char>)
    ensures
        v@ == margin_text(ln as nat),
        v@.len() >= MARGIN_COLS,
{
    let mut v: Vec<char> = Vec::new();
    if ln < LINE_LIMIT {
        let d = decimal_chars(ln as u64);
        let mut k: usize = d.len();
        while k < 5
            invariant
                d.len() <= k,
                k <= 5 || k == d.len(),
                v@ == Seq::new((k - d.len()) as nat, |x: int| ' '),
            decreases 5 - k,
        {
            v.push(' ');
            k = k + 1;
            assert(v@ =~= Seq::new((k - d.len()) as nat, |x: int| ' '));
        }
        let mut i: usize = 0;
        let ghost pad = v@;
        while i < d.len()
            invariant
                i <= d@.len(),
                v@ == pad + d@.take(i as int),
            decreases d@.len() - i,
        {
            v.push(d[i]);
            i = i + 1;
            assert(v@ =~= pad + d@.take(i as int));
        }
        v.push(' ');
        assert(d@.take(d@.len() as int) =~= d@);
        assert(v@ =~= margin_text(ln as nat));
    } else {
        v.push('-');
        v.push('-');
        let d = decimal_chars((ln % 1000) as u64);
        let mut k: usize = d.len();
        let ghost lead = v@;
        while k < 3
            invariant
                d.len() <= k,
                k <= 3 || k == d.len(),
                v@ == lead + Seq::new((k - d.len()) as nat, |x: int| '0'),
            decreases 3 - k,
        {
            v.push('0');
            k = k + 1;
            assert(v@ =~= lead + Seq::new((k - d.len()) as nat, |x: int| '0'));
        }
        let mut i: usize = 0;
        let ghost pad = v@;
        while i < d.len()
            invariant
                i <= d@.len(),
                v@ == pad + d@.take(i as int),
            decreases d@.len() - i,
        {
            v.push(d[i]);
            i = i + 1;
            assert(v@ =~= pad + d@.take(i as int));
        }
        v.push(' ');
        assert(d@.take(d@.len() as int) =~= d@);
        assert(v@ =~= margin_text(ln as nat));
    }
    v
}

/// Returns the first six characters of `text` as cells of `color`.
fn colored(digits: &Vec<char>, tint: Color) -> (v: Vec<Cell>)
    requires
        digits@.len() >= 6,
    ensures
        v@.len() == 6,
        forall|x: int| 0 <= x < 6 ==> #[trigger] v@[x] == (Cell { value: digits@[x], color: tint }),
{
    let mut out: Vec<Cell> = Vec::new();
    let mut k: usize = 0;
    while k < 6
        invariant
            k <= 6,
            digits@.len() >= 6,
            out@.len() == k,
            forall|x: int| 0 <= x < k ==> #[trigger] out@[x] == (Cell { value: digits@[x], color: tint }),
        decreases 6 - k,
    {
        let ch = digits[k];
        out.push(Cell::new(ch, tint));
        k = k + 1;
    }
    out
}

/// Returns the cell that shows `c` at position `pos` on display row `row`.
fn cell_of(st: &Style, c: char, pos: usize, row: u32, crow: u32, sel: (usize, usize), fg: &Vec<Option<u8>>) -> (cell: Cell)
    ensures
        cell == text_cell(*st, c, pos as int, row as int, crow as int, (sel.0 as int, sel.1 as int), fg@),
{
    let code = c as u32;
    let control = code < 0x20 || (0x7f <= code && code <= 0x9f);
    let f = if control {
        st.theme.whitespace_fg
    } else if pos < fg.len() {
        match fg[pos] {
            Some(x) => x,
            None => st.theme.text_fg,
        }
    } else {
        st.theme.text_fg
    };
    let b = if sel.0 <= pos && pos < sel.1 {
        st.theme.select_bg
    } else if st.spotlight && row == crow {
        st.theme.spotlight_bg
    } else {
        st.theme.text_bg
    };
    let shown = if c == '\n' {
        if st.eol { EOL_CHAR } else { ' ' }
    } else if c == '\t' {
        TAB_CHAR
    } else if control {
        CTRL_CHAR
    } else {
        c
    };
    Cell::new(shown, Color::new(f, b))
}

/// Renders the rows of the display `w` over the text of `buffer`: each row the
/// margin where shown, then the text area's columns. The cursor's display row and
/// its line (counted from 1) pick the spotlight and the highlighted line number;
/// positions `sel.0..sel.1` are selected; `fg` gives syntax colors by position.
pub fn render(
    buffer: &Buffer,
    w: &WrappingRenderer,
    st: &Style,
    cline: u32,
    sel: (usize, usize),
    fg: &Vec<Option<u8>>,
) -> (g: Vec<Vec<Cell>>)
    requires
        buffer.wf(),
        w.wf(buffer@),
    ensures
        g@.len() == w.rows(),
        forall|i: int|
            0 <= i < g@.len() ==> (#[trigger] g@[i])@ == rendered_row(
                buffer@,
                w.cols(),
                w.top_pos(),
                *st,
                w.cursor().row as int,
                cline as int,
                (sel.0 as int, sel.1 as int),
                fg@,
                i,
            ),
{
    let ghost s = buffer@;
    let c = w.cols_of();
    let rows = w.rows_of();
    let crow = w.cursor_point().row;
    let m: u32 = if st.margin { MARGIN_COLS } else { 0 };
    proof {
        buffer.lemma_wf();
        w.lemma_wf(s);
    }
    let mut g: Vec<Vec<Cell>> = Vec::new();
    let mut r: usize = w.top_row();
    let mut here = true;
    let mut i: u32 = 0;
    while i < rows
        invariant
            buffer.wf(),
            s == buffer@,
            s.len() <= crate::buffer::MAX_CAPACITY,
            c == w.cols(),
            c > 0,
            rows == w.rows(),
            crow == w.cursor().row,
            m == (if st.margin { MARGIN_COLS } else { 0 }),
            i <= rows,
            is_row_start(s, c as int, r as int),
            is_row_start(s, c as int, w.top_pos()),
            r == down(s, c as int, w.top_pos(), i as nat).0,
            here == (down(s, c as int, w.top_pos(), i as nat).1 == i),
            g@.len() == i,
            forall|k: int|
                0 <= k < i ==> (#[trigger] g@[k])@ == rendered_row(
                    s,
                    c as int,
                    w.top_pos(),
                    *st,
                    crow as int,
                    cline as int,
                    (sel.0 as int, sel.1 as int),
                    fg@,
                    k,
                ),
        decreases rows - i,
    {
        let ghost want = rendered_row(
            s,
            c as int,
            w.top_pos(),
            *st,
            crow as int,
            cline as int,
            (sel.0 as int, sel.1 as int),
            fg@,
            i as int,
        );
        proof {
            crate::wrap::lemma_row_facts(s, c as int, r as int);
            crate::wrap::lemma_row_facts(s, c as int, w.top_pos());
        }
        let (end, bottom) = crate::wrap::row_bounds(buffer, c, r);
        let len = end - r;
        let mut cells: Vec<Cell> = Vec::new();
        // The margin.
        if m > 0 {
            let starts_line = here && buffer.find_start_line(r) == r;
            if starts_line {
                let ln = buffer.line_of(r);
                proof {
                    crate::text::lemma_count_nl_le_len(s.take(r as int));
                }
                let digits = margin_chars(ln + 1);
                let color = if ln + 1 == cline {
                    Color { fg: st.theme.line_fg, bg: st.theme.margin_bg }
                } else {
                    Color { fg: st.theme.margin_fg, bg: st.theme.margin_bg }
                };
                cells = colored(&digits, color);
            } else {
                let mut k: usize = 0;
                while k < 6
                    invariant
                        k <= 6,
                        cells@.len() == k,
                        forall|x: int|
                            0 <= x < k ==> #[trigger] cells@[x] == (Cell {
                                value: ' ',
                                color: Color { fg: st.theme.margin_fg, bg: st.theme.margin_bg },
                            }),
                    decreases 6 - k,
                {
                    cells.push(Cell::new(' ', Color::new(st.theme.margin_fg, st.theme.margin_bg)));
                    k = k + 1;
                }
            }
        }
        // The text area.
        let nl_end = len > 0 && buffer.char_at(end - 1) == '\n';
        let mut j: u32 = 0;
        while j < c
            invariant
                buffer.wf(),
                s == buffer@,
                c > 0,
                j <= c,
                cells@.len() == m + j,
                r + len == end,
                end <= s.len(),
                len == row_len(s, c as int, r as int),
                nl_end == (len > 0 && s[end - 1] == '\n'),
                here == (down(s, c as int, w.top_pos(), i as nat).1 == i),
                r == down(s, c as int, w.top_pos(), i as nat).0,
                forall|x: int| 0 <= x < m ==> #[trigger] cells@[x] == want[x],
                forall|x: int| m <= x < m + j ==> #[trigger] cells@[x] == want[x],
                want == rendered_row(
                    s,
                    c as int,
                    w.top_pos(),
                    *st,
                    crow as int,
                    cline as int,
                    (sel.0 as int, sel.1 as int),
                    fg@,
                    i as int,
                ),
                m == (if st.margin { MARGIN_COLS } else { 0 }),
            decreases c - j,
        {
            let cell = if !here {
                Cell::new(' ', Color::new(st.theme.text_fg, st.theme.text_bg))
            } else if (j as usize) < len {
                cell_of(st, buffer.char_at(r + j as usize), r + j as usize, i, crow, sel, fg)
            } else if nl_end {
                cell_of(st, ' ', end - 1, i, crow, sel, fg)
            } else {
                cell_of(st, ' ', end, i, crow, sel, fg)
            };
            cells.push(cell);
            j = j + 1;
        }
        proof {
            assert(cells@ =~= want);
        }
        g.push(cells);
        proof {
            lemma_down_step(s, c as int, w.top_pos(), i as nat);
        }
        if here && !bottom {
            r = end;
        } else {
            here = false;
        }
        i = i + 1;
    }
    g
}

/// The text area of a window of `rows` rows and `cols` columns, its banner row
/// included: its rows, its columns, and whether the margin of line numbers shows,
/// which it does where `lines` asks for it and the window is at least twice as
/// wide as the margin.
pub open spec fn text_area_of(rows: u32, cols: u32, lines: bool) -> (u32, u32, bool) {
    let margin = lines && cols >= 2 * MARGIN_COLS;
    (
        (if rows > 0 { rows - 1 } else { 0 }) as u32,
        (if margin { cols - MARGIN_COLS } else { cols as int }) as u32,
        margin,
    )
}

/// Returns the text area of a window, as [`text_area_of`] says.
pub fn text_area(rows: u32, cols: u32, lines: bool) -> (r: (u32, u32, bool))
    ensures
        r == text_area_of(rows, cols, lines),
{
    let margin = lines && cols >= 2 * MARGIN_COLS;
    let text_rows = if rows > 0 { rows - 1 } else { 0 };
    let text_cols = if margin { cols - MARGIN_COLS } else { cols };
    (text_rows, text_cols, margin)
}

/// Returns the point of the terminal where the cursor at `at` of the text area of
/// a window at `origin` stands, past the margin where it shows.
pub fn screen_cursor(origin: Point, at: Point, margin: bool) -> (p: Point)
    requires
        origin.row + at.row <= u32::MAX,
        origin.col + MARGIN_COLS + at.col <= u32::MAX,
    ensures
        p.row == origin.row + at.row,
        p.col == origin.col + (if margin { MARGIN_COLS } else { 0 }) + at.col,
{
    let shift = if margin { MARGIN_COLS } else { 0 };
    Point { row: origin.row + at.row, col: origin.col + shift + at.col }
}

} // verus!

//! The movement of a wrapping display over a buffer.
//!
//! Lines longer than the display is wide wrap across several _rows_ of `cols`
//! characters each; the `\n` that ends a line belongs to its last row. A row is
//! known by the position of its first character: the start of its line plus a
//! multiple of `cols`. The display shows `rows` rows from its top row, with the
//! cursor on the row that holds the cursor position.

use crate::buffer::{Buffer, MAX_CAPACITY};
use crate::size::Point;
use crate::text::{lemma_line_start_bounds, lemma_line_start_is, lemma_next_line_bounds, line_start, next_line};
use vstd::prelude::*;

verus! {

/// Where a move places the cursor on the display.
#[derive(Copy, Clone, PartialEq, Eq, Structural, Debug)]
pub enum Align {
    /// Where the context of the move suggests.
    Auto,
    /// In the middle of the display.
    Center,
    /// At the top of the display.
    Top,
    /// At the bottom of the display.
    Bottom,
    /// At the given row of the display, or its bottom.
    Row(u32),
}

/// The end of the line that holds the row starting at `r`: the position after its
/// `\n`, or the end of `s`.
pub open spec fn line_end(s: Seq<char>, r: int) -> int {
    next_line(s, line_start(s, r)).0
}

/// The line that holds the row starting at `r` ends in `\n`.
pub open spec fn has_newline(s: Seq<char>, r: int) -> bool {
    next_line(s, line_start(s, r)).1
}

/// The number of characters of the row starting at `r`, its `\n` included: the
/// rest of its line, at most `c`.
pub open spec fn row_len(s: Seq<char>, c: int, r: int) -> int {
    let l = line_end(s, r) - r;
    if l < c { l } else { c }
}

/// The position after the row starting at `r`, where the next row starts.
pub open spec fn row_end(s: Seq<char>, c: int, r: int) -> int {
    r + row_len(s, c, r)
}

/// The row starting at `r` is the last of the text: its line has no `\n` and the
/// row does not fill the display's width.
pub open spec fn is_bottom(s: Seq<char>, c: int, r: int) -> bool {
    !has_newline(s, r) && row_len(s, c, r) < c
}

/// The start of the row that holds position `p`.
pub open spec fn row_start_of(s: Seq<char>, c: int, p: int) -> int {
    p - (p - line_start(s, p)) % c
}

/// The start of the row before the row starting at `r`.
pub open spec fn prev_start(s: Seq<char>, c: int, r: int) -> int {
    if r > line_start(s, r) {
        r - c
    } else {
        row_start_of(s, c, r - 1)
    }
}

/// `r` starts a row: it lies in the text, a multiple of `c` past its line's start.
pub open spec fn is_row_start(s: Seq<char>, c: int, r: int) -> bool {
    0 <= r <= s.len() && (r - line_start(s, r)) % c == 0
}

/// Moving up by at most `k` rows from the row starting at `r`, stopping at the top
/// of the text: the row reached and the number of rows moved.
pub open spec fn up(s: Seq<char>, c: int, r: int, k: nat) -> (int, nat)
    decreases k,
{
    if k == 0 || r <= 0 {
        (r, 0)
    } else {
        let x = up(s, c, prev_start(s, c, r), (k - 1) as nat);
        (x.0, x.1 + 1)
    }
}

/// Moving down by at most `k` rows from the row starting at `r`, stopping at the
/// last row of the text: the row reached and the number of rows moved.
pub open spec fn down(s: Seq<char>, c: int, r: int, k: nat) -> (int, nat)
    decreases k,
{
    if k == 0 || is_bottom(s, c, r) {
        (r, 0)
    } else {
        let x = down(s, c, row_end(s, c, r), (k - 1) as nat);
        (x.0, x.1 + 1)
    }
}

/// The last column the cursor can take on the row starting at `r`: on the `\n`
/// that ends it, or past the end of the last row.
pub open spec fn adjusted_len(s: Seq<char>, c: int, r: int) -> int {
    if is_bottom(s, c, r) { row_len(s, c, r) } else { row_len(s, c, r) - 1 }
}

/// The column `col` on the row starting at `r`, at most its last column.
pub open spec fn snapped(s: Seq<char>, c: int, r: int, col: int) -> int {
    if col < adjusted_len(s, c, r) { col } else { adjusted_len(s, c, r) }
}

/// Moving up from the row starting at `r` until the row holds `p`: the row
/// reached and the number of rows moved.
pub open spec fn find_up(s: Seq<char>, c: int, r: int, p: int) -> (int, nat)
    decreases r,
{
    if p < r && 0 <= prev_start(s, c, r) < r {
        let x = find_up(s, c, prev_start(s, c, r), p);
        (x.0, x.1 + 1)
    } else {
        (r, 0)
    }
}

/// Moving down from the row starting at `r` until the row holds `p`, stopping at
/// the last row: the row reached and the number of rows moved.
pub open spec fn find_down(s: Seq<char>, c: int, r: int, p: int) -> (int, nat)
    decreases s.len() - r,
{
    if p >= row_end(s, c, r) && !is_bottom(s, c, r) && r < row_end(s, c, r) <= s.len() {
        let x = find_down(s, c, row_end(s, c, r), p);
        (x.0, x.1 + 1)
    } else {
        (r, 0)
    }
}

/// The display row that `align` asks for on a display of `rows` rows, if any.
pub open spec fn target_row(align: Align, rows: int) -> Option<int> {
    match align {
        Align::Auto => None,
        Align::Top => Some(0),
        Align::Center => Some(rows / 2),
        Align::Bottom => Some(rows - 1),
        Align::Row(x) => Some(if x < rows - 1 { x as int } else { rows - 1 }),
    }
}

/// The row that holds `p` after a move to it from the cursor row `cur`, with the
/// display's top row `top`.
pub open spec fn cur_after(s: Seq<char>, c: int, top: int, cur: int, p: int) -> int {
    if p < cur {
        find_up(s, c, cur, p).0
    } else if p < row_end(s, c, cur) {
        cur
    } else {
        find_down(s, c, cur, p).0
    }
}

/// The top row of the display and the display row of the cursor after a move to
/// `p` aligned by `align`, from the top row `top` and the cursor row `cur` shown at
/// display row `crow` of `rows`.
pub open spec fn moved(
    s: Seq<char>,
    c: int,
    rows: int,
    top: int,
    cur: int,
    crow: int,
    p: int,
    align: Align,
) -> (int, int) {
    let after = cur_after(s, c, top, cur, p);
    let want = target_row(align, rows);
    if p < top {
        let k = match want { Some(k) => k, None => 0 };
        let x = up(s, c, after, k as nat);
        (x.0, x.1 as int)
    } else if p < cur || p < row_end(s, c, cur) {
        match want {
            Some(k) => {
                let x = up(s, c, after, k as nat);
                (x.0, x.1 as int)
            },
            None => if p < cur && find_up(s, c, cur, p).1 > crow {
                (after, 0)
            } else {
                (top, if p < cur { crow - find_up(s, c, cur, p).1 } else { crow })
            },
        }
    } else {
        let n = find_down(s, c, cur, p).1;
        let k = match want {
            Some(k) => k,
            None => if crow + n < rows - 1 { crow + n } else { rows - 1 },
        };
        let x = up(s, c, after, k as nat);
        (x.0, x.1 as int)
    }
}

// ---------------------------------------------------------------------------
// Facts about rows.
// ---------------------------------------------------------------------------

/// Remainders by a positive `c`.
proof fn lemma_mod_facts(x: int, c: int)
    requires
        x >= 0,
        c > 0,
    ensures
        0 <= x % c < c,
        x % c <= x,
        (x - x % c) % c == 0,
        x % c == 0 && x > 0 ==> x >= c && (x - c) % c == 0,
        x % c == 0 ==> (x + c) % c == 0,
{
    assert(0 <= x % c < c) by (nonlinear_arith)
        requires
            c > 0,
    ;
    assert(x % c <= x) by (nonlinear_arith)
        requires
            x >= 0,
            c > 0,
    ;
    assert((x - x % c) % c == 0) by (nonlinear_arith)
        requires
            x >= 0,
            c > 0,
    ;
    vstd::arithmetic::div_mod::lemma_mod_add_multiples_vanish(x, c);
    if x % c == 0 && x > 0 {
        vstd::arithmetic::div_mod::lemma_mod_sub_multiples_vanish(x, c);
        vstd::arithmetic::div_mod::lemma_fundamental_div_mod(x, c);
        let q = x / c;
        assert(x >= c) by (nonlinear_arith)
            requires
                x == c * q,
                x > 0,
                c > 0,
        ;
    }
}

/// The next-line scan from a line's start finds what the scan from any later
/// position of the line finds.
proof fn lemma_next_line_skip(s: Seq<char>, a: int, b: int)
    requires
        0 <= a <= b <= s.len(),
        forall|k: int| a <= k < b ==> s[k] != '\n',
    ensures
        next_line(s, a) == next_line(s, b),
    decreases b - a,
{
    if a < b {
        lemma_next_line_skip(s, a + 1, b);
    }
}

/// What a row start's line and row look like.
proof fn lemma_row(s: Seq<char>, c: int, r: int)
    requires
        c > 0,
        is_row_start(s, c, r),
    ensures
        0 <= line_start(s, r) <= r,
        r <= line_end(s, r) <= s.len(),
        r < line_end(s, r) || !has_newline(s, r),
        !has_newline(s, r) ==> line_end(s, r) == s.len(),
        0 <= row_len(s, c, r) <= c,
        r <= row_end(s, c, r) <= s.len(),
        !is_bottom(s, c, r) ==> r < row_end(s, c, r),
        is_bottom(s, c, r) ==> row_end(s, c, r) == s.len(),
        !is_bottom(s, c, r) ==> is_row_start(s, c, row_end(s, c, r)),
        r > 0 ==> 0 <= prev_start(s, c, r) < r && r - c <= prev_start(s, c, r) && is_row_start(
            s,
            c,
            prev_start(s, c, r),
        ),
{
    let ls = line_start(s, r);
    lemma_line_start_bounds(s, r);
    lemma_next_line_skip(s, ls, r);
    lemma_next_line_bounds(s, r);
    let le = line_end(s, r);
    let e = row_end(s, c, r);
    if !is_bottom(s, c, r) {
        lemma_line_start_bounds(s, e);
        if e < le || !has_newline(s, r) {
            assert forall|k: int| ls <= k < e implies s[k] != '\n' by {
                if k >= r {
                    assert(k < le - (if has_newline(s, r) { 1int } else { 0int }));
                }
            }
        }
        if e < le {
            // A full row within the line: the next starts `c` further on.
            lemma_mod_facts(r - ls, c);
            assert(row_len(s, c, r) == c);
            lemma_line_start_is(s, e, ls);
        } else if has_newline(s, r) {
            lemma_line_start_is(s, e, e);
            lemma_mod_facts(0, c);
        } else {
            // The line's last row fills the width and reaches the end.
            lemma_mod_facts(r - ls, c);
            lemma_line_start_is(s, e, ls);
        }
    }
    if r > 0 {
        if r > ls {
            lemma_mod_facts(r - ls, c);
            lemma_line_start_is(s, r - c, ls);
        } else {
            let p = r - 1;
            lemma_line_start_bounds(s, p);
            let lp = line_start(s, p);
            lemma_mod_facts(p - lp, c);
            let q = row_start_of(s, c, p);
            lemma_line_start_is(s, q, lp);
        }
    }
}

/// The row that holds `p` is a row start at or before `p`, less than `c` before it.
proof fn lemma_row_start_of(s: Seq<char>, c: int, p: int)
    requires
        c > 0,
        0 <= p <= s.len(),
    ensures
        is_row_start(s, c, row_start_of(s, c, p)),
        p - c < row_start_of(s, c, p) <= p,
        line_start(s, p) <= row_start_of(s, c, p),
        line_start(s, row_start_of(s, c, p)) == line_start(s, p),
{
    lemma_line_start_bounds(s, p);
    let lp = line_start(s, p);
    lemma_mod_facts(p - lp, c);
    lemma_line_start_is(s, row_start_of(s, c, p), lp);
}


/// The row that holds `p` does hold it: `p` lies before its end, or it is the last
/// row.
proof fn lemma_row_holds(s: Seq<char>, c: int, p: int)
    requires
        c > 0,
        0 <= p <= s.len(),
    ensures
        p < row_end(s, c, row_start_of(s, c, p)) || is_bottom(s, c, row_start_of(s, c, p)),
{
    lemma_row_start_of(s, c, p);
    let q = row_start_of(s, c, p);
    lemma_line_start_bounds(s, p);
    let ls = line_start(s, p);
    lemma_next_line_skip(s, ls, p);
    lemma_next_line_bounds(s, p);
}

/// The row before a row ends where that row starts.
proof fn lemma_prev_end(s: Seq<char>, c: int, x: int)
    requires
        c > 0,
        is_row_start(s, c, x),
        x > 0,
    ensures
        row_end(s, c, prev_start(s, c, x)) == x,
        !is_bottom(s, c, prev_start(s, c, x)),
{
    let ls = line_start(s, x);
    lemma_line_start_bounds(s, x);
    if x > ls {
        lemma_mod_facts(x - ls, c);
        let q = x - c;
        lemma_line_start_is(s, q, ls);
        lemma_next_line_skip(s, ls, x);
        lemma_next_line_bounds(s, x);
    } else {
        // `x` starts a line, so the character before it is the `\n` ending the row
        // before.
        lemma_row_start_of(s, c, x - 1);
        lemma_line_start_bounds(s, x - 1);
        let lq = line_start(s, x - 1);
        lemma_next_line_skip(s, lq, x - 1);
    }
}

/// A row that starts before the row starting at `q` ends no later than `q`, and is
/// not the last.
proof fn lemma_row_end_le(s: Seq<char>, c: int, r: int, q: int)
    requires
        c > 0,
        is_row_start(s, c, r),
        is_row_start(s, c, q),
        r < q,
    ensures
        row_end(s, c, r) <= q,
        !is_bottom(s, c, r),
{
    let ls = line_start(s, r);
    let lq = line_start(s, q);
    lemma_line_start_bounds(s, r);
    lemma_line_start_bounds(s, q);
    lemma_next_line_skip(s, ls, r);
    lemma_next_line_bounds(s, r);
    if lq <= r {
        lemma_line_start_is(s, r, lq);
        lemma_mod_diff(q - lq, r - lq, c);
    } else {
        assert(s[lq - 1] == '\n');
    }
}

/// Two multiples of `c` that differ differ by at least `c`.
proof fn lemma_mod_diff(a: int, b: int, c: int)
    requires
        c > 0,
        0 <= b < a,
        a % c == 0,
        b % c == 0,
    ensures
        a - b >= c,
        (a - b) % c == 0,
{
    vstd::arithmetic::div_mod::lemma_fundamental_div_mod(a, c);
    vstd::arithmetic::div_mod::lemma_fundamental_div_mod(b, c);
    let qa = a / c;
    let qb = b / c;
    assert(a - b == c * (qa - qb)) by (nonlinear_arith)
        requires
            a == c * qa,
            b == c * qb,
    ;
    assert(qa - qb >= 1) by (nonlinear_arith)
        requires
            a - b == c * (qa - qb),
            a - b > 0,
            c > 0,
    ;
    assert(a - b >= c) by (nonlinear_arith)
        requires
            a - b == c * (qa - qb),
            qa - qb >= 1,
            c > 0,
    ;
    vstd::arithmetic::div_mod::lemma_mod_multiples_basic(qa - qb, c);
    assert(c * (qa - qb) == (qa - qb) * c) by (nonlinear_arith);
}

/// What a row start's row looks like (for the modules that draw rows).
pub(crate) proof fn lemma_row_facts(s: Seq<char>, c: int, r: int)
    requires
        c > 0,
        is_row_start(s, c, r),
    ensures
        r <= row_end(s, c, r) <= s.len(),
        0 <= row_len(s, c, r) <= c,
        !is_bottom(s, c, r) ==> is_row_start(s, c, row_end(s, c, r)),
        forall|k: nat| #[trigger] down(s, c, r, k).1 <= k && is_row_start(s, c, down(s, c, r, k).0),
{
    lemma_row(s, c, r);
    assert forall|k: nat| #[trigger] down(s, c, r, k).1 <= k && is_row_start(s, c, down(s, c, r, k).0) by {
        lemma_down(s, c, r, k);
    }
}

/// Moving up stays on row starts, within the text, and moves at most `k` rows.
proof fn lemma_up(s: Seq<char>, c: int, r: int, k: nat)
    requires
        c > 0,
        is_row_start(s, c, r),
    ensures
        is_row_start(s, c, up(s, c, r, k).0),
        up(s, c, r, k).1 <= k,
    decreases k,
{
    if k > 0 && r > 0 {
        lemma_row(s, c, r);
        lemma_up(s, c, prev_start(s, c, r), (k - 1) as nat);
    }
}

/// Moving down stays on row starts, within the text, and moves at most `k` rows.
proof fn lemma_down(s: Seq<char>, c: int, r: int, k: nat)
    requires
        c > 0,
        is_row_start(s, c, r),
    ensures
        is_row_start(s, c, down(s, c, r, k).0),
        down(s, c, r, k).1 <= k,
    decreases k,
{
    if k > 0 && !is_bottom(s, c, r) {
        lemma_row(s, c, r);
        lemma_down(s, c, row_end(s, c, r), (k - 1) as nat);
    }
}

/// Moving up to `p` ends on a row start at or before `p` and less than `c` before
/// it where a move was made, having moved no more rows than positions.
proof fn lemma_find_up(s: Seq<char>, c: int, r: int, p: int)
    requires
        c > 0,
        is_row_start(s, c, r),
        0 <= p,
    ensures
        is_row_start(s, c, find_up(s, c, r, p).0),
        p < r ==> find_up(s, c, r, p).0 <= p < find_up(s, c, r, p).0 + c,
        p < r ==> p < row_end(s, c, find_up(s, c, r, p).0) && !is_bottom(s, c, find_up(s, c, r, p).0),
        find_up(s, c, r, p).1 <= r,
        p >= r ==> find_up(s, c, r, p) == (r, 0nat),
    decreases r,
{
    if p < r {
        lemma_row(s, c, r);
        let q = prev_start(s, c, r);
        lemma_prev_end(s, c, r);
        lemma_find_up(s, c, q, p);
    }
}

/// Moving down to `p` ends on a row start at or after `r`, which holds `p` or is
/// the last row, having moved no more rows than positions.
proof fn lemma_find_down(s: Seq<char>, c: int, r: int, p: int)
    requires
        c > 0,
        is_row_start(s, c, r),
        r <= p <= s.len(),
    ensures
        is_row_start(s, c, find_down(s, c, r, p).0),
        r <= find_down(s, c, r, p).0 <= p,
        p < row_end(s, c, find_down(s, c, r, p).0) || is_bottom(s, c, find_down(s, c, r, p).0),
        p - find_down(s, c, r, p).0 < c,
        find_down(s, c, r, p).1 <= s.len() - r,
    decreases s.len() - r,
{
    lemma_row(s, c, r);
    if p >= row_end(s, c, r) && !is_bottom(s, c, r) {
        lemma_find_down(s, c, row_end(s, c, r), p);
    }
}


/// Moving down from a row at or before the row that holds `p` ends on that row.
proof fn lemma_find_down_to_row(s: Seq<char>, c: int, r: int, p: int, q: int)
    requires
        c > 0,
        is_row_start(s, c, r),
        0 <= p <= s.len(),
        q == row_start_of(s, c, p),
        r <= q,
    ensures
        find_down(s, c, r, p).0 == q,
    decreases s.len() - r,
{
    lemma_row(s, c, r);
    lemma_row_start_of(s, c, p);
    lemma_line_start_bounds(s, p);
    if r < q {
        // The row at `r` ends no later than the row that holds `p` starts.
        lemma_row_end_le(s, c, r, q);
        lemma_find_down_to_row(s, c, row_end(s, c, r), p, q);
    } else {
        lemma_row_holds(s, c, p);
    }
}

// ---------------------------------------------------------------------------
// The display.
// ---------------------------------------------------------------------------

/// The rows of a buffer shown on a wrapping display, and the cursor on it.
pub struct WrappingRenderer {
    pos: usize,
    rows: u32,
    cols: u32,
    top: usize,
    cur: usize,
    cursor: Point,
    snap: Option<u32>,
}

/// Returns the position after the row starting at `r` and whether that row is the
/// last of the text.
pub(crate) fn row_bounds(buffer: &Buffer, c: u32, r: usize) -> (b: (usize, bool))
    requires
        buffer.wf(),
        c > 0,
        is_row_start(buffer@, c as int, r as int),
    ensures
        b.0 == row_end(buffer@, c as int, r as int),
        b.1 == is_bottom(buffer@, c as int, r as int),
{
    proof {
        lemma_row(buffer@, c as int, r as int);
    }
    let lp = buffer.find_start_line(r);
    let (le, found) = buffer.find_next_line(lp);
    let rest = le - r;
    let len = if rest < c as usize { rest } else { c as usize };
    (r + len, !found && len < c as usize)
}

/// Returns the start of the row before the row starting at `r > 0`.
fn prev_row(buffer: &Buffer, c: u32, r: usize) -> (q: usize)
    requires
        buffer.wf(),
        c > 0,
        is_row_start(buffer@, c as int, r as int),
        r > 0,
    ensures
        q == prev_start(buffer@, c as int, r as int),
{
    proof {
        lemma_row(buffer@, c as int, r as int);
        lemma_line_start_bounds(buffer@, r - 1);
    }
    let lp = buffer.find_start_line(r);
    if r > lp {
        r - c as usize
    } else {
        let p = r - 1;
        let l = buffer.find_start_line(p);
        p - (p - l) % (c as usize)
    }
}

/// Moves up at most `k` rows from the row starting at `r`.
fn up_rows(buffer: &Buffer, c: u32, r: usize, k: u32) -> (x: (usize, u32))
    requires
        buffer.wf(),
        c > 0,
        is_row_start(buffer@, c as int, r as int),
    ensures
        x.0 == up(buffer@, c as int, r as int, k as nat).0,
        x.1 == up(buffer@, c as int, r as int, k as nat).1,
{
    let ghost s = buffer@;
    let mut row = r;
    let mut n: u32 = 0;
    while n < k && row > 0
        invariant
            buffer.wf(),
            s == buffer@,
            c > 0,
            n <= k,
            is_row_start(s, c as int, row as int),
            up(s, c as int, r as int, k as nat) == ({
                let x = up(s, c as int, row as int, (k - n) as nat);
                (x.0, (x.1 + n) as nat)
            }),
        decreases k - n,
    {
        proof {
            lemma_row(s, c as int, row as int);
        }
        row = prev_row(buffer, c, row);
        n = n + 1;
    }
    (row, n)
}

/// Moves down at most `k` rows from the row starting at `r`.
fn down_rows(buffer: &Buffer, c: u32, r: usize, k: u32) -> (x: (usize, u32))
    requires
        buffer.wf(),
        c > 0,
        is_row_start(buffer@, c as int, r as int),
    ensures
        x.0 == down(buffer@, c as int, r as int, k as nat).0,
        x.1 == down(buffer@, c as int, r as int, k as nat).1,
{
    let ghost s = buffer@;
    let mut row = r;
    let mut n: u32 = 0;
    while n < k
        invariant
            buffer.wf(),
            s == buffer@,
            c > 0,
            n <= k,
            is_row_start(s, c as int, row as int),
            down(s, c as int, r as int, k as nat) == ({
                let x = down(s, c as int, row as int, (k - n) as nat);
                (x.0, (x.1 + n) as nat)
            }),
        decreases k - n,
    {
        proof {
            lemma_row(s, c as int, row as int);
        }
        let (end, bottom) = row_bounds(buffer, c, row);
        if bottom {
            return (row, n);
        }
        row = end;
        n = n + 1;
    }
    (row, n)
}

/// Returns the last column the cursor can take on the row starting at `r`.
fn last_col(buffer: &Buffer, c: u32, r: usize) -> (k: u32)
    requires
        buffer.wf(),
        c > 0,
        is_row_start(buffer@, c as int, r as int),
    ensures
        k == adjusted_len(buffer@, c as int, r as int),
{
    proof {
        lemma_row(buffer@, c as int, r as int);
    }
    let (end, bottom) = row_bounds(buffer, c, r);
    if bottom { (end - r) as u32 } else { (end - r - 1) as u32 }
}

/// Moves up from the row starting at `r` until the row holds `p`.
fn find_up_rows(buffer: &Buffer, c: u32, r: usize, p: usize) -> (x: (usize, u32))
    requires
        buffer.wf(),
        c > 0,
        is_row_start(buffer@, c as int, r as int),
    ensures
        x.0 == find_up(buffer@, c as int, r as int, p as int).0,
        x.1 == find_up(buffer@, c as int, r as int, p as int).1,
{
    let ghost s = buffer@;
    proof {
        buffer.lemma_wf();
        lemma_find_up(s, c as int, r as int, p as int);
    }
    let mut row = r;
    let mut n: u32 = 0;
    while p < row
        invariant
            buffer.wf(),
            s == buffer@,
            s.len() <= MAX_CAPACITY,
            r <= s.len(),
            c > 0,
            is_row_start(s, c as int, row as int),
            n + row <= r,
            find_up(s, c as int, r as int, p as int) == ({
                let x = find_up(s, c as int, row as int, p as int);
                (x.0, (x.1 + n) as nat)
            }),
        decreases row,
    {
        proof {
            lemma_row(s, c as int, row as int);
        }
        row = prev_row(buffer, c, row);
        n = n + 1;
    }
    (row, n)
}

/// Moves down from the row starting at `r` until the row holds `p` or is the last.
fn find_down_rows(buffer: &Buffer, c: u32, r: usize, p: usize) -> (x: (usize, u32))
    requires
        buffer.wf(),
        c > 0,
        is_row_start(buffer@, c as int, r as int),
        r <= p <= buffer@.len(),
    ensures
        x.0 == find_down(buffer@, c as int, r as int, p as int).0,
        x.1 == find_down(buffer@, c as int, r as int, p as int).1,
{
    let ghost s = buffer@;
    proof {
        buffer.lemma_wf();
    }
    let mut row = r;
    let mut n: u32 = 0;
    loop
        invariant
            buffer.wf(),
            s == buffer@,
            s.len() <= MAX_CAPACITY,
            c > 0,
            is_row_start(s, c as int, row as int),
            r <= row <= p,
            n + r <= row,
            find_down(s, c as int, r as int, p as int) == ({
                let x = find_down(s, c as int, row as int, p as int);
                (x.0, (x.1 + n) as nat)
            }),
        decreases s.len() - row,
    {
        proof {
            lemma_row(s, c as int, row as int);
        }
        let (end, bottom) = row_bounds(buffer, c, row);
        if p < end || bottom {
            return (row, n);
        }
        row = end;
        n = n + 1;
    }
}

impl WrappingRenderer {
    /// The cursor position in the buffer.
    pub closed spec fn pos(&self) -> int {
        self.pos as int
    }

    /// The number of rows of the display.
    pub closed spec fn rows(&self) -> int {
        self.rows as int
    }

    /// The number of columns of the display.
    pub closed spec fn cols(&self) -> int {
        self.cols as int
    }

    /// The start of the display's top row.
    pub closed spec fn top_pos(&self) -> int {
        self.top as int
    }

    /// The start of the row that holds the cursor.
    pub closed spec fn cur_pos(&self) -> int {
        self.cur as int
    }

    /// The cursor on the display.
    pub closed spec fn cursor(&self) -> Point {
        self.cursor
    }

    /// The column that moves up and down try to keep, once one of them has run.
    pub closed spec fn snap_col(&self) -> Option<u32> {
        self.snap
    }

    /// The display is consistent with the text `s`: it has room, and its top row and
    /// cursor row start rows of `s`.
    pub closed spec fn wf(&self, s: Seq<char>) -> bool {
        &&& self.rows > 0
        &&& self.cols > 0
        &&& self.pos <= s.len()
        &&& is_row_start(s, self.cols as int, self.top as int)
        &&& is_row_start(s, self.cols as int, self.cur as int)
        &&& self.cur <= self.pos
        &&& (self.pos < row_end(s, self.cols as int, self.cur as int) || is_bottom(s, self.cols as int, self.cur as int))
    }

    /// What a display consistent with `s` holds.
    pub proof fn lemma_wf(&self, s: Seq<char>)
        requires
            self.wf(s),
        ensures
            self.rows() > 0,
            self.cols() > 0,
            0 <= self.pos() <= s.len(),
            is_row_start(s, self.cols(), self.top_pos()),
            is_row_start(s, self.cols(), self.cur_pos()),
            self.cur_pos() <= self.pos(),
            self.pos() < row_end(s, self.cols(), self.cur_pos()) || is_bottom(s, self.cols(), self.cur_pos()),
    {
    }

    /// Creates a display of `rows` rows and `cols` columns over `buffer`, with the
    /// cursor at `pos` (at most the end of the text) on a row as near the middle as
    /// the text above allows.
    pub fn new(buffer: &Buffer, pos: usize, rows: u32, cols: u32) -> (w: WrappingRenderer)
        requires
            buffer.wf(),
            rows > 0,
            cols > 0,
        ensures
            w.wf(buffer@),
            w.rows() == rows,
            w.cols() == cols,
            w.pos() == (if pos < buffer@.len() { pos as int } else { buffer@.len() as int }),
            w.cur_pos() == row_start_of(buffer@, cols as int, w.pos()),
            w.top_pos() == up(buffer@, cols as int, w.cur_pos(), (rows / 2) as nat).0,
            w.cursor().row == up(buffer@, cols as int, w.cur_pos(), (rows / 2) as nat).1,
            w.cursor().col == w.pos() - w.cur_pos(),
            w.snap_col() is None,
    {
        Self::with_cursor_row(buffer, pos, rows, cols, rows / 2)
    }

    /// Creates a display of `rows` rows and `cols` columns over `buffer`, with the
    /// cursor at `pos` (at most the end of the text) on display row `row`, or as
    /// near it as the text above allows.
    pub fn with_cursor_row(buffer: &Buffer, pos: usize, rows: u32, cols: u32, row: u32) -> (w: WrappingRenderer)
        requires
            buffer.wf(),
            rows > 0,
            cols > 0,
        ensures
            w.wf(buffer@),
            w.rows() == rows,
            w.cols() == cols,
            w.pos() == (if pos < buffer@.len() { pos as int } else { buffer@.len() as int }),
            w.cur_pos() == row_start_of(buffer@, cols as int, w.pos()),
            w.top_pos() == up(buffer@, cols as int, w.cur_pos(), row as nat).0,
            w.cursor().row == up(buffer@, cols as int, w.cur_pos(), row as nat).1,
            w.cursor().col == w.pos() - w.cur_pos(),
            w.snap_col() is None,
    {
        let pos = if pos < buffer.size() { pos } else { buffer.size() };
        proof {
            buffer.lemma_wf();
            lemma_row_start_of(buffer@, cols as int, pos as int);
            lemma_line_start_bounds(buffer@, pos as int);
        }
        let lp = buffer.find_start_line(pos);
        let cur = pos - (pos - lp) % (cols as usize);
        proof {
            lemma_up(buffer@, cols as int, cur as int, row as nat);
            lemma_row_holds(buffer@, cols as int, pos as int);
        }
        let (top, crow) = up_rows(buffer, cols, cur, row);
        WrappingRenderer { pos, rows, cols, top, cur, cursor: Point { row: crow, col: (pos - cur) as u32 }, snap: None }
    }

    /// Forgets the column that moves up and down try to keep; all else stays.
    pub fn forget_col(&mut self)
        ensures
            final(self).pos() == old(self).pos(),
            final(self).rows() == old(self).rows(),
            final(self).cols() == old(self).cols(),
            final(self).top_pos() == old(self).top_pos(),
            final(self).cur_pos() == old(self).cur_pos(),
            final(self).cursor() == old(self).cursor(),
            final(self).snap_col() is None,
            forall|s: Seq<char>| old(self).wf(s) ==> #[trigger] final(self).wf(s),
    {
        self.snap = None;
    }

    /// Returns the cursor position in the buffer.
    pub fn get_pos(&self) -> (p: usize)
        ensures
            p == self.pos(),
    {
        self.pos
    }

    /// Returns the start of the display's top row.
    pub fn top_row(&self) -> (p: usize)
        ensures
            p == self.top_pos(),
    {
        self.top
    }

    /// Returns the number of rows of the display.
    pub fn rows_of(&self) -> (n: u32)
        ensures
            n == self.rows(),
    {
        self.rows
    }

    /// Returns the number of columns of the display.
    pub fn cols_of(&self) -> (n: u32)
        ensures
            n == self.cols(),
    {
        self.cols
    }

    /// Returns the cursor on the display.
    pub fn cursor_point(&self) -> (c: Point)
        ensures
            c == self.cursor(),
    {
        self.cursor
    }


    /// Moves the cursor up by `try_rows` rows, or fewer at the top of the text,
    /// keeping to the column it tried for last; with `pin` the cursor keeps its
    /// display row where it can (a page up), else the display follows the cursor
    /// only where it would leave the top. Returns the number of rows moved; where
    /// none, nothing changes.
    pub fn move_up(&mut self, buffer: &Buffer, try_rows: u32, pin: bool) -> (n: u32)
        requires
            buffer.wf(),
            old(self).wf(buffer@),
        ensures
            ({
                let s = buffer@;
                let c = old(self).cols();
                let x = up(s, c, old(self).cur_pos(), try_rows as nat);
                let crow = old(self).cursor().row as int;
                let place = if pin {
                    if x.1 < try_rows { (x.0, 0int) } else { let y = up(s, c, x.0, crow as nat); (y.0, y.1 as int) }
                } else if x.1 > crow {
                    (x.0, 0int)
                } else {
                    (old(self).top_pos(), crow - x.1)
                };
                let try_col = match old(self).snap_col() { Some(k) => k as int, None => old(self).cursor().col as int };
                let col = snapped(s, c, x.0, try_col);
                &&& n == x.1
                &&& final(self).wf(s)
                &&& n == 0 ==> *final(self) == *old(self)
                &&& n > 0 ==> {
                    &&& final(self).rows() == old(self).rows()
                    &&& final(self).cols() == c
                    &&& final(self).cur_pos() == x.0
                    &&& final(self).top_pos() == place.0
                    &&& final(self).cursor().row == place.1
                    &&& final(self).cursor().col == col
                    &&& final(self).pos() == x.0 + col
                    &&& final(self).snap_col() == Some(try_col as u32)
                }
            }),
    {
        let ghost s = buffer@;
        let c = self.cols;
        proof {
            buffer.lemma_wf();
            lemma_up(s, c as int, self.cur as int, try_rows as nat);
        }
        let (cur, n) = up_rows(buffer, c, self.cur, try_rows);
        if n == 0 {
            return 0;
        }
        let crow = self.cursor.row;
        let (top, row) = if pin {
            if n < try_rows {
                (cur, 0)
            } else {
                proof {
                    lemma_up(s, c as int, cur as int, crow as nat);
                }
                up_rows(buffer, c, cur, crow)
            }
        } else if n > crow {
            (cur, 0)
        } else {
            (self.top, crow - n)
        };
        let try_col = match self.snap { Some(k) => k, None => self.cursor.col };
        let last = last_col(buffer, c, cur);
        let col = if try_col < last { try_col } else { last };
        proof {
            lemma_row(s, c as int, cur as int);
        }
        self.pos = cur + col as usize;
        self.top = top;
        self.cur = cur;
        self.cursor = Point { row, col };
        self.snap = Some(try_col);
        n
    }

    /// Moves the cursor down by `try_rows` rows, or fewer at the last row of the
    /// text, keeping to the column it tried for last; with `pin` the display moves
    /// down with it and the cursor keeps its display row (a page down), else the
    /// display follows the cursor only where it would leave the bottom. Returns the
    /// number of rows moved; where none, nothing changes.
    pub fn move_down(&mut self, buffer: &Buffer, try_rows: u32, pin: bool) -> (n: u32)
        requires
            buffer.wf(),
            old(self).wf(buffer@),
        ensures
            ({
                let s = buffer@;
                let c = old(self).cols();
                let x = down(s, c, old(self).cur_pos(), try_rows as nat);
                let crow = old(self).cursor().row as int;
                let place = if pin {
                    (down(s, c, old(self).top_pos(), x.1).0, crow)
                } else if crow + x.1 < old(self).rows() {
                    (old(self).top_pos(), crow + x.1)
                } else {
                    let y = up(s, c, x.0, (old(self).rows() - 1) as nat);
                    (y.0, y.1 as int)
                };
                let try_col = match old(self).snap_col() { Some(k) => k as int, None => old(self).cursor().col as int };
                let col = snapped(s, c, x.0, try_col);
                &&& n == x.1
                &&& final(self).wf(s)
                &&& n == 0 ==> *final(self) == *old(self)
                &&& n > 0 ==> {
                    &&& final(self).rows() == old(self).rows()
                    &&& final(self).cols() == c
                    &&& final(self).cur_pos() == x.0
                    &&& final(self).top_pos() == place.0
                    &&& final(self).cursor().row == place.1
                    &&& final(self).cursor().col == col
                    &&& final(self).pos() == x.0 + col
                    &&& final(self).snap_col() == Some(try_col as u32)
                }
            }),
    {
        let ghost s = buffer@;
        let c = self.cols;
        proof {
            buffer.lemma_wf();
            lemma_down(s, c as int, self.cur as int, try_rows as nat);
        }
        let (cur, n) = down_rows(buffer, c, self.cur, try_rows);
        if n == 0 {
            return 0;
        }
        let crow = self.cursor.row;
        let rows = self.rows;
        let (top, row) = if pin {
            proof {
                lemma_down(s, c as int, self.top as int, n as nat);
            }
            let (t, _) = down_rows(buffer, c, self.top, n);
            (t, crow)
        } else if (crow as u64) + (n as u64) < rows as u64 {
            (self.top, crow + n)
        } else {
            proof {
                lemma_up(s, c as int, cur as int, (rows - 1) as nat);
            }
            up_rows(buffer, c, cur, rows - 1)
        };
        let try_col = match self.snap { Some(k) => k, None => self.cursor.col };
        let last = last_col(buffer, c, cur);
        let col = if try_col < last { try_col } else { last };
        proof {
            lemma_row(s, c as int, cur as int);
        }
        self.pos = cur + col as usize;
        self.top = top;
        self.cur = cur;
        self.cursor = Point { row, col };
        self.snap = Some(try_col);
        n
    }

    /// `w` is this display over the text `s` once its contents scroll up one row:
    /// where a row follows the bottom row, the top row moves down one row, and the
    /// cursor keeps its place in the text one display row higher, or, on the top
    /// row, moves down one row to its column as near as that row allows; else
    /// nothing changes.
    pub open spec fn scrolls_up(self, s: Seq<char>, w: WrappingRenderer) -> bool {
        let c = self.cols();
        let crow = self.cursor().row as int;
        let ccol = self.cursor().col as int;
        if down(s, c, self.top_pos(), self.rows() as nat).1 < self.rows() {
            w == self
        } else {
            &&& w.rows() == self.rows()
            &&& w.cols() == c
            &&& w.snap_col() == self.snap_col()
            &&& w.top_pos() == down(s, c, self.top_pos(), 1).0
            &&& if crow > 0 {
                &&& w.pos() == self.pos()
                &&& w.cur_pos() == self.cur_pos()
                &&& w.cursor().row == crow - 1
                &&& w.cursor().col == ccol
            } else {
                let cur = down(s, c, self.cur_pos(), 1).0;
                let col = snapped(s, c, cur, ccol);
                &&& w.cur_pos() == cur
                &&& w.pos() == cur + col
                &&& w.cursor().row == 0
                &&& w.cursor().col == col
            }
        }
    }

    /// `w` is this display over the text `s` once its contents scroll down one
    /// row: where a row comes before the top row, the top row moves up one row, and
    /// the cursor keeps its place in the text one display row lower, or, on the
    /// bottom row, moves up one row to its column as near as that row allows; else
    /// nothing changes.
    pub open spec fn scrolls_down(self, s: Seq<char>, w: WrappingRenderer) -> bool {
        let c = self.cols();
        let crow = self.cursor().row as int;
        let ccol = self.cursor().col as int;
        if self.top_pos() == 0 {
            w == self
        } else {
            &&& w.rows() == self.rows()
            &&& w.cols() == c
            &&& w.snap_col() == self.snap_col()
            &&& w.top_pos() == up(s, c, self.top_pos(), 1).0
            &&& if crow < self.rows() - 1 {
                &&& w.pos() == self.pos()
                &&& w.cur_pos() == self.cur_pos()
                &&& w.cursor().row == crow + 1
                &&& w.cursor().col == ccol
            } else {
                let cur = up(s, c, self.cur_pos(), 1).0;
                let col = snapped(s, c, cur, ccol);
                &&& w.cur_pos() == cur
                &&& w.pos() == cur + col
                &&& w.cursor().row == crow
                &&& w.cursor().col == col
            }
        }
    }

    /// Scrolls the contents up one row, as [`Self::scrolls_up`] says; returns
    /// whether they moved, that is whether a row follows the bottom row.
    pub fn scroll_up(&mut self, buffer: &Buffer) -> (b: bool)
        requires
            buffer.wf(),
            old(self).wf(buffer@),
        ensures
            final(self).wf(buffer@),
            old(self).scrolls_up(buffer@, *final(self)),
            b == (down(buffer@, old(self).cols(), old(self).top_pos(), old(self).rows() as nat).1 == old(self).rows()),
    {
        let ghost s = buffer@;
        let c = self.cols;
        let rows = self.rows;
        proof {
            buffer.lemma_wf();
            lemma_down(s, c as int, self.top as int, rows as nat);
            lemma_down(s, c as int, self.top as int, 1);
        }
        let (_, n) = down_rows(buffer, c, self.top, rows);
        if n < rows {
            return false;
        }
        let (top, _) = down_rows(buffer, c, self.top, 1);
        if self.cursor.row > 0 {
            self.cursor.row = self.cursor.row - 1;
        } else {
            proof {
                lemma_down(s, c as int, self.cur as int, 1);
            }
            let (cur, _) = down_rows(buffer, c, self.cur, 1);
            let last = last_col(buffer, c, cur);
            let col = if self.cursor.col < last { self.cursor.col } else { last };
            proof {
                lemma_row(s, c as int, cur as int);
            }
            self.pos = cur + col as usize;
            self.cur = cur;
            self.cursor = Point { row: 0, col };
        }
        self.top = top;
        true
    }

    /// Scrolls the contents down one row, as [`Self::scrolls_down`] says; returns
    /// whether they moved, that is whether the top row is not the first.
    pub fn scroll_down(&mut self, buffer: &Buffer) -> (b: bool)
        requires
            buffer.wf(),
            old(self).wf(buffer@),
        ensures
            final(self).wf(buffer@),
            old(self).scrolls_down(buffer@, *final(self)),
            b == (old(self).top_pos() > 0),
    {
        let ghost s = buffer@;
        let c = self.cols;
        let rows = self.rows;
        if self.top == 0 {
            return false;
        }
        proof {
            buffer.lemma_wf();
            lemma_up(s, c as int, self.top as int, 1);
        }
        let (top, _) = up_rows(buffer, c, self.top, 1);
        if self.cursor.row < rows - 1 {
            self.cursor.row = self.cursor.row + 1;
        } else {
            proof {
                lemma_up(s, c as int, self.cur as int, 1);
            }
            let (cur, _) = up_rows(buffer, c, self.cur, 1);
            let last = last_col(buffer, c, cur);
            let col = if self.cursor.col < last { self.cursor.col } else { last };
            proof {
                lemma_row(s, c as int, cur as int);
            }
            self.pos = cur + col as usize;
            self.cur = cur;
            self.cursor = Point { row: self.cursor.row, col };
        }
        self.top = top;
        true
    }

    /// Moves the cursor to the start of its row, keeping its display row.
    pub fn move_start(&mut self, buffer: &Buffer)
        requires
            buffer.wf(),
            old(self).wf(buffer@),
        ensures
            final(self).wf(buffer@),
            final(self).rows() == old(self).rows(),
            final(self).cols() == old(self).cols(),
            final(self).snap_col() is None,
            final(self).pos() == old(self).cur_pos(),
            final(self).cur_pos() == old(self).cur_pos(),
    {
        proof {
            lemma_row(buffer@, self.cols as int, self.cur as int);
        }
        let row = self.cursor.row;
        self.move_to(buffer, self.cur, Align::Row(row));
        proof {
            lemma_find_up(buffer@, old(self).cols(), old(self).cur_pos(), old(self).cur_pos());
        }
    }

    /// Moves the cursor to the last column of its row, keeping its display row.
    pub fn move_end(&mut self, buffer: &Buffer)
        requires
            buffer.wf(),
            old(self).wf(buffer@),
        ensures
            final(self).wf(buffer@),
            final(self).rows() == old(self).rows(),
            final(self).cols() == old(self).cols(),
            final(self).snap_col() is None,
            final(self).pos() == old(self).cur_pos() + adjusted_len(buffer@, old(self).cols(), old(self).cur_pos()),
    {
        proof {
            buffer.lemma_wf();
            lemma_row(buffer@, self.cols as int, self.cur as int);
        }
        let row = self.cursor.row;
        let last = last_col(buffer, self.cols, self.cur);
        self.move_to(buffer, self.cur + last as usize, Align::Row(row));
    }


    /// `w` is this display over the text `s` after [`Self::move_left`].
    pub open spec fn moves_left(self, s: Seq<char>, w: WrappingRenderer) -> bool {
        &&& w.rows() == self.rows()
        &&& w.cols() == self.cols()
        &&& w.snap_col() is None
        &&& self.pos() == 0 ==> w.pos() == 0 && w.cur_pos() == self.cur_pos() && w.top_pos() == self.top_pos()
            && w.cursor() == self.cursor()
        &&& self.pos() > 0 ==> w.pos() == self.pos() - 1
        &&& self.pos() > self.cur_pos() ==> w.cur_pos() == self.cur_pos() && w.top_pos() == self.top_pos()
            && w.cursor().row == self.cursor().row && w.cursor().col == self.pos() - 1 - self.cur_pos()
        &&& 0 < self.pos() == self.cur_pos() ==> {
            let prev = prev_start(s, self.cols(), self.cur_pos());
            &&& w.cur_pos() == prev
            &&& w.cursor().col == self.pos() - 1 - prev
            &&& self.cursor().row > 0 ==> w.cursor().row == self.cursor().row - 1 && w.top_pos() == self.top_pos()
            &&& self.cursor().row == 0 ==> w.cursor().row == 0 && w.top_pos() == prev
        }
    }

    /// Moves the cursor left by one character: within its row one column left, or
    /// else to the end of the row before, which the display scrolls down to show
    /// where the cursor is on its top row. At the start of the text nothing changes.
    pub fn move_left(&mut self, buffer: &Buffer)
        requires
            buffer.wf(),
            old(self).wf(buffer@),
        ensures
            final(self).wf(buffer@),
            old(self).moves_left(buffer@, *final(self)),
    {
        let ghost s = buffer@;
        proof {
            buffer.lemma_wf();
            lemma_row(s, self.cols as int, self.cur as int);
        }
        if self.pos == 0 {
            self.snap = None;
            return;
        }
        let p = self.pos - 1;
        if p >= self.cur {
            self.pos = p;
            self.cursor = Point { row: self.cursor.row, col: (p - self.cur) as u32 };
        } else {
            proof {
                lemma_prev_end(s, self.cols as int, self.cur as int);
            }
            let prev = prev_row(buffer, self.cols, self.cur);
            if self.cursor.row > 0 {
                self.cursor = Point { row: self.cursor.row - 1, col: (p - prev) as u32 };
            } else {
                self.top = prev;
                self.cursor = Point { row: 0, col: (p - prev) as u32 };
            }
            self.cur = prev;
            self.pos = p;
        }
        self.snap = None;
    }

    /// `w` is this display over the text `s` after [`Self::move_right`].
    pub open spec fn moves_right(self, s: Seq<char>, w: WrappingRenderer) -> bool {
        let c = self.cols();
        let end = row_end(s, c, self.cur_pos());
        let p = self.pos() + 1;
        &&& w.rows() == self.rows()
        &&& w.cols() == c
        &&& w.snap_col() is None
        &&& self.pos() == s.len() ==> w.pos() == self.pos() && w.cur_pos() == self.cur_pos() && w.top_pos()
            == self.top_pos() && w.cursor() == self.cursor()
        &&& self.pos() < s.len() ==> {
            &&& w.pos() == p
            &&& (p < end || is_bottom(s, c, self.cur_pos())) ==> w.cur_pos() == self.cur_pos() && w.top_pos()
                == self.top_pos() && w.cursor().row == self.cursor().row && w.cursor().col == p - self.cur_pos()
            &&& (p >= end && !is_bottom(s, c, self.cur_pos())) ==> {
                &&& w.cur_pos() == end
                &&& w.cursor().col == 0
                &&& self.cursor().row + 1 < self.rows() ==> w.cursor().row == self.cursor().row + 1
                    && w.top_pos() == self.top_pos()
                &&& self.cursor().row + 1 >= self.rows() ==> w.cursor().row == self.cursor().row
                    && w.top_pos() == down(s, c, self.top_pos(), 1).0
            }
        }
    }

    /// Moves the cursor right by one character: within its row one column right, or
    /// else to the start of the row after, which the display scrolls up to show
    /// where the cursor is on its bottom row. At the end of the text nothing
    /// changes.
    pub fn move_right(&mut self, buffer: &Buffer)
        requires
            buffer.wf(),
            old(self).wf(buffer@),
        ensures
            final(self).wf(buffer@),
            old(self).moves_right(buffer@, *final(self)),
    {
        let ghost s = buffer@;
        proof {
            buffer.lemma_wf();
            lemma_row(s, self.cols as int, self.cur as int);
            lemma_down(s, self.cols as int, self.top as int, 1);
        }
        if self.pos >= buffer.size() {
            self.snap = None;
            return;
        }
        let p = self.pos + 1;
        let (end, bottom) = row_bounds(buffer, self.cols, self.cur);
        if p < end || bottom {
            self.pos = p;
            self.cursor = Point { row: self.cursor.row, col: (p - self.cur) as u32 };
        } else {
            proof {
                lemma_row(s, self.cols as int, end as int);
            }
            if (self.cursor.row as u64) + 1 < self.rows as u64 {
                self.cursor = Point { row: self.cursor.row + 1, col: 0 };
            } else {
                let (t, _) = down_rows(buffer, self.cols, self.top, 1);
                self.top = t;
                self.cursor = Point { row: self.cursor.row, col: 0 };
            }
            self.cur = end;
            self.pos = p;
        }
        self.snap = None;
    }

    /// `w` is this display fitted to the text `s` and to the cursor at `pos`, at most
    /// the end of the text, as [`Self::refit`] does.
    pub open spec fn fits(self, s: Seq<char>, pos: int, w: WrappingRenderer) -> bool {
        let c = self.cols();
        let rows = self.rows();
        let p = if pos < s.len() { pos } else { s.len() as int };
        let t0 = if self.top_pos() < s.len() { self.top_pos() } else { s.len() as int };
        let top = row_start_of(s, c, t0);
        let cur = row_start_of(s, c, p);
        let d = find_down(s, c, top, p);
        let u = up(s, c, cur, (rows - 1) as nat);
        &&& w.rows() == rows
        &&& w.cols() == c
        &&& w.pos() == p
        &&& w.cur_pos() == cur
        &&& w.cursor().col == p - cur
        &&& w.snap_col() is None
        &&& cur < top ==> w.top_pos() == cur && w.cursor().row == 0
        &&& top <= cur && d.1 < rows ==> w.top_pos() == top && w.cursor().row == d.1
        &&& top <= cur && d.1 >= rows ==> w.top_pos() == u.0 && w.cursor().row == u.1
    }

    /// Fits the display to the text `buffer` now holds (after it changed) and to the
    /// cursor at `pos`, at most the end of the text: the top row stays where it
    /// still starts a row at or before the cursor's, and the cursor goes as many
    /// rows below it as its row lies, where the display has room; else the cursor's
    /// row goes to the top, or to the bottom where it lies below the display.
    pub fn refit(&mut self, buffer: &Buffer, pos: usize)
        requires
            buffer.wf(),
            old(self).rows() > 0,
            old(self).cols() > 0,
        ensures
            final(self).wf(buffer@),
            old(self).fits(buffer@, pos as int, *final(self)),
    {
        let ghost s = buffer@;
        proof {
            buffer.lemma_wf();
        }
        let c = self.cols;
        let rows = self.rows;
        let size = buffer.size();
        let p = if pos < size { pos } else { size };
        let t0 = if self.top < size { self.top } else { size };
        proof {
            lemma_row_start_of(s, c as int, p as int);
            lemma_row_start_of(s, c as int, t0 as int);
            lemma_line_start_bounds(s, p as int);
            lemma_line_start_bounds(s, t0 as int);
        }
        proof {
            lemma_row_holds(s, c as int, p as int);
        }
        let lp = buffer.find_start_line(p);
        let cur = p - (p - lp) % (c as usize);
        let lt = buffer.find_start_line(t0);
        let top = t0 - (t0 - lt) % (c as usize);
        let (new_top, row) = if cur < top {
            (cur, 0u32)
        } else {
            proof {
                lemma_find_down(s, c as int, top as int, p as int);
                lemma_find_down_to_row(s, c as int, top as int, p as int, cur as int);
            }
            let (found, n) = find_down_rows(buffer, c, top, p);
            if n < rows {
                (top, n)
            } else {
                proof {
                    lemma_up(s, c as int, cur as int, (rows - 1) as nat);
                }
                up_rows(buffer, c, cur, rows - 1)
            }
        };
        self.pos = p;
        self.cur = cur;
        self.top = new_top;
        self.cursor = Point { row, col: (p - cur) as u32 };
        self.snap = None;
    }

    /// Moves the cursor to `pos`, at most the end of the text, and places its row on
    /// the display as `align` asks: where no row is asked for, a cursor that stays on
    /// the display keeps its place, one moving above the top goes to the top, and one
    /// moving below the bottom goes as far down as it moved, at most to the bottom.
    pub fn move_to(&mut self, buffer: &Buffer, pos: usize, align: Align)
        requires
            buffer.wf(),
            old(self).wf(buffer@),
        ensures
            ({
                let s = buffer@;
                let c = old(self).cols();
                let p = if pos < s.len() { pos as int } else { s.len() as int };
                let m = moved(s, c, old(self).rows(), old(self).top_pos(), old(self).cur_pos(), old(self).cursor().row as int, p, align);
                &&& final(self).wf(s)
                &&& final(self).rows() == old(self).rows()
                &&& final(self).cols() == c
                &&& final(self).pos() == p
                &&& final(self).cur_pos() == cur_after(s, c, old(self).top_pos(), old(self).cur_pos(), p)
                &&& final(self).top_pos() == m.0
                &&& final(self).cursor().row == m.1
                &&& final(self).cursor().col == p - final(self).cur_pos()
                &&& final(self).snap_col() is None
            }),
    {
        let ghost s = buffer@;
        proof {
            buffer.lemma_wf();
            lemma_row(s, self.cols as int, self.cur as int);
        }
        let c = self.cols;
        let p = if pos < buffer.size() { pos } else { buffer.size() };
        let rows = self.rows;
        let want: Option<u32> = match align {
            Align::Auto => None,
            Align::Top => Some(0),
            Align::Center => Some(rows / 2),
            Align::Bottom => Some(rows - 1),
            Align::Row(x) => Some(if x < rows - 1 { x } else { rows - 1 }),
        };
        let (end, _) = row_bounds(buffer, c, self.cur);
        let (found, moved_rows) = if p < self.cur {
            proof {
                lemma_find_up(s, c as int, self.cur as int, p as int);
            }
            find_up_rows(buffer, c, self.cur, p)
        } else if p < end {
            (self.cur, 0)
        } else {
            proof {
                lemma_find_down(s, c as int, self.cur as int, p as int);
            }
            find_down_rows(buffer, c, self.cur, p)
        };
        let k: Option<u32> = if p < self.top {
            match want { Some(k) => Some(k), None => Some(0) }
        } else if p < self.cur || p < end {
            want
        } else {
            match want {
                Some(k) => Some(k),
                None => {
                    let t = self.cursor.row as u64 + moved_rows as u64;
                    Some(if t < (rows - 1) as u64 { t as u32 } else { rows - 1 })
                },
            }
        };
        let (top, row) = match k {
            Some(k) => {
                proof {
                    lemma_up(s, c as int, found as int, k as nat);
                }
                up_rows(buffer, c, found, k)
            },
            None => if moved_rows <= self.cursor.row {
                (self.top, self.cursor.row - moved_rows)
            } else {
                (found, 0)
            },
        };
        self.pos = p;
        self.top = top;
        self.cur = found;
        self.cursor = Point { row, col: (p - found) as u32 };
        self.snap = None;
    }
}

} // verus!

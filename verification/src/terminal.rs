//! A model of the terminal that shows a canvas: the output that the canvas draws
//! read as steps that move the cursor, select a color or write a character, and
//! what the screen shows after those steps are played.

use crate::ansi::{color_seq, cursor_seq};
use crate::canvas::{cell_out, changes_out, draw_out, Canvas};
use crate::color::Color;
use crate::grid::{diff_upto, point_at, Cell};
use crate::size::Point;
use vstd::prelude::*;

verus! {

/// A step of terminal output.
pub enum Step {
    /// Hides the cursor.
    Hide,
    /// Shows the cursor.
    Show,
    /// Moves the cursor to a row and a column, counted from zero.
    MoveTo(nat, nat),
    /// Selects the color of the characters written after it.
    Paint(Color),
    /// Writes a character at the cursor, which moves one column to the right.
    Put(char),
}

/// The characters that a terminal reads as `step`.
pub open spec fn step_out(step: Step) -> Seq<char> {
    match step {
        Step::Hide => "\x1b[?25l"@,
        Step::Show => "\x1b[?25h"@,
        Step::MoveTo(row, col) => cursor_seq(row, col),
        Step::Paint(color) => color_seq(color),
        Step::Put(c) => seq![c],
    }
}

/// The characters that a terminal reads as `steps`, one after the other.
pub open spec fn steps_out(steps: Seq<Step>) -> Seq<char>
    decreases steps.len(),
{
    if steps.len() == 0 {
        Seq::empty()
    } else {
        steps_out(steps.drop_last()) + step_out(steps.last())
    }
}

/// What a terminal holds: the cursor's row and column, the selected color, and
/// the cell shown at each row and column.
pub struct Terminal {
    pub row: int,
    pub col: int,
    pub color: Color,
    pub cells: Map<(int, int), Cell>,
}

/// The terminal `t` after `step`.
pub open spec fn play_step(t: Terminal, step: Step) -> Terminal {
    match step {
        Step::MoveTo(row, col) => Terminal { row: row as int, col: col as int, color: t.color, cells: t.cells },
        Step::Paint(color) => Terminal { row: t.row, col: t.col, color: color, cells: t.cells },
        Step::Put(c) => Terminal {
            row: t.row,
            col: t.col + 1,
            color: t.color,
            cells: t.cells.insert((t.row, t.col), Cell { value: c, color: t.color }),
        },
        _ => t,
    }
}

/// The terminal `t` after `steps`, one after the other.
pub open spec fn play(t: Terminal, steps: Seq<Step>) -> Terminal
    decreases steps.len(),
{
    if steps.len() == 0 {
        t
    } else {
        play_step(play(t, steps.drop_last()), steps.last())
    }
}

/// The terminal row and column of point `p` of a canvas whose origin is `origin`.
pub open spec fn screen_point(origin: Point, p: Point) -> (int, int) {
    (origin.row + p.row, origin.col + p.col)
}

/// The cells of `cells` with the first `n` of `changes` written over them, each at
/// the terminal row and column of its point.
pub open spec fn with_changes(
    cells: Map<(int, int), Cell>,
    origin: Point,
    changes: Seq<(Point, Cell)>,
    n: int,
) -> Map<(int, int), Cell>
    decreases n,
{
    if n <= 0 {
        cells
    } else {
        with_changes(cells, origin, changes, n - 1).insert(screen_point(origin, changes[n - 1].0), changes[n - 1].1)
    }
}

proof fn lemma_steps_out_append(a: Seq<Step>, b: Seq<Step>)
    ensures
        steps_out(a + b) == steps_out(a) + steps_out(b),
    decreases b.len(),
{
    if b.len() == 0 {
        assert(a + b =~= a);
        assert(steps_out(a) + steps_out(b) =~= steps_out(a));
    } else {
        lemma_steps_out_append(a, b.drop_last());
        assert((a + b).drop_last() =~= a + b.drop_last());
        assert((a + b).last() == b.last());
        assert(steps_out(a + b) =~= steps_out(a) + steps_out(b));
    }
}

proof fn lemma_play_append(t: Terminal, a: Seq<Step>, b: Seq<Step>)
    ensures
        play(t, a + b) == play(play(t, a), b),
    decreases b.len(),
{
    if b.len() == 0 {
        assert(a + b =~= a);
    } else {
        lemma_play_append(t, a, b.drop_last());
        assert((a + b).drop_last() =~= a + b.drop_last());
        assert((a + b).last() == b.last());
    }
}

proof fn lemma_three_steps(x: Step, y: Step, z: Step)
    ensures
        steps_out(seq![x, y, z]) == step_out(x) + step_out(y) + step_out(z),
        steps_out(seq![x, y]) == step_out(x) + step_out(y),
        steps_out(seq![x]) == step_out(x),
{
    let e = Seq::<Step>::empty();
    assert(seq![x, y, z].drop_last() =~= seq![x, y] && seq![x, y, z].last() == z);
    assert(seq![x, y].drop_last() =~= seq![x] && seq![x, y].last() == y);
    assert(seq![x].drop_last() =~= e && seq![x].last() == x);
    assert(steps_out(e) == Seq::<char>::empty());
    assert(steps_out(seq![x]) == steps_out(e) + step_out(x));
    assert(steps_out(seq![x]) =~= step_out(x));
    assert(steps_out(seq![x, y]) == steps_out(seq![x]) + step_out(y));
    assert(steps_out(seq![x, y]) =~= step_out(x) + step_out(y));
    assert(steps_out(seq![x, y, z]) =~= step_out(x) + step_out(y) + step_out(z));
}

proof fn lemma_play_three(t: Terminal, x: Step, y: Step, z: Step)
    ensures
        play(t, seq![x, y, z]) == play_step(play_step(play_step(t, x), y), z),
        play(t, seq![x, y]) == play_step(play_step(t, x), y),
        play(t, seq![x]) == play_step(t, x),
{
    let e = Seq::<Step>::empty();
    assert(seq![x, y, z].drop_last() =~= seq![x, y] && seq![x, y, z].last() == z);
    assert(seq![x, y].drop_last() =~= seq![x] && seq![x, y].last() == y);
    assert(seq![x].drop_last() =~= e && seq![x].last() == x);
    assert(play(t, e) == t);
    assert(play(t, seq![x]) == play_step(play(t, e), x));
    assert(play(t, seq![x, y]) == play_step(play(t, seq![x]), y));
}

/// The terminal `t` after the output that draws `cell` at `p` on a canvas whose
/// origin is `origin`: the cell stands at its own row and column, and the cursor
/// just after it in the cell's color.
pub open spec fn drawn(t: Terminal, origin: Point, p: Point, cell: Cell) -> Terminal {
    let at = screen_point(origin, p);
    Terminal { row: at.0, col: at.1 + 1, color: cell.color, cells: t.cells.insert(at, cell) }
}

/// The output that draws one cell writes the cell's character, in the cell's
/// color, at the cell's own row and column, on a terminal where the cursor stands
/// just after the cell drawn before it in that cell's color: it is the output of
/// steps that, played on such a terminal, leave it with just that cell written.
pub proof fn lemma_cell_lands(origin: Point, p: Point, cell: Cell, hint: Option<(Point, Cell)>, t: Terminal) -> (steps:
    Seq<Step>)
    requires
        hint matches Some((q, qc)) ==> {
            &&& t.row == origin.row + q.row
            &&& t.col == origin.col + q.col + 1
            &&& t.color == qc.color
        },
    ensures
        steps_out(steps) == cell_out(origin, p, cell, hint),
        play(t, steps) == drawn(t, origin, p, cell),
{
    let at = screen_point(origin, p);
    let mv = Step::MoveTo(at.0 as nat, at.1 as nat);
    let paint = Step::Paint(cell.color);
    let put = Step::Put(cell.value);
    assert(Cell { value: cell.value, color: cell.color } == cell);
    match hint {
        None => {
            lemma_three_steps(mv, paint, put);
            lemma_play_three(t, mv, paint, put);
            seq![mv, paint, put]
        },
        Some((q, qc)) => {
            let moves = p.row != q.row || p.col != q.col + 1;
            let paints = cell.color != qc.color;
            lemma_three_steps(mv, paint, put);
            lemma_three_steps(paint, put, put);
            lemma_three_steps(mv, put, put);
            lemma_three_steps(put, put, put);
            lemma_play_three(t, mv, paint, put);
            lemma_play_three(t, paint, put, put);
            lemma_play_three(t, mv, put, put);
            lemma_play_three(t, put, put, put);
            if moves && paints {
                assert(cell_out(origin, p, cell, hint) =~= step_out(mv) + step_out(paint) + step_out(put));
                seq![mv, paint, put]
            } else if moves {
                assert(cell_out(origin, p, cell, hint) =~= step_out(mv) + step_out(put));
                seq![mv, put]
            } else if paints {
                assert(cell_out(origin, p, cell, hint) =~= step_out(paint) + step_out(put));
                seq![paint, put]
            } else {
                assert(cell_out(origin, p, cell, hint) =~= step_out(put));
                seq![put]
            }
        },
    }
}


/// The output that draws the first `n` of `changes` writes each of them at its
/// own row and column: played on any terminal, its steps write exactly those
/// changes over what the terminal showed, in order, and leave the cursor just after
/// the last of them in its color.
pub proof fn lemma_changes_land(origin: Point, changes: Seq<(Point, Cell)>, n: int, t: Terminal) -> (steps: Seq<
    Step,
>)
    requires
        0 <= n <= changes.len(),
    ensures
        steps_out(steps) == changes_out(origin, changes, n),
        play(t, steps).cells == with_changes(t.cells, origin, changes, n),
        n == 0 ==> play(t, steps) == t,
        n > 0 ==> {
            let last = changes[n - 1];
            &&& play(t, steps).row == screen_point(origin, last.0).0
            &&& play(t, steps).col == screen_point(origin, last.0).1 + 1
            &&& play(t, steps).color == last.1.color
        },
    decreases n,
{
    if n == 0 {
        let e = Seq::<Step>::empty();
        assert(steps_out(e) == Seq::<char>::empty());
        assert(play(t, e) == t);
        e
    } else {
        let prev = lemma_changes_land(origin, changes, n - 1, t);
        let t1 = play(t, prev);
        let hint = if n >= 2 { Some(changes[n - 2]) } else { None };
        let last = lemma_cell_lands(origin, changes[n - 1].0, changes[n - 1].1, hint, t1);
        lemma_steps_out_append(prev, last);
        lemma_play_append(t, prev, last);
        prev + last
    }
}

/// The output that draws `changes` writes each of them at its own row and column:
/// played on any terminal, its steps write exactly those changes over what the
/// terminal showed, in order.
pub proof fn lemma_draw_lands(origin: Point, changes: Seq<(Point, Cell)>, t: Terminal) -> (steps: Seq<Step>)
    ensures
        steps_out(steps) == draw_out(origin, changes),
        play(t, steps).cells == with_changes(t.cells, origin, changes, changes.len() as int),
{
    let n = changes.len() as int;
    if n == 0 {
        let e = Seq::<Step>::empty();
        assert(steps_out(e) == Seq::<char>::empty());
        assert(play(t, e) == t);
        assert(draw_out(origin, changes) == Seq::<char>::empty());
        e
    } else {
        let inner = lemma_changes_land(origin, changes, n, t);
        let off = seq![Step::Hide];
        let on = seq![Step::Show];
        lemma_three_steps(Step::Hide, Step::Hide, Step::Hide);
        lemma_three_steps(Step::Show, Step::Show, Step::Show);
        lemma_play_three(t, Step::Hide, Step::Hide, Step::Hide);
        lemma_play_three(play(t, inner), Step::Show, Step::Show, Step::Show);
        lemma_steps_out_append(off, inner);
        lemma_steps_out_append(off + inner, on);
        lemma_play_append(t, off, inner);
        lemma_play_append(t, off + inner, on);
        assert(steps_out(off + inner + on) =~= draw_out(origin, changes));
        off + inner + on
    }
}

/// The terminal row and column of cell `k`, in row order, of a canvas `cols` wide
/// whose origin is `origin`.
pub open spec fn cell_point(origin: Point, cols: int, k: int) -> (int, int) {
    screen_point(origin, point_at(k, cols))
}

proof fn lemma_points_differ(rows: int, cols: int, j: int, k: int)
    requires
        0 < cols <= u32::MAX,
        rows <= u32::MAX,
        0 <= j < k < rows * cols,
    ensures
        point_at(j, cols) != point_at(k, cols),
{
    assert(j / cols < rows && k / cols < rows && j / cols >= 0 && k / cols >= 0) by (nonlinear_arith)
        requires
            0 <= j < k < rows * cols,
            cols > 0,
    ;
    assert(j == cols * (j / cols) + j % cols && k == cols * (k / cols) + k % cols) by (nonlinear_arith)
        requires
            cols > 0,
    ;
    assert(0 <= j % cols < cols && 0 <= k % cols < cols);
    if j / cols == k / cols {
        assert(cols * (j / cols) == cols * (k / cols));
        assert(j % cols != k % cols);
        assert((j % cols) as u32 != (k % cols) as u32);
    } else {
        assert((j / cols) as u32 != (k / cols) as u32);
    }
}

proof fn lemma_changes_prefix(
    cells: Map<(int, int), Cell>,
    origin: Point,
    a: Seq<(Point, Cell)>,
    b: Seq<(Point, Cell)>,
    m: int,
)
    requires
        0 <= m <= a.len(),
        m <= b.len(),
        forall|j: int| 0 <= j < m ==> a[j] == b[j],
    ensures
        with_changes(cells, origin, a, m) == with_changes(cells, origin, b, m),
    decreases m,
{
    if m > 0 {
        lemma_changes_prefix(cells, origin, a, b, m - 1);
    }
}

proof fn lemma_diff_lands(
    origin: Point,
    front: Seq<Cell>,
    back: Seq<Cell>,
    rows: int,
    cols: int,
    cells: Map<(int, int), Cell>,
    n: int,
)
    requires
        0 < cols <= u32::MAX,
        0 <= rows <= u32::MAX,
        front.len() == rows * cols,
        back.len() == front.len(),
        0 <= n <= front.len(),
    ensures
        forall|k: int|
            0 <= k < front.len() ==> #[trigger] with_changes(
                cells,
                origin,
                diff_upto(front, back, cols, n),
                diff_upto(front, back, cols, n).len() as int,
            )[cell_point(origin, cols, k)] == if k < n && front[k] != back[k] {
                back[k]
            } else {
                cells[cell_point(origin, cols, k)]
            },
    decreases n,
{
    if n > 0 {
        lemma_diff_lands(origin, front, back, rows, cols, cells, n - 1);
        let d1 = diff_upto(front, back, cols, n - 1);
        let d = diff_upto(front, back, cols, n);
        let m1 = d1.len() as int;
        if front[n - 1] != back[n - 1] {
            assert(d == d1.push((point_at(n - 1, cols), back[n - 1])));
            lemma_changes_prefix(cells, origin, d, d1, m1);
            let w1 = with_changes(cells, origin, d1, m1);
            assert(with_changes(cells, origin, d, m1 + 1) == w1.insert(
                cell_point(origin, cols, n - 1),
                back[n - 1],
            ));
            assert forall|k: int| 0 <= k < front.len() implies #[trigger] with_changes(
                cells,
                origin,
                d,
                d.len() as int,
            )[cell_point(origin, cols, k)] == if k < n && front[k] != back[k] {
                back[k]
            } else {
                cells[cell_point(origin, cols, k)]
            } by {
                if k != n - 1 {
                    if k < n - 1 {
                        lemma_points_differ(rows, cols, k, n - 1);
                    } else {
                        lemma_points_differ(rows, cols, n - 1, k);
                    }
                    assert(w1[cell_point(origin, cols, k)] == with_changes(cells, origin, d1, m1)[cell_point(
                        origin,
                        cols,
                        k,
                    )]);
                }
            }
        } else {
            assert(d == d1);
        }
    }
}

/// Drawing a canvas leaves the terminal showing its back grid: on a terminal that
/// shows the canvas's front grid, each cell at its own row and column, the output
/// that [`Canvas::draw`] produces is that of steps after which the terminal shows
/// the back grid there, every changed cell's character written at its own row and
/// column.
pub proof fn lemma_draw_shows_back(c: Canvas, t: Terminal) -> (steps: Seq<Step>)
    requires
        c.wf(),
        forall|k: int|
            0 <= k < c.front_cells().len() ==> t.cells[#[trigger] cell_point(c.org(), c.dims().cols as int, k)]
                == c.front_cells()[k],
    ensures
        steps_out(steps) == draw_out(
            c.org(),
            diff_upto(c.front_cells(), c.back_cells(), c.dims().cols as int, c.front_cells().len() as int),
        ),
        forall|k: int|
            0 <= k < c.back_cells().len() ==> play(t, steps).cells[#[trigger] cell_point(
                c.org(),
                c.dims().cols as int,
                k,
            )] == c.back_cells()[k],
{
    c.lemma_cells();
    let cols = c.dims().cols as int;
    let rows = c.dims().rows as int;
    let len = c.front_cells().len() as int;
    let d = diff_upto(c.front_cells(), c.back_cells(), cols, len);
    let steps = lemma_draw_lands(c.org(), d, t);
    if cols == 0 {
        assert(rows * cols == 0) by (nonlinear_arith)
            requires
                cols == 0,
        ;
    } else {
        lemma_diff_lands(c.org(), c.front_cells(), c.back_cells(), rows, cols, t.cells, len);
        assert forall|k: int| 0 <= k < c.back_cells().len() implies play(t, steps).cells[#[trigger] cell_point(
            c.org(),
            cols,
            k,
        )] == c.back_cells()[k] by {
            assert(t.cells[cell_point(c.org(), cols, k)] == c.front_cells()[k]);
        }
    }
    steps
}

} // verus!

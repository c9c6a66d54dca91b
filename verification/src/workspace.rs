//! An organization of the terminal display as a collection of views.
//!
//! The views of a workspace are stacked vertically above the shared region, the
//! last row of the terminal, and share the rows between them as evenly as they
//! can: every view gets the same number of rows, and the top-most views get one
//! more each while rows remain. A view never gets fewer than [`MIN_VIEW_ROWS`]
//! rows, and a workspace always holds at least one view.
//!
//! The workspace decides where views are and which exist; the windows drawn in
//! them are created for the geometry that it gives.

use crate::color::Color;
use crate::size::{Point, Size};
use crate::writer::Writer;
use vstd::prelude::*;
use vstd::view::View as ViewTrait;

verus! {

/// Where a new view goes.
#[derive(Copy, Clone, Debug)]
pub enum Placement {
    /// At the top of the workspace.
    Top,
    /// At the bottom of the workspace.
    Bottom,
    /// Directly above the view with the given id.
    Above(u32),
    /// Directly below the view with the given id.
    Below(u32),
}

/// A view: its id and the area of the terminal it occupies.
#[derive(Copy, Clone, Debug)]
pub struct View {
    pub id: u32,
    pub origin: Point,
    pub size: Size,
}

/// The smallest size of the workspace's area.
pub const MIN_ROWS: u32 = 3;

/// The smallest number of columns of the workspace's area.
pub const MIN_COLS: u32 = 2;

/// The smallest number of rows given to a view.
pub const MIN_VIEW_ROWS: u32 = 2;

/// The rows of view `k` of `n` views that share `total` rows.
pub open spec fn rows_of(total: int, n: int, k: int) -> int {
    total / n + (if k < total % n { 1int } else { 0int })
}

/// The first row of view `k` of `n` views that share `total` rows from row `top`:
/// below the rows of the views above it.
pub open spec fn top_of(top: int, total: int, n: int, k: int) -> int {
    top + k * (total / n) + (if k < total % n { k } else { total % n })
}

/// `n` views share `total` rows with at least [`MIN_VIEW_ROWS`] each.
pub open spec fn fits(total: int, n: int) -> bool {
    n > 0 && total / n >= MIN_VIEW_ROWS
}

/// The index of the view with `id` among views with ids `ids`.
pub open spec fn index_of(ids: Seq<u32>, id: u32) -> int {
    choose|k: int| 0 <= k < ids.len() && ids[k] == id
}

/// The index at which a view goes for `place` among views with ids `ids`.
pub open spec fn place_index(ids: Seq<u32>, place: Placement) -> int {
    match place {
        Placement::Top => 0,
        Placement::Bottom => ids.len() as int,
        Placement::Above(id) => index_of(ids, id),
        Placement::Below(id) => index_of(ids, id) + 1,
    }
}

/// `place` names a view among `ids`, where it names one.
pub open spec fn place_ok(ids: Seq<u32>, place: Placement) -> bool {
    match place {
        Placement::Above(id) => ids.contains(id),
        Placement::Below(id) => ids.contains(id),
        _ => true,
    }
}

/// The ids that remain after dropping `m` views from the bottom up, passing over
/// `keep`.
pub open spec fn kept_ids(ids: Seq<u32>, keep: u32, m: nat) -> Seq<u32>
    decreases ids.len(),
{
    if ids.len() == 0 || m == 0 {
        ids
    } else if ids.last() != keep {
        kept_ids(ids.drop_last(), keep, (m - 1) as nat)
    } else {
        kept_ids(ids.drop_last(), keep, m).push(ids.last())
    }
}

/// The ids dropped when dropping `m` views from the bottom up, passing over
/// `keep`, in the order in which they are dropped.
pub open spec fn dropped_ids(ids: Seq<u32>, keep: u32, m: nat) -> Seq<u32>
    decreases ids.len(),
{
    if ids.len() == 0 || m == 0 {
        Seq::empty()
    } else if ids.last() != keep {
        seq![ids.last()] + dropped_ids(ids.drop_last(), keep, (m - 1) as nat)
    } else {
        dropped_ids(ids.drop_last(), keep, m)
    }
}

/// The terminal size as the workspace takes it: at least [`MIN_ROWS`] rows and
/// [`MIN_COLS`] columns.
pub open spec fn clamped(rows: u32, cols: u32) -> Size {
    Size {
        rows: if rows < MIN_ROWS { MIN_ROWS } else { rows },
        cols: if cols < MIN_COLS { MIN_COLS } else { cols },
    }
}

/// No id occurs twice in `ids`.
pub open spec fn distinct(ids: Seq<u32>) -> bool {
    forall|j: int, k: int| 0 <= j < k < ids.len() ==> ids[j] != ids[k]
}

/// Dropping views from the bottom up drops at most `m` of them, all but `keep`
/// where fewer than `m` are dropped, and keeps the others in their order.
proof fn lemma_kept(ids: Seq<u32>, keep: u32, m: nat)
    ensures
        kept_ids(ids, keep, m).len() + dropped_ids(ids, keep, m).len() == ids.len(),
        dropped_ids(ids, keep, m).len() <= m,
        dropped_ids(ids, keep, m).len() < m ==> forall|k: int|
            0 <= k < kept_ids(ids, keep, m).len() ==> #[trigger] kept_ids(ids, keep, m)[k] == keep,
        forall|k: int|
            0 <= k < kept_ids(ids, keep, m).len() ==> ids.contains(#[trigger] kept_ids(ids, keep, m)[k]),
        distinct(ids) ==> distinct(kept_ids(ids, keep, m)),
    decreases ids.len(),
{
    if ids.len() == 0 || m == 0 {
        assert forall|k: int| 0 <= k < kept_ids(ids, keep, m).len() implies ids.contains(#[trigger] kept_ids(ids, keep, m)[k]) by {
            assert(ids[k] == kept_ids(ids, keep, m)[k]);
        }
    } else {
        let p = ids.drop_last();
        if ids.last() != keep {
            lemma_kept(p, keep, (m - 1) as nat);
            let kept = kept_ids(ids, keep, m);
            assert forall|k: int| 0 <= k < kept.len() implies ids.contains(#[trigger] kept[k]) by {
                assert(p.contains(kept[k]));
                let j = choose|j: int| 0 <= j < p.len() && p[j] == kept[k];
                assert(ids[j] == kept[k]);
            }
            if distinct(ids) {
                assert(distinct(p));
            }
        } else {
            lemma_kept(p, keep, m);
            let kp = kept_ids(p, keep, m);
            let kept = kept_ids(ids, keep, m);
            assert(kept == kp.push(ids.last()));
            assert forall|k: int| 0 <= k < kept.len() implies ids.contains(#[trigger] kept[k]) by {
                if k < kp.len() {
                    assert(p.contains(kp[k]));
                    let j = choose|j: int| 0 <= j < p.len() && p[j] == kp[k];
                    assert(ids[j] == kept[k]);
                } else {
                    assert(ids[ids.len() - 1] == kept[k]);
                }
            }
            if distinct(ids) {
                assert(distinct(p));
                assert forall|j: int, k: int| 0 <= j < k < kept.len() implies kept[j] != kept[k] by {
                    if k == kept.len() - 1 {
                        assert(p.contains(kp[j]));
                        let i = choose|i: int| 0 <= i < p.len() && p[i] == kp[j];
                        assert(ids[i] != ids[ids.len() - 1]);
                    }
                }
            }
        }
    }
}

/// Dropping views from the bottom up keeps only ids that were there, and keeps
/// `keep` where it was there.
pub proof fn lemma_kept_ids(ids: Seq<u32>, keep: u32, m: nat)
    ensures
        forall|k: int|
            0 <= k < kept_ids(ids, keep, m).len() ==> ids.contains(#[trigger] kept_ids(ids, keep, m)[k]),
        ids.contains(keep) ==> kept_ids(ids, keep, m).contains(keep),
    decreases ids.len(),
{
    lemma_kept(ids, keep, m);
    if ids.len() == 0 || m == 0 {
    } else {
        let p = ids.drop_last();
        if ids.contains(keep) && ids.last() != keep {
            let j = choose|j: int| 0 <= j < ids.len() && ids[j] == keep;
            assert(p[j] == keep);
            lemma_kept_ids(p, keep, (m - 1) as nat);
        } else if ids.contains(keep) {
            let kp = kept_ids(p, keep, m);
            assert(kept_ids(ids, keep, m) == kp.push(ids.last()));
            assert(kept_ids(ids, keep, m)[kp.len() as int] == keep);
        }
    }
}

/// A run of distinct ids that are all `keep` holds at most one.
proof fn lemma_all_keep(ids: Seq<u32>, keep: u32)
    requires
        distinct(ids),
        forall|k: int| 0 <= k < ids.len() ==> #[trigger] ids[k] == keep,
    ensures
        ids.len() <= 1,
{
    if ids.len() > 1 {
        assert(ids[0] == keep && ids[1] == keep);
    }
}

/// A collection of views that share the terminal above the shared region.
pub struct Workspace {
    size: Size,
    shared_color: Color,
    id_seq: u32,
    views: Vec<View>,
}

impl Workspace {
    /// The size of the terminal that the workspace occupies.
    pub closed spec fn term_size(&self) -> Size {
        self.size
    }

    /// The rows shared by the views: all but the last.
    pub open spec fn view_rows(&self) -> int {
        self.term_size().rows - 1
    }

    /// The views, top to bottom.
    pub closed spec fn view_seq(&self) -> Seq<View> {
        self.views@
    }

    /// The ids of the views, top to bottom.
    pub open spec fn ids(&self) -> Seq<u32> {
        self.view_seq().map_values(|v: View| v.id)
    }

    /// The id that the next view gets.
    pub closed spec fn next_id_spec(&self) -> u32 {
        self.id_seq
    }

    /// Returns the id that the next view gets.
    pub fn next_id(&self) -> (n: u32)
        ensures
            n == self.next_id_spec(),
    {
        self.id_seq
    }

    /// The color of the shared region.
    pub closed spec fn shared_color_spec(&self) -> Color {
        self.shared_color
    }

    /// The views share the rows above the shared region as evenly as they can,
    /// with at least [`MIN_VIEW_ROWS`] each, in the full width of the terminal;
    /// their ids differ and were all handed out already.
    pub open spec fn wf(&self) -> bool {
        let n = self.view_seq().len() as int;
        &&& self.term_size().rows >= MIN_ROWS
        &&& self.term_size().cols >= MIN_COLS
        &&& fits(self.view_rows(), n)
        &&& forall|k: int|
            0 <= k < n ==> {
                &&& (#[trigger] self.view_seq()[k]).origin == Point {
                    row: top_of(0, self.view_rows(), n, k) as u32,
                    col: 0,
                }
                &&& self.view_seq()[k].size == Size {
                    rows: rows_of(self.view_rows(), n, k) as u32,
                    cols: self.term_size().cols,
                }
            }
        &&& forall|j: int, k: int| 0 <= j < k < n ==> self.ids()[j] != self.ids()[k]
        &&& forall|k: int| 0 <= k < n ==> self.ids()[k] < self.next_id_spec()
    }

    /// Recomputes the area of every view from the number of views.
    fn resize_views(&mut self)
        requires
            old(self).term_size().rows >= MIN_ROWS,
            fits(old(self).view_rows(), old(self).view_seq().len() as int),
        ensures
            final(self).term_size() == old(self).term_size(),
            final(self).next_id_spec() == old(self).next_id_spec(),
            final(self).shared_color_spec() == old(self).shared_color_spec(),
            final(self).ids() == old(self).ids(),
            final(self).view_seq().len() == old(self).view_seq().len(),
            forall|k: int|
                0 <= k < final(self).view_seq().len() ==> {
                    &&& (#[trigger] final(self).view_seq()[k]).origin == Point {
                        row: top_of(0, final(self).view_rows(), final(self).view_seq().len() as int, k) as u32,
                        col: 0,
                    }
                    &&& final(self).view_seq()[k].size == Size {
                        rows: rows_of(final(self).view_rows(), final(self).view_seq().len() as int, k) as u32,
                        cols: final(self).term_size().cols,
                    }
                },
    {
        let count = self.views.len();
        let total = self.size.rows - 1;
        proof {
            lemma_fits_count(total as int, count as int);
        }
        let c = count as u32;
        let rows = total / c;
        let residual = total % c;
        let cols = self.size.cols;
        let ghost n = count as int;
        let ghost ids = self.ids();
        let mut views: Vec<View> = Vec::new();
        let mut top: u32 = 0;
        let mut i: usize = 0;
        while i < count
            invariant
                count == self.views@.len(),
                count > 0,
                count <= total,
                n == count,
                total == self.size.rows - 1,
                rows as int == (total as int) / (count as int),
                residual as int == (total as int) % (count as int),
                cols == self.size.cols,
                ids == self.ids(),
                i <= count,
                views@.len() == i,
                top == top_of(0, total as int, n, i as int),
                top <= total,
                forall|k: int|
                    0 <= k < i ==> {
                        &&& (#[trigger] views@[k]).id == ids[k]
                        &&& views@[k].origin == Point { row: top_of(0, total as int, n, k) as u32, col: 0 }
                        &&& views@[k].size == Size { rows: rows_of(total as int, n, k) as u32, cols }
                    },
            decreases count - i,
        {
            let r = if (i as u32) < residual { rows + 1 } else { rows };
            assert(r == rows_of(total as int, n, i as int));
            proof {
                lemma_top_step(total as int, n, i as int);
                lemma_top_bound(total as int, n, i + 1);
            }
            assert(ids[i as int] == self.views@[i as int].id);
            views.push(View { id: self.views[i].id, origin: Point { row: top, col: 0 }, size: Size { rows: r, cols } });
            top = top + r;
            i = i + 1;
        }
        self.views = views;
        assert(self.ids() =~= ids);
    }
}

/// Views that fit are no more than the rows they share.
proof fn lemma_fits_count(total: int, n: int)
    requires
        total >= 0,
        fits(total, n),
    ensures
        n <= total,
{
    assert(n * (total / n) <= total) by (nonlinear_arith)
        requires
            n > 0,
            total >= 0,
    ;
    assert(n <= n * (total / n)) by (nonlinear_arith)
        requires
            n > 0,
            total / n >= 1,
    ;
}

/// The first row of the next view follows the rows of the one above it.
proof fn lemma_top_step(total: int, n: int, k: int)
    requires
        n > 0,
        total >= 0,
        0 <= k < n,
    ensures
        top_of(0, total, n, k + 1) == top_of(0, total, n, k) + rows_of(total, n, k),
{
    assert((k + 1) * (total / n) == k * (total / n) + total / n) by (nonlinear_arith);
}

/// The views above view `k` take no more than all the rows.
proof fn lemma_top_bound(total: int, n: int, k: int)
    requires
        n > 0,
        total >= 0,
        0 <= k <= n,
    ensures
        0 <= top_of(0, total, n, k) <= total,
        k == n ==> top_of(0, total, n, k) == total,
{
    let q = total / n;
    let r = total % n;
    assert(total == n * q + r) by (nonlinear_arith)
        requires
            n > 0,
            q == total / n,
            r == total % n,
    ;
    assert(0 <= r < n) by (nonlinear_arith)
        requires
            n > 0,
            r == total % n,
    ;
    assert(q >= 0) by (nonlinear_arith)
        requires
            n > 0,
            total >= 0,
            q == total / n,
    ;
    assert(k * q <= n * q) by (nonlinear_arith)
        requires
            0 <= k <= n,
            q >= 0,
    ;
    assert(k * q >= 0) by (nonlinear_arith)
        requires
            0 <= k,
            q >= 0,
    ;
    if k < r {
        assert(k * q + k <= n * q + r) by (nonlinear_arith)
            requires
                k * q <= n * q,
                k < r,
        ;
    }
}

impl Workspace {
    /// Returns the index of the view with `id`.
    fn position(&self, id: u32) -> (k: usize)
        requires
            self.wf(),
            self.ids().contains(id),
        ensures
            k == index_of(self.ids(), id),
            k < self.view_seq().len(),
            self.ids()[k as int] == id,
    {
        let mut k: usize = 0;
        while k < self.views.len()
            invariant
                self.wf(),
                self.ids().contains(id),
                k <= self.views@.len(),
                forall|j: int| 0 <= j < k ==> self.ids()[j] != id,
            decreases self.views@.len() - k,
        {
            if self.views[k].id == id {
                assert(self.ids()[k as int] == id);
                let ghost c = index_of(self.ids(), id);
                assert(0 <= c < self.ids().len() && self.ids()[c] == id);
                assert(c == k) by {
                    if c != k {
                        if c < k {
                            assert(self.ids()[c] != id);
                        } else {
                            assert(self.ids()[k as int] != self.ids()[c]);
                        }
                    }
                };
                return k;
            }
            assert(self.ids()[k as int] != id);
            k = k + 1;
        }
        assert(false);
        0
    }

    /// Creates a workspace on a terminal of `rows` and `cols`, held to at least
    /// [`MIN_ROWS`] and [`MIN_COLS`], whose shared region has `shared_color`, with a
    /// single view.
    pub fn new(rows: u32, cols: u32, shared_color: Color) -> (w: Workspace)
        ensures
            w.wf(),
            w.term_size() == clamped(rows, cols),
            w.shared_color_spec() == shared_color,
            w.ids() == seq![0u32],
            w.next_id_spec() == 1,
    {
        let size = Size {
            rows: if rows < MIN_ROWS { MIN_ROWS } else { rows },
            cols: if cols < MIN_COLS { MIN_COLS } else { cols },
        };
        let mut views: Vec<View> = Vec::new();
        views.push(View { id: 0, origin: Point { row: 0, col: 0 }, size: Size { rows: size.rows - 1, cols: size.cols } });
        let w = Workspace { size, shared_color, id_seq: 1, views };
        proof {
            let total = w.view_rows();
            assert(total / 1 == total);
            assert(total % 1 == 0);
            assert(top_of(0, total, 1, 0) == 0);
            assert(w.ids() =~= seq![0u32]);
        }
        w
    }

    /// Opens a view placed by `place`, returning its id, or `None` where the views
    /// would get fewer than [`MIN_VIEW_ROWS`] rows, in which case nothing changes.
    pub fn open_view(&mut self, place: Placement) -> (r: Option<u32>)
        requires
            old(self).wf(),
            place_ok(old(self).ids(), place),
            old(self).next_id_spec() < u32::MAX,
        ensures
            final(self).wf(),
            final(self).term_size() == old(self).term_size(),
            final(self).shared_color_spec() == old(self).shared_color_spec(),
            r is None <==> !fits(old(self).view_rows(), old(self).view_seq().len() + 1int),
            r is None ==> final(self).view_seq() == old(self).view_seq() && final(self).next_id_spec()
                == old(self).next_id_spec(),
            r matches Some(id) ==> {
                &&& id == old(self).next_id_spec()
                &&& final(self).next_id_spec() == id + 1
                &&& final(self).ids() == old(self).ids().insert(place_index(old(self).ids(), place), id)
            },
    {
        let n = self.views.len();
        let total = self.size.rows - 1;
        proof {
            lemma_fits_count(total as int, n as int);
        }
        let c = (n + 1) as u32;
        let rows = total / c;
        if rows < MIN_VIEW_ROWS {
            return None;
        }
        let index = match place {
            Placement::Top => 0,
            Placement::Bottom => n,
            Placement::Above(id) => self.position(id),
            Placement::Below(id) => self.position(id) + 1,
        };
        let id = self.id_seq;
        self.id_seq = self.id_seq + 1;
        let ghost ids = self.ids();
        self.views.insert(index, View { id, origin: Point { row: 0, col: 0 }, size: Size { rows: 0, cols: 0 } });
        assert(self.ids() =~= ids.insert(index as int, id));
        self.resize_views();
        proof {
            let new_ids = self.ids();
            assert forall|j: int, k: int| 0 <= j < k < new_ids.len() implies new_ids[j] != new_ids[k] by {
                if j != index && k != index {
                    let oj = if j < index { j } else { j - 1 };
                    let ok = if k < index { k } else { k - 1 };
                    assert(new_ids[j] == ids[oj]);
                    assert(new_ids[k] == ids[ok]);
                } else if j == index {
                    let ok = if k < index { k } else { k - 1 };
                    assert(new_ids[k] == ids[ok]);
                } else {
                    let oj = if j < index { j } else { j - 1 };
                    assert(new_ids[j] == ids[oj]);
                }
            }
            assert forall|k: int| 0 <= k < new_ids.len() implies new_ids[k] < self.next_id_spec() by {
                if k != index {
                    let ok = if k < index { k } else { k - 1 };
                    assert(new_ids[k] == ids[ok]);
                }
            }
        }
        Some(id)
    }

    /// Closes the view with `id`, returning the id of the view above it, or of the
    /// top view where it was at the top, or `None` where it is the only view, in
    /// which case nothing changes.
    pub fn close_view(&mut self, id: u32) -> (r: Option<u32>)
        requires
            old(self).wf(),
            old(self).view_seq().len() > 1 ==> old(self).ids().contains(id),
        ensures
            final(self).wf(),
            final(self).term_size() == old(self).term_size(),
            final(self).shared_color_spec() == old(self).shared_color_spec(),
            final(self).next_id_spec() == old(self).next_id_spec(),
            r is None <==> old(self).view_seq().len() == 1,
            r is None ==> final(self).view_seq() == old(self).view_seq(),
            r is Some ==> {
                let i = index_of(old(self).ids(), id);
                &&& final(self).ids() == old(self).ids().remove(i)
                &&& r == Some(final(self).ids()[if i > 0 { i - 1 } else { 0 }])
            },
    {
        if self.views.len() > 1 {
            let i = self.position(id);
            let ghost ids = self.ids();
            let total = self.size.rows - 1;
            proof {
                let n = ids.len() as int;
                assert((total as int) / (n - 1) >= (total as int) / n) by (nonlinear_arith)
                    requires
                        n > 1,
                        total >= 0,
                ;
            }
            self.views.remove(i);
            assert(self.ids() =~= ids.remove(i as int));
            self.resize_views();
            proof {
                let new_ids = self.ids();
                assert forall|j: int, k: int| 0 <= j < k < new_ids.len() implies new_ids[j] != new_ids[k] by {
                    let oj = if j < i { j } else { j + 1 };
                    let ok = if k < i { k } else { k + 1 };
                    assert(new_ids[j] == ids[oj]);
                    assert(new_ids[k] == ids[ok]);
                }
                assert forall|k: int| 0 <= k < new_ids.len() implies new_ids[k] < self.next_id_spec() by {
                    let ok = if k < i { k } else { k + 1 };
                    assert(new_ids[k] == ids[ok]);
                }
            }
            let above = if i > 0 { i - 1 } else { 0 };
            Some(self.views[above].id)
        } else {
            None
        }
    }

    /// Returns the origin and size of the shared region: the last row.
    pub fn shared_region(&self) -> (r: (Point, Size))
        requires
            self.wf(),
        ensures
            r.0 == (Point { row: (self.term_size().rows - 1) as u32, col: 0 }),
            r.1 == (Size { rows: 1, cols: self.term_size().cols }),
    {
        (Point { row: self.size.rows - 1, col: 0 }, Size { rows: 1, cols: self.size.cols })
    }

    /// Returns the size of the terminal that the workspace occupies.
    pub fn size(&self) -> (s: Size)
        ensures
            s == self.term_size(),
    {
        self.size
    }

    /// Returns the views, top to bottom.
    pub fn views(&self) -> (v: &Vec<View>)
        ensures
            v@ == self.view_seq(),
    {
        &self.views
    }

    /// Returns the top view.
    pub fn top_view(&self) -> (v: &View)
        requires
            self.wf(),
        ensures
            *v == self.view_seq()[0],
    {
        &self.views[0]
    }

    /// Returns the bottom view.
    pub fn bottom_view(&self) -> (v: &View)
        requires
            self.wf(),
        ensures
            *v == self.view_seq().last(),
    {
        &self.views[self.views.len() - 1]
    }

    /// Returns the view above the one with `id`, wrapping around to the bottom; a
    /// single view is above itself.
    pub fn above_view(&self, id: u32) -> (v: &View)
        requires
            self.wf(),
            self.ids().contains(id),
        ensures
            ({
                let i = index_of(self.ids(), id);
                let n = self.view_seq().len() as int;
                *v == self.view_seq()[if i == 0 { n - 1 } else { i - 1 }]
            }),
    {
        let i = self.position(id);
        let n = self.views.len();
        let j = if i == 0 { n - 1 } else { i - 1 };
        &self.views[j]
    }

    /// Returns the view below the one with `id`, wrapping around to the top; a
    /// single view is below itself.
    pub fn below_view(&self, id: u32) -> (v: &View)
        requires
            self.wf(),
            self.ids().contains(id),
        ensures
            ({
                let i = index_of(self.ids(), id);
                let n = self.view_seq().len() as int;
                *v == self.view_seq()[if i + 1 == n { 0 } else { i + 1 }]
            }),
    {
        let i = self.position(id);
        let n = self.views.len();
        let j = if i + 1 == n { 0 } else { i + 1 };
        &self.views[j]
    }

    /// Returns the view with `id`, which must exist.
    pub fn get_view(&self, id: u32) -> (v: &View)
        requires
            self.wf(),
            self.ids().contains(id),
        ensures
            *v == self.view_seq()[index_of(self.ids(), id)],
            v.id == id,
    {
        let i = self.position(id);
        &self.views[i]
    }

    /// Returns the view with `id`, or `None` where there is none.
    pub fn find_view(&self, id: u32) -> (r: Option<&View>)
        requires
            self.wf(),
        ensures
            self.ids().contains(id) ==> r == Some(&self.view_seq()[index_of(self.ids(), id)]),
            !self.ids().contains(id) ==> r is None,
    {
        let mut k: usize = 0;
        while k < self.views.len()
            invariant
                self.wf(),
                k <= self.views@.len(),
                forall|j: int| 0 <= j < k ==> self.ids()[j] != id,
            decreases self.views@.len() - k,
        {
            if self.views[k].id == id {
                assert(self.ids()[k as int] == id);
                assert(self.ids().contains(id));
                let i = self.position(id);
                return Some(&self.views[i]);
            }
            assert(self.ids()[k as int] != id);
            k = k + 1;
        }
        None
    }
}

/// The point on the canvas of `view`, the view less its last row, at the terminal
/// point `p`, if the canvas holds it.
pub open spec fn point_on_view(view: View, p: Point) -> Option<Point> {
    if view.origin.row <= p.row < view.origin.row + view.size.rows - 1 && view.origin.col <= p.col
        < view.origin.col + view.size.cols {
        Some(Point { row: (p.row - view.origin.row) as u32, col: (p.col - view.origin.col) as u32 })
    } else {
        None
    }
}

/// The first view among `views` whose canvas holds `p`, with the point on it.
pub open spec fn locate_in(views: Seq<View>, p: Point) -> Option<(u32, Point)>
    decreases views.len(),
{
    if views.len() == 0 {
        None
    } else {
        match point_on_view(views[0], p) {
            Some(q) => Some((views[0].id, q)),
            None => locate_in(views.drop_first(), p),
        }
    }
}

impl Workspace {
    /// Returns the id of the view whose canvas holds the terminal point `p`, with
    /// the point on that canvas, or `None` where none does.
    pub fn locate_view(&self, p: Point) -> (r: Option<(u32, Point)>)
        ensures
            r == locate_in(self.view_seq(), p),
    {
        let mut k: usize = 0;
        assert(self.view_seq().skip(0) =~= self.view_seq());
        while k < self.views.len()
            invariant
                k <= self.views@.len(),
                locate_in(self.view_seq(), p) == locate_in(self.view_seq().skip(k as int), p),
            decreases self.views@.len() - k,
        {
            let v = self.views[k];
            let ghost rest = self.view_seq().skip(k as int);
            assert(rest[0] == v);
            assert(rest.drop_first() =~= self.view_seq().skip(k + 1));
            if v.origin.row <= p.row && (p.row as u64) + 1 < (v.origin.row as u64) + (v.size.rows as u64)
                && v.origin.col <= p.col && (p.col as u64) < (v.origin.col as u64) + (v.size.cols as u64) {
                return Some((v.id, Point { row: p.row - v.origin.row, col: p.col - v.origin.col }));
            }
            k = k + 1;
        }
        None
    }

    /// Returns the output that clears the shared region.
    pub fn clear_shared(&self) -> (out: String)
        requires
            self.wf(),
        ensures
            out@ == crate::ansi::cursor_seq((self.term_size().rows - 1) as nat, 0) + crate::ansi::color_seq(
                self.shared_color_spec(),
            ) + Seq::new(self.term_size().cols as nat, |i: int| ' '),
    {
        let mut w = Writer::new_at(Point { row: self.size.rows - 1, col: 0 });
        w.set_color(self.shared_color);
        let mut blank = String::new();
        let mut i: u32 = 0;
        while i < self.size.cols
            invariant
                i <= self.size.cols,
                blank@ == Seq::new(i as nat, |j: int| ' '),
            decreases self.size.cols - i,
        {
            crate::strings::push_char(&mut blank, ' ');
            i = i + 1;
            assert(blank@ =~= Seq::new(i as nat, |j: int| ' '));
        }
        w.write_str(blank.as_str());
        w.send()
    }
}

impl Workspace {
    /// Takes the terminal size `rows` and `cols`, held to at least [`MIN_ROWS`]
    /// and [`MIN_COLS`]. Where it changed, the views are resized, and where they
    /// would get fewer than [`MIN_VIEW_ROWS`] rows, as many as needed are closed
    /// from the bottom up, passing over `keep_id`; their ids are returned, in that
    /// order. `None` means that the size did not change.
    pub fn resize(&mut self, rows: u32, cols: u32, keep_id: u32) -> (r: Option<Vec<u32>>)
        requires
            old(self).wf(),
        ensures
            final(self).wf(),
            final(self).term_size() == clamped(rows, cols),
            final(self).shared_color_spec() == old(self).shared_color_spec(),
            final(self).next_id_spec() == old(self).next_id_spec(),
            r is None <==> clamped(rows, cols) == old(self).term_size(),
            r is None ==> final(self).view_seq() == old(self).view_seq(),
            r matches Some(removed) ==> {
                let total = clamped(rows, cols).rows - 1;
                let n = old(self).view_seq().len() as int;
                let count = if total / n < MIN_VIEW_ROWS { total / (MIN_VIEW_ROWS as int) } else { n };
                let m = (n - count) as nat;
                &&& final(self).ids() == kept_ids(old(self).ids(), keep_id, m)
                &&& removed@ == dropped_ids(old(self).ids(), keep_id, m)
            },
    {
        let size = Size {
            rows: if rows < MIN_ROWS { MIN_ROWS } else { rows },
            cols: if cols < MIN_COLS { MIN_COLS } else { cols },
        };
        if size == self.size {
            return None;
        }
        let ghost ids = self.ids();
        assert(distinct(ids));
        let n = self.views.len();
        let total = size.rows - 1;
        proof {
            lemma_fits_count((self.size.rows - 1) as int, n as int);
        }
        let per = total / (n as u32);
        let count: usize = if per < MIN_VIEW_ROWS {
            (total / MIN_VIEW_ROWS) as usize
        } else {
            n
        };
        proof {
            if per < MIN_VIEW_ROWS {
                assert((total as int) < 2 * (n as int)) by (nonlinear_arith)
                    requires
                        (total as int) / (n as int) < 2,
                        n > 0,
                        total >= 0,
                ;
            }
        }
        let m: usize = n - count;
        self.size = size;
        let mut removed: Vec<u32> = Vec::new();
        let mut i: usize = n;
        let ghost mut kept: Seq<u32> = Seq::empty();
        assert(ids.subrange(0, n as int) =~= ids);
        assert(ids =~= ids.subrange(0, n as int) + kept);
        while i > 0
            invariant
                i <= n,
                removed@.len() <= m,
                self.ids() == ids.subrange(0, i as int) + kept,
                self.views@.len() == i + kept.len(),
                kept_ids(ids, keep_id, m as nat) == kept_ids(
                    ids.subrange(0, i as int),
                    keep_id,
                    (m - removed@.len()) as nat,
                ) + kept,
                dropped_ids(ids, keep_id, m as nat) == removed@ + dropped_ids(
                    ids.subrange(0, i as int),
                    keep_id,
                    (m - removed@.len()) as nat,
                ),
                self.size == size,
                ids.len() == n,
                self.id_seq == old(self).id_seq,
                self.shared_color == old(self).shared_color,
                forall|k: int| 0 <= k < ids.len() ==> ids[k] < self.id_seq,
                distinct(ids),
            decreases i,
        {
            let ghost pre = ids.subrange(0, i as int);
            let ghost budget = (m - removed@.len()) as nat;
            assert(pre.drop_last() =~= ids.subrange(0, i - 1));
            assert(self.ids()[i - 1] == pre.last());
            let id = self.views[i - 1].id;
            if removed.len() < m && id != keep_id {
                let ghost before = self.ids();
                let ghost vs = self.views@;
                self.views.remove(i - 1);
                removed.push(id);
                assert(self.views@ == vs.remove(i - 1));
                assert(self.ids() =~= before.remove(i - 1));
                assert(before.remove(i - 1) =~= ids.subrange(0, i - 1) + kept);
                assert(removed@ =~= (removed@.drop_last()).push(id));
                assert(seq![pre.last()] + dropped_ids(pre.drop_last(), keep_id, (budget - 1) as nat) == dropped_ids(pre, keep_id, budget));
                assert(removed@.drop_last() + dropped_ids(pre, keep_id, budget) =~= removed@ + dropped_ids(pre.drop_last(), keep_id, (budget - 1) as nat));
            } else {
                proof {
                    if budget == 0 {
                        assert(kept_ids(pre, keep_id, budget) == pre);
                        assert(kept_ids(pre.drop_last(), keep_id, budget) == pre.drop_last());
                    }
                    assert(kept_ids(pre, keep_id, budget) + kept =~= kept_ids(pre.drop_last(), keep_id, budget) + seq![pre.last()] + kept);
                    assert(kept_ids(pre, keep_id, budget) == kept_ids(pre.drop_last(), keep_id, budget).push(pre.last()) || budget == 0);
                    kept = seq![pre.last()] + kept;
                    assert(self.ids() =~= ids.subrange(0, i - 1) + kept);
                }
            }
            i = i - 1;
        }
        proof {
            assert(ids.subrange(0, 0) =~= Seq::<u32>::empty());
            assert(self.ids() =~= kept);
            lemma_kept(ids, keep_id, m as nat);
            let len = kept.len() as int;
            let t = total as int;
            assert(len >= count);
            if removed@.len() < m {
                lemma_all_keep(kept, keep_id);
            }
            assert(len <= count);
            assert(len >= 1);
            if per < MIN_VIEW_ROWS {
                assert(t / len >= 2) by (nonlinear_arith)
                    requires
                        1 <= len <= t / 2,
                        t >= 0,
                ;
            } else {
                assert(t / len >= t / (n as int)) by (nonlinear_arith)
                    requires
                        1 <= len <= n,
                        t >= 0,
                ;
            }
        }
        self.resize_views();
        proof {
            let new_ids = self.ids();
            assert forall|k: int| 0 <= k < new_ids.len() implies new_ids[k] < self.next_id_spec() by {
                assert(ids.contains(new_ids[k]));
                let j = choose|j: int| 0 <= j < ids.len() && ids[j] == new_ids[k];
            }
        }
        Some(removed)
    }
}

impl Workspace {
    /// A workspace always holds at least one view, and its views tile the rows above
    /// the shared region: each starts where the one above it ends, the first at the
    /// top and the last ending at the shared region; each has at least
    /// [`MIN_VIEW_ROWS`] rows, and no view has more rows than one above it, nor more
    /// than one row more than any other.
    pub proof fn lemma_views_tile(&self)
        requires
            self.wf(),
        ensures
            self.view_seq().len() >= 1,
            self.view_seq()[0].origin.row == 0,
            forall|k: int|
                0 <= k < self.view_seq().len() - 1 ==> #[trigger] self.view_seq()[k].origin.row
                    + self.view_seq()[k].size.rows == self.view_seq()[k + 1].origin.row,
            self.view_seq().last().origin.row + self.view_seq().last().size.rows == self.view_rows(),
            forall|k: int| 0 <= k < self.view_seq().len() ==> #[trigger] self.view_seq()[k].size.rows >= MIN_VIEW_ROWS,
            forall|j: int, k: int|
                #![trigger self.view_seq()[j], self.view_seq()[k]]
                0 <= j <= k < self.view_seq().len() ==> self.view_seq()[k].size.rows <= self.view_seq()[j].size.rows
                    <= self.view_seq()[k].size.rows + 1,
    {
        let n = self.view_seq().len() as int;
        let t = self.view_rows();
        assert(self.view_seq()[0].origin.row == top_of(0, t, n, 0));
        assert forall|k: int| 0 <= k < n - 1 implies #[trigger] self.view_seq()[k].origin.row
            + self.view_seq()[k].size.rows == self.view_seq()[k + 1].origin.row by {
            lemma_top_step(t, n, k);
            lemma_top_bound(t, n, k + 1);
            let a = self.view_seq()[k];
            let b = self.view_seq()[k + 1];
        }
        lemma_top_step(t, n, n - 1);
        lemma_top_bound(t, n, n);
        lemma_top_bound(t, n, n - 1);
        assert(self.view_seq().last() == self.view_seq()[n - 1]);
    }
}

} // verus!

//! Questions asked of editors in the environment: their sources, whether they
//! need saving, and which of them no window shows.

use crate::editor::Editor;
use crate::env::{keys_of, lemma_pairs_map, Environment};
use crate::source::{source_text, Source};
use crate::strings::to_string;
use vstd::prelude::*;

verus! {

/// The editor `e` reads from a file and has changes not yet saved.
pub open spec fn dirty_file(e: Editor) -> bool {
    e.source_of() is File && e.clock() != e.commit_clock()
}

/// Some view of `env` shows the editor `id`.
pub open spec fn shown(env: Environment, id: u32) -> bool {
    exists|v: u32| #[trigger] env.attached().contains_key(v) && env.attached()[v] == id
}

/// The editor `id` of `env` is offered for switching: no view shows it, and it
/// reads from a file, or it is ephemeral exactly when `ephemerals` holds.
pub open spec fn offered(env: Environment, id: u32, ephemerals: bool) -> bool {
    let source = env.editors_map()[id].source_of();
    !shown(env, id) && (source is File || (source is Ephemeral) == ephemerals)
}

/// The ids of the editors of `env` offered for switching, in increasing order.
pub open spec fn unattached(env: Environment, ephemerals: bool) -> Seq<u32> {
    env.editor_ids().filter(|id: u32| offered(env, id, ephemerals))
}

/// The ids of the editors of `env` that read from files and have unsaved
/// changes, in increasing order.
pub open spec fn dirty_ids(env: Environment) -> Seq<u32> {
    env.editor_ids().filter(|id: u32| dirty_file(env.editors_map()[id]))
}

/// The path of the file that `source` reads from, or the empty path.
pub open spec fn path_text(source: Source) -> Seq<char> {
    match source {
        Source::File(path, _) => path@,
        _ => Seq::empty(),
    }
}

/// Returns the path of the file that `editor` reads from, or the empty path.
pub fn path_of(editor: &Editor) -> (p: String)
    ensures
        p@ == path_text(editor.source_of()),
{
    match editor.source() {
        Source::File(path, _) => to_string(path.as_str()),
        _ => String::new(),
    }
}

/// Returns how the source of `editor` is shown, with the home directory `home`.
pub fn source_of(editor: &Editor, home: &str) -> (s: String)
    ensures
        s@ == source_text(editor.source_of(), home@),
{
    editor.source().text(home)
}

/// Returns `true` if `editor` reads from a file.
pub fn is_file(editor: &Editor) -> (b: bool)
    ensures
        b == (editor.source_of() is File),
{
    editor.source().is_file()
}

/// Returns `true` if `editor` is ephemeral.
pub fn is_ephemeral(editor: &Editor) -> (b: bool)
    ensures
        b == (editor.source_of() is Ephemeral),
{
    editor.source().is_ephemeral()
}

/// Returns `true` if `editor` reads from a file and has unsaved changes.
pub fn is_dirty_file(editor: &Editor) -> (b: bool)
    ensures
        b == dirty_file(*editor),
{
    editor.source().is_file() && editor.is_dirty()
}

/// One step of a filter: the filter of `s` with `x` pushed.
proof fn lemma_filter_push(s: Seq<u32>, x: u32, pred: spec_fn(u32) -> bool)
    ensures
        s.push(x).filter(pred) == if pred(x) {
            s.filter(pred).push(x)
        } else {
            s.filter(pred)
        },
{
    reveal(Seq::filter);
    assert(s.push(x).drop_last() =~= s);
}

/// Returns the ids of the editors that read from files and have unsaved changes,
/// in increasing order.
pub fn dirty_editors(env: &Environment) -> (r: Vec<u32>)
    requires
        env.wf(),
    ensures
        r@ == dirty_ids(*env),
{
    let m = env.editor_map();
    let ghost pred = |id: u32| dirty_file(env.editors_map()[id]);
    let mut r: Vec<u32> = Vec::new();
    let mut k: usize = 0;
    proof {
        lemma_pairs_map(m@);
        assert(keys_of(m@).take(0) =~= Seq::<u32>::empty());
        reveal(Seq::filter);
    }
    while k < m.len()
        invariant
            env.wf(),
            pairs_map_of(m@, *env),
            k <= m@.len(),
            r@ == keys_of(m@).take(k as int).filter(pred),
            pred == (|id: u32| dirty_file(env.editors_map()[id])),
        decreases m@.len() - k,
    {
        let (id, e) = (&m[k].0, &m[k].1);
        proof {
            lemma_filter_push(keys_of(m@).take(k as int), *id, pred);
            assert(keys_of(m@).take(k + 1) =~= keys_of(m@).take(k as int).push(*id));
            assert(env.editors_map()[*id] == *e);
        }
        if is_dirty_file(e) {
            r.push(*id);
        }
        k = k + 1;
    }
    proof {
        assert(keys_of(m@).take(m@.len() as int) =~= env.editor_ids());
    }
    r
}

/// The entries `m` are the editors of `env`: each is what the map holds for its
/// id, and their ids are the editor ids.
pub open spec fn pairs_map_of(m: Seq<(u32, Editor)>, env: Environment) -> bool {
    &&& keys_of(m) == env.editor_ids()
    &&& forall|i: int| 0 <= i < m.len() ==> #[trigger] env.editors_map()[m[i].0] == m[i].1
}

/// Returns the ids of the editors offered for switching, in increasing order: those
/// that no window shows and that read from files, or that are ephemeral exactly
/// when `ephemerals` holds.
pub fn unattached_editors(env: &Environment, ephemerals: bool) -> (r: Vec<u32>)
    requires
        env.wf(),
    ensures
        r@ == unattached(*env, ephemerals),
{
    let m = env.editor_map();
    let ghost pred = |id: u32| offered(*env, id, ephemerals);
    let mut r: Vec<u32> = Vec::new();
    let mut k: usize = 0;
    proof {
        lemma_pairs_map(m@);
        assert(keys_of(m@).take(0) =~= Seq::<u32>::empty());
        reveal(Seq::filter);
    }
    while k < m.len()
        invariant
            env.wf(),
            pairs_map_of(m@, *env),
            k <= m@.len(),
            r@ == keys_of(m@).take(k as int).filter(pred),
            pred == (|id: u32| offered(*env, id, ephemerals)),
        decreases m@.len() - k,
    {
        let (id, e) = (&m[k].0, &m[k].1);
        proof {
            lemma_filter_push(keys_of(m@).take(k as int), *id, pred);
            assert(keys_of(m@).take(k + 1) =~= keys_of(m@).take(k as int).push(*id));
            assert(env.editors_map()[*id] == *e);
        }
        let unshown = env.find_editor_view_id(*id).is_none();
        if unshown && (is_file(e) || is_ephemeral(e) == ephemerals) {
            r.push(*id);
        }
        k = k + 1;
    }
    proof {
        assert(keys_of(m@).take(m@.len() as int) =~= env.editor_ids());
    }
    r
}

/// The editors offered for switching are listed in increasing order of id.
pub proof fn lemma_unattached_increasing(env: Environment, ephemerals: bool)
    requires
        env.wf(),
    ensures
        forall|i: int, j: int|
            0 <= i < j < unattached(env, ephemerals).len() ==> unattached(env, ephemerals)[i] < unattached(
                env,
                ephemerals,
            )[j],
{
    let pred = |id: u32| offered(env, id, ephemerals);
    env.lemma_increasing();
    lemma_filter_increasing(env.editor_ids(), pred);
}

/// Filtering an increasing sequence keeps it increasing.
proof fn lemma_filter_increasing(s: Seq<u32>, pred: spec_fn(u32) -> bool)
    requires
        forall|i: int, j: int| 0 <= i < j < s.len() ==> s[i] < s[j],
    ensures
        forall|i: int, j: int| 0 <= i < j < s.filter(pred).len() ==> s.filter(pred)[i] < s.filter(pred)[j],
        forall|i: int| 0 <= i < s.filter(pred).len() ==> s.contains(#[trigger] s.filter(pred)[i]),
    decreases s.len(),
{
    reveal(Seq::filter);
    if s.len() > 0 {
        let p = s.drop_last();
        lemma_filter_increasing(p, pred);
        let f = s.filter(pred);
        let fp = p.filter(pred);
        assert forall|i: int| 0 <= i < fp.len() implies fp[i] < s.last() by {
            assert(p.contains(fp[i]));
            let k = choose|k: int| 0 <= k < p.len() && p[k] == fp[i];
            assert(s[k] == p[k]);
        }
        assert forall|i: int| 0 <= i < f.len() implies s.contains(#[trigger] f[i]) by {
            if i < fp.len() {
                assert(f[i] == fp[i]);
                assert(p.contains(fp[i]));
                let k = choose|k: int| 0 <= k < p.len() && p[k] == fp[i];
                assert(s[k] == fp[i]);
            } else {
                assert(s[s.len() - 1] == f[i]);
            }
        }
    }
}

/// `x` is the editor that comes after `id` among `u`: the first id above `id`,
/// or the first of all where none is above it.
pub open spec fn next_of(u: Seq<u32>, id: u32, x: u32) -> bool {
    exists|k: int|
        0 <= k < u.len() && u[k] == x && ((u[k] > id && forall|j: int| 0 <= j < k ==> u[j] <= id) || (k == 0
            && forall|j: int| 0 <= j < u.len() ==> u[j] <= id))
}

/// `x` is the editor that comes before `id` among `u`: the last id below `id`, or
/// the last of all where none is below it.
pub open spec fn prev_of(u: Seq<u32>, id: u32, x: u32) -> bool {
    exists|k: int|
        0 <= k < u.len() && u[k] == x && ((u[k] < id && forall|j: int| k < j < u.len() ==> u[j] >= id) || (k
            == u.len() - 1 && forall|j: int| 0 <= j < u.len() ==> u[j] >= id))
}

/// Returns the id of the editor to switch the active view to next: among those
/// offered, ephemerals aside, the first above the active editor's id, or the
/// first of all; `None` where none is offered.
pub fn next_unattached_editor(env: &Environment) -> (r: Option<u32>)
    requires
        env.wf(),
    ensures
        r is None <==> unattached(*env, false).len() == 0,
        r matches Some(x) ==> next_of(unattached(*env, false), env.attached()[env.active()], x),
{
    let editors = unattached_editors(env, false);
    if editors.len() == 0 {
        return None;
    }
    let id = env.get_active_editor_id();
    let mut k: usize = 0;
    while k < editors.len()
        invariant
            k <= editors@.len(),
            editors@ == unattached(*env, false),
            id == env.attached()[env.active()],
            forall|j: int| 0 <= j < k ==> editors@[j] <= id,
        decreases editors@.len() - k,
    {
        if editors[k] > id {
            proof {
                assert(next_of(editors@, id, editors@[k as int]));
            }
            return Some(editors[k]);
        }
        k = k + 1;
    }
    proof {
        assert(next_of(editors@, id, editors@[0]));
    }
    Some(editors[0])
}

/// Returns the id of the editor to switch the active view to before: among those
/// offered, ephemerals aside, the last below the active editor's id, or the last
/// of all; `None` where none is offered.
pub fn prev_unattached_editor(env: &Environment) -> (r: Option<u32>)
    requires
        env.wf(),
    ensures
        r is None <==> unattached(*env, false).len() == 0,
        r matches Some(x) ==> prev_of(unattached(*env, false), env.attached()[env.active()], x),
{
    let editors = unattached_editors(env, false);
    let n = editors.len();
    if n == 0 {
        return None;
    }
    let id = env.get_active_editor_id();
    let mut k: usize = n;
    while k > 0
        invariant
            k <= n == editors@.len(),
            editors@ == unattached(*env, false),
            id == env.attached()[env.active()],
            forall|j: int| k <= j < n ==> editors@[j] >= id,
        decreases k,
    {
        if editors[k - 1] < id {
            proof {
                assert(prev_of(editors@, id, editors@[k - 1]));
            }
            return Some(editors[k - 1]);
        }
        k = k - 1;
    }
    proof {
        assert(prev_of(editors@, id, editors@[n - 1]));
    }
    Some(editors[n - 1])
}

} // verus!

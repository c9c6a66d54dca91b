//! The editing environment: the editors, the windows of the workspace, and which
//! editor each window shows.
//!
//! Every window shows exactly one editor, no editor is shown by two windows, and
//! the builtin _scratch_ editor is never removed. Drawing the windows is the
//! caller's part; the environment decides what they show.

use crate::clip::Clipboard;
use crate::editor::Editor;
use crate::source::{source_text, Source};
use crate::strings::str_eq;
use crate::workspace::{clamped, fits, index_of, kept_ids, lemma_kept_ids, place_index, place_ok, Placement, Workspace, MIN_VIEW_ROWS};
use vstd::prelude::*;

verus! {

/// Which view to make active.
#[derive(Copy, Clone, Debug)]
pub enum Focus {
    /// The view at the top of the workspace.
    Top,
    /// The view at the bottom of the workspace.
    Bottom,
    /// The view above the active one, wrapping around to the bottom.
    Above,
    /// The view below the active one, wrapping around to the top.
    Below,
    /// The view with the given id.
    To(u32),
}

/// The id of the builtin _scratch_ editor, which is never removed.
pub const SCRATCH_ID: u32 = 0;

/// The ids of the entries `s`.
pub open spec fn keys_of<V>(s: Seq<(u32, V)>) -> Seq<u32> {
    s.map_values(|e: (u32, V)| e.0)
}

/// No id occurs twice among the entries `s`.
pub open spec fn unique<V>(s: Seq<(u32, V)>) -> bool {
    forall|i: int, j: int| 0 <= i < j < s.len() ==> s[i].0 != s[j].0
}

/// The entries `s` as a map from their ids.
pub open spec fn pairs_map<V>(s: Seq<(u32, V)>) -> Map<u32, V> {
    Map::new(
        |k: u32| exists|i: int| 0 <= i < s.len() && s[i].0 == k,
        |k: u32| s[choose|i: int| 0 <= i < s.len() && s[i].0 == k].1,
    )
}

/// With unique ids, each entry is what the map holds for its id, and the map holds
/// nothing else.
pub proof fn lemma_pairs_map<V>(s: Seq<(u32, V)>)
    requires
        unique(s),
    ensures
        forall|i: int| 0 <= i < s.len() ==> #[trigger] pairs_map(s).contains_key(s[i].0) && pairs_map(s)[s[i].0]
            == s[i].1,
        forall|k: u32| #[trigger] pairs_map(s).contains_key(k) <==> keys_of(s).contains(k),
{
    assert forall|i: int| 0 <= i < s.len() implies #[trigger] pairs_map(s).contains_key(s[i].0) && pairs_map(s)[s[i].0]
        == s[i].1 by {
        let k = s[i].0;
        assert(0 <= i < s.len() && s[i].0 == k);
        let j = choose|j: int| 0 <= j < s.len() && s[j].0 == k;
        if j != i {
            if j < i {
                assert(s[j].0 != s[i].0);
            } else {
                assert(s[i].0 != s[j].0);
            }
        }
    }
    assert forall|k: u32| #[trigger] pairs_map(s).contains_key(k) <==> keys_of(s).contains(k) by {
        if pairs_map(s).contains_key(k) {
            let i = choose|i: int| 0 <= i < s.len() && s[i].0 == k;
            assert(keys_of(s)[i] == k);
        }
        if keys_of(s).contains(k) {
            let i = choose|i: int| 0 <= i < keys_of(s).len() && keys_of(s)[i] == k;
            assert(s[i].0 == k);
        }
    }
}

/// Adding an entry with a new id keeps the ids unique and adds it to the map.
proof fn lemma_pairs_push<V>(s: Seq<(u32, V)>, k: u32, v: V)
    requires
        unique(s),
        !keys_of(s).contains(k),
    ensures
        unique(s.push((k, v))),
        pairs_map(s.push((k, v))) == pairs_map(s).insert(k, v),
        keys_of(s.push((k, v))) == keys_of(s).push(k),
{
    let t = s.push((k, v));
    assert forall|i: int, j: int| 0 <= i < j < t.len() implies t[i].0 != t[j].0 by {
        if j == s.len() {
            assert(keys_of(s)[i] == s[i].0);
        }
    }
    lemma_pairs_map(s);
    lemma_pairs_map(t);
    assert(keys_of(t) =~= keys_of(s).push(k));
    assert forall|x: u32| #[trigger] pairs_map(t).contains_key(x) == pairs_map(s).insert(k, v).contains_key(x) by {
        if keys_of(t).contains(x) && x != k {
            let i = choose|i: int| 0 <= i < keys_of(t).len() && keys_of(t)[i] == x;
            assert(keys_of(s)[i] == x);
        }
        if keys_of(s).contains(x) {
            let i = choose|i: int| 0 <= i < keys_of(s).len() && keys_of(s)[i] == x;
            assert(keys_of(t)[i] == x);
        }
        assert(keys_of(t)[s.len() as int] == k);
    }
    assert forall|x: u32| #[trigger] pairs_map(t).contains_key(x) implies pairs_map(t)[x] == pairs_map(s).insert(
        k,
        v,
    )[x] by {
        let i = choose|i: int| 0 <= i < keys_of(t).len() && keys_of(t)[i] == x;
        assert(t[i].0 == x);
        if i < s.len() {
            assert(s[i].0 == x);
        }
    }
    assert(pairs_map(t) =~= pairs_map(s).insert(k, v));
}

/// Replacing the value of an entry keeps the ids and replaces the value in the map.
proof fn lemma_pairs_update<V>(s: Seq<(u32, V)>, i: int, v: V)
    requires
        unique(s),
        0 <= i < s.len(),
    ensures
        unique(s.update(i, (s[i].0, v))),
        pairs_map(s.update(i, (s[i].0, v))) == pairs_map(s).insert(s[i].0, v),
        keys_of(s.update(i, (s[i].0, v))) == keys_of(s),
{
    let t = s.update(i, (s[i].0, v));
    assert(keys_of(t) =~= keys_of(s));
    assert(unique(t)) by {
        assert forall|a: int, b: int| 0 <= a < b < t.len() implies t[a].0 != t[b].0 by {
            assert(t[a].0 == s[a].0 && t[b].0 == s[b].0);
        }
    }
    lemma_pairs_map(s);
    lemma_pairs_map(t);
    assert forall|x: u32| #[trigger] pairs_map(t).contains_key(x) implies pairs_map(t)[x] == pairs_map(s).insert(
        s[i].0,
        v,
    )[x] by {
        let j = choose|j: int| 0 <= j < keys_of(t).len() && keys_of(t)[j] == x;
        assert(t[j].0 == x);
        if j != i {
            assert(s[j].0 == x);
        }
    }
    assert(keys_of(s)[i] == s[i].0);
    assert forall|x: u32| #[trigger] pairs_map(t).contains_key(x) == pairs_map(s).insert(s[i].0, v).contains_key(
        x,
    ) by {
        assert(pairs_map(t).contains_key(x) == keys_of(t).contains(x));
        assert(pairs_map(s).contains_key(x) == keys_of(s).contains(x));
    }
    assert(pairs_map(t) =~= pairs_map(s).insert(s[i].0, v));
}

/// Removing an entry keeps the other ids unique and removes its id from the map.
proof fn lemma_pairs_remove<V>(s: Seq<(u32, V)>, i: int)
    requires
        unique(s),
        0 <= i < s.len(),
    ensures
        unique(s.remove(i)),
        pairs_map(s.remove(i)) == pairs_map(s).remove(s[i].0),
        keys_of(s.remove(i)) == keys_of(s).remove(i),
{
    let t = s.remove(i);
    assert(keys_of(t) =~= keys_of(s).remove(i));
    assert(unique(t)) by {
        assert forall|a: int, b: int| 0 <= a < b < t.len() implies t[a].0 != t[b].0 by {
            let oa = if a < i { a } else { a + 1 };
            let ob = if b < i { b } else { b + 1 };
            assert(t[a] == s[oa] && t[b] == s[ob]);
        }
    }
    lemma_pairs_map(s);
    lemma_pairs_map(t);
    assert forall|x: u32| #[trigger] pairs_map(t).contains_key(x) == pairs_map(s).remove(s[i].0).contains_key(x) by {
        if keys_of(t).contains(x) {
            let j = choose|j: int| 0 <= j < keys_of(t).len() && keys_of(t)[j] == x;
            let oj = if j < i { j } else { j + 1 };
            assert(t[j] == s[oj]);
            assert(keys_of(s)[oj] == x);
            if x == s[i].0 {
                if oj < i {
                    assert(s[oj].0 != s[i].0);
                } else {
                    assert(s[i].0 != s[oj].0);
                }
            }
        }
        if keys_of(s).contains(x) && x != s[i].0 {
            let j = choose|j: int| 0 <= j < keys_of(s).len() && keys_of(s)[j] == x;
            assert(j != i);
            let nj = if j < i { j } else { j - 1 };
            assert(t[nj] == s[j]);
            assert(keys_of(t)[nj] == x);
        }
    }
    assert forall|x: u32| #[trigger] pairs_map(t).contains_key(x) implies pairs_map(t)[x] == pairs_map(s).remove(
        s[i].0,
    )[x] by {
        let j = choose|j: int| 0 <= j < keys_of(t).len() && keys_of(t)[j] == x;
        let oj = if j < i { j } else { j + 1 };
        assert(t[j] == s[oj]);
    }
    assert(pairs_map(t) =~= pairs_map(s).remove(s[i].0));
}

/// Editors, windows, and which editor each window shows.
pub struct Environment {
    clipboard: Clipboard,
    workspace: Workspace,
    editors: Vec<(u32, Editor)>,
    editor_id_seq: u32,
    views: Vec<(u32, u32)>,
    active_view_id: u32,
}

impl Environment {
    /// The workspace.
    pub closed spec fn space(&self) -> Workspace {
        self.workspace
    }

    /// The editors by id.
    pub closed spec fn editors_map(&self) -> Map<u32, Editor> {
        pairs_map(self.editors@)
    }

    /// The ids of the editors, in increasing order.
    pub closed spec fn editor_ids(&self) -> Seq<u32> {
        keys_of(self.editors@)
    }

    /// The editor that each view shows, by view id.
    pub closed spec fn attached(&self) -> Map<u32, u32> {
        pairs_map(self.views@)
    }

    /// The text on the local clipboard, if any.
    pub closed spec fn clip(&self) -> Option<Seq<char>> {
        self.clipboard.text()
    }

    /// The id of the active view.
    pub closed spec fn active(&self) -> u32 {
        self.active_view_id
    }

    /// The id that the next editor gets.
    pub closed spec fn next_editor_id(&self) -> u32 {
        self.editor_id_seq
    }

    /// The environment's consistency: each view of the workspace shows one editor,
    /// no editor is shown twice, the scratch editor is there, and the active view
    /// is a view of the workspace.
    pub closed spec fn wf(&self) -> bool {
        let e = self.editors@;
        let v = self.views@;
        let ids = self.workspace.ids();
        &&& self.workspace.wf()
        &&& e.len() > 0 && e[0].0 == SCRATCH_ID
        &&& forall|i: int, j: int| 0 <= i < j < e.len() ==> e[i].0 < e[j].0
        &&& forall|i: int| 0 <= i < e.len() ==> (#[trigger] e[i]).0 < self.editor_id_seq
        &&& forall|i: int| 0 <= i < e.len() ==> (#[trigger] e[i]).1.wf()
        &&& unique(v)
        &&& forall|i: int| 0 <= i < v.len() ==> ids.contains((#[trigger] v[i]).0)
        &&& forall|k: int| 0 <= k < ids.len() ==> keys_of(v).contains(#[trigger] ids[k])
        &&& forall|i: int, j: int| 0 <= i < j < v.len() ==> v[i].1 != v[j].1
        &&& forall|i: int| 0 <= i < v.len() ==> keys_of(e).contains((#[trigger] v[i]).1)
        &&& ids.contains(self.active_view_id)
    }
}

/// The editors have unique ids when they increase.
proof fn lemma_increasing_unique(e: Seq<(u32, Editor)>)
    requires
        forall|i: int, j: int| 0 <= i < j < e.len() ==> e[i].0 < e[j].0,
    ensures
        unique(e),
{
}

impl Environment {
    /// The active view shows an editor, which is consistent.
    pub proof fn lemma_active(&self)
        requires
            self.wf(),
        ensures
            self.attached().contains_key(self.active()),
            self.editors_map().contains_key(self.attached()[self.active()]),
            self.editors_map()[self.attached()[self.active()]].wf(),
    {
        self.lemma_consistent();
        assert(self.attached().contains_key(self.active()));
    }

    /// The editor ids are the ids of the editors.
    pub proof fn lemma_editor_ids(&self)
        requires
            self.wf(),
        ensures
            forall|id: u32| #[trigger] self.editors_map().contains_key(id) <==> self.editor_ids().contains(id),
    {
        lemma_increasing_unique(self.editors@);
        lemma_pairs_map(self.editors@);
    }

    /// The ids of the editors increase.
    pub proof fn lemma_increasing(&self)
        requires
            self.wf(),
        ensures
            forall|i: int, j: int| 0 <= i < j < self.editor_ids().len() ==> self.editor_ids()[i] < self.editor_ids()[j],
    {
        assert forall|i: int, j: int| 0 <= i < j < self.editor_ids().len() implies self.editor_ids()[i]
            < self.editor_ids()[j] by {
            assert(self.editor_ids()[i] == self.editors@[i].0);
            assert(self.editor_ids()[j] == self.editors@[j].0);
        }
    }

    /// Each window shows an editor, no editor is shown by two windows, the scratch
    /// editor is always there, every editor has an id below the next one, and the
    /// active view is one of the workspace's views.
    pub proof fn lemma_consistent(&self)
        requires
            self.wf(),
        ensures
            self.space().wf(),
            forall|v: u32| #[trigger] self.attached().contains_key(v) <==> self.space().ids().contains(v),
            forall|v: u32|
                #[trigger] self.attached().contains_key(v) ==> self.editors_map().contains_key(self.attached()[v]),
            forall|v: u32, w: u32|
                #![trigger self.attached()[v], self.attached()[w]]
                self.attached().contains_key(v) && self.attached().contains_key(w) && v != w
                    ==> self.attached()[v] != self.attached()[w],
            self.editors_map().contains_key(SCRATCH_ID),
            forall|id: u32| #[trigger] self.editors_map().contains_key(id) ==> id < self.next_editor_id(),
            forall|id: u32| #[trigger] self.editors_map().contains_key(id) ==> self.editors_map()[id].wf(),
            self.space().ids().contains(self.active()),
    {
        let e = self.editors@;
        let v = self.views@;
        lemma_increasing_unique(e);
        lemma_pairs_map(e);
        lemma_pairs_map(v);
        assert(e[0].0 == SCRATCH_ID);
        assert forall|x: u32| #[trigger] self.attached().contains_key(x) <==> self.space().ids().contains(x) by {
            if self.attached().contains_key(x) {
                let i = choose|i: int| 0 <= i < keys_of(v).len() && keys_of(v)[i] == x;
                assert(v[i].0 == x);
            }
            if self.space().ids().contains(x) {
                let k = choose|k: int| 0 <= k < self.workspace.ids().len() && self.workspace.ids()[k] == x;
                assert(keys_of(v).contains(self.workspace.ids()[k]));
            }
        }
        assert forall|x: u32| #[trigger] self.attached().contains_key(x) implies self.editors_map().contains_key(
            self.attached()[x],
        ) by {
            let i = choose|i: int| 0 <= i < keys_of(v).len() && keys_of(v)[i] == x;
            assert(v[i].0 == x);
            assert(keys_of(e).contains(v[i].1));
        }
        assert forall|x: u32, y: u32|
            #![trigger self.attached()[x], self.attached()[y]]
            self.attached().contains_key(x) && self.attached().contains_key(y) && x != y implies self.attached()[x]
                != self.attached()[y] by {
            let i = choose|i: int| 0 <= i < keys_of(v).len() && keys_of(v)[i] == x;
            let j = choose|j: int| 0 <= j < keys_of(v).len() && keys_of(v)[j] == y;
            assert(v[i].0 == x && v[j].0 == y);
            if i < j {
                assert(v[i].1 != v[j].1);
            } else {
                assert(v[j].1 != v[i].1);
            }
        }
        assert forall|id: u32| #[trigger] self.editors_map().contains_key(id) implies id < self.next_editor_id()
            && self.editors_map()[id].wf() by {
            let i = choose|i: int| 0 <= i < keys_of(e).len() && keys_of(e)[i] == id;
            assert(e[i].0 == id);
        }
    }
}

/// How the editor `e` is shown as a source, with the home directory `home`.
pub open spec fn shown_as(e: Editor, home: Seq<char>) -> Seq<char> {
    source_text(e.source_of(), home)
}

impl Environment {
    /// Creates an environment over `workspace` with the builtin scratch editor,
    /// inserting hard tabs where `tab_hard` holds and with tab stops every
    /// `tab_cols` columns, shown in the workspace's only view.
    pub fn new(workspace: Workspace, tab_hard: bool, tab_cols: u32) -> (env: Environment)
        requires
            workspace.wf(),
            workspace.ids().len() == 1,
        ensures
            env.wf(),
            env.space() == workspace,
            env.editor_ids() == seq![SCRATCH_ID],
            env.next_editor_id() == SCRATCH_ID + 1,
            env.editors_map()[SCRATCH_ID].text().len() == 0,
            env.editors_map()[SCRATCH_ID].source_of() matches Source::Ephemeral(name) && name@ == "scratch"@,
            env.editors_map()[SCRATCH_ID].tabs() == (tab_hard, tab_cols),
            env.attached() == map![workspace.ids()[0] => SCRATCH_ID],
            env.active() == workspace.ids()[0],
            env.clip() is None,
    {
        let mut scratch = Editor::new(None, false, tab_hard, tab_cols, false, None);
        scratch.set_source(Source::as_ephemeral("scratch"));
        let mut editors: Vec<(u32, Editor)> = Vec::new();
        editors.push((SCRATCH_ID, scratch));
        let top = workspace.top_view().id;
        let mut views: Vec<(u32, u32)> = Vec::new();
        views.push((top, SCRATCH_ID));
        let env = Environment { clipboard: Clipboard::new(), workspace, editors, editor_id_seq: SCRATCH_ID + 1, views, active_view_id: top };
        proof {
            assert(env.workspace == workspace);
            assert(env.workspace.ids()[0] == top);
            assert(keys_of(env.views@)[0] == top);
            assert(keys_of(env.editors@)[0] == SCRATCH_ID);
            lemma_pairs_map(env.editors@);
            lemma_pairs_map(env.views@);
            assert(env.editor_ids() =~= seq![SCRATCH_ID]);
            assert(env.attached() =~= map![top => SCRATCH_ID]);
            assert(env.workspace.ids().contains(top));
            assert(keys_of(env.views@).contains(top));
            assert(keys_of(env.editors@).contains(SCRATCH_ID));
            assert forall|k: int| 0 <= k < env.workspace.ids().len() implies keys_of(env.views@).contains(
                #[trigger] env.workspace.ids()[k],
            ) by {
                assert(env.workspace.ids().len() == 1);
                assert(k == 0);
            }
        }
        env
    }
}

impl Environment {
    /// Returns the index of the editor with `id`, if there is one.
    fn editor_pos(&self, id: u32) -> (r: Option<usize>)
        ensures
            r matches Some(k) ==> k < self.editors@.len() && self.editors@[k as int].0 == id,
            r is None ==> !keys_of(self.editors@).contains(id),
    {
        let mut k: usize = 0;
        while k < self.editors.len()
            invariant
                k <= self.editors@.len(),
                forall|j: int| 0 <= j < k ==> self.editors@[j].0 != id,
            decreases self.editors@.len() - k,
        {
            if self.editors[k].0 == id {
                return Some(k);
            }
            k = k + 1;
        }
        proof {
            if keys_of(self.editors@).contains(id) {
                let j = choose|j: int| 0 <= j < keys_of(self.editors@).len() && keys_of(self.editors@)[j] == id;
                assert(self.editors@[j].0 == id);
            }
        }
        None
    }

    /// Returns the index of the view with `view_id` among the attachments, if any.
    fn view_pos(&self, view_id: u32) -> (r: Option<usize>)
        ensures
            r matches Some(k) ==> k < self.views@.len() && self.views@[k as int].0 == view_id,
            r is None ==> !keys_of(self.views@).contains(view_id),
    {
        let mut k: usize = 0;
        while k < self.views.len()
            invariant
                k <= self.views@.len(),
                forall|j: int| 0 <= j < k ==> self.views@[j].0 != view_id,
            decreases self.views@.len() - k,
        {
            if self.views[k].0 == view_id {
                return Some(k);
            }
            k = k + 1;
        }
        proof {
            if keys_of(self.views@).contains(view_id) {
                let j = choose|j: int| 0 <= j < keys_of(self.views@).len() && keys_of(self.views@)[j] == view_id;
                assert(self.views@[j].0 == view_id);
            }
        }
        None
    }

    /// Returns the index of the attachment that shows the editor `editor_id`, if any.
    fn shown_pos(&self, editor_id: u32) -> (r: Option<usize>)
        ensures
            r matches Some(k) ==> k < self.views@.len() && self.views@[k as int].1 == editor_id,
            r is None ==> forall|j: int| 0 <= j < self.views@.len() ==> self.views@[j].1 != editor_id,
    {
        let mut k: usize = 0;
        while k < self.views.len()
            invariant
                k <= self.views@.len(),
                forall|j: int| 0 <= j < k ==> self.views@[j].1 != editor_id,
            decreases self.views@.len() - k,
        {
            if self.views[k].1 == editor_id {
                return Some(k);
            }
            k = k + 1;
        }
        None
    }

    /// Returns the id that the next editor gets.
    pub fn next_editor(&self) -> (n: u32)
        ensures
            n == self.next_editor_id(),
    {
        self.editor_id_seq
    }

    /// Returns the id of the active view.
    pub fn get_active_view_id(&self) -> (id: u32)
        ensures
            id == self.active(),
    {
        self.active_view_id
    }

    /// Returns the id of the editor that the view `view_id` shows.
    pub fn view_editor(&self, view_id: u32) -> (id: u32)
        requires
            self.wf(),
            self.attached().contains_key(view_id),
        ensures
            id == self.attached()[view_id],
    {
        proof {
            lemma_pairs_map(self.views@);
        }
        let k = self.view_pos(view_id).unwrap();
        self.views[k].1
    }

    /// Returns the id of the editor that the active view shows.
    pub fn get_active_editor_id(&self) -> (id: u32)
        requires
            self.wf(),
        ensures
            id == self.attached()[self.active()],
    {
        proof {
            self.lemma_consistent();
        }
        self.view_editor(self.active_view_id)
    }

    /// Returns the editor with `editor_id`.
    fn editor_of(&self, editor_id: u32) -> (e: &Editor)
        requires
            self.wf(),
            self.editors_map().contains_key(editor_id),
        ensures
            *e == self.editors_map()[editor_id],
    {
        proof {
            lemma_increasing_unique(self.editors@);
            lemma_pairs_map(self.editors@);
        }
        let k = self.editor_pos(editor_id).unwrap();
        &self.editors[k].1
    }

    /// Returns the editor that the view `view_id` shows.
    pub fn get_view_editor(&self, view_id: u32) -> (e: &Editor)
        requires
            self.wf(),
            self.attached().contains_key(view_id),
        ensures
            *e == self.editors_map()[self.attached()[view_id]],
            e.wf(),
    {
        proof {
            self.lemma_consistent();
        }
        let id = self.view_editor(view_id);
        self.editor_of(id)
    }

    /// Returns the editor that the active view shows.
    pub fn get_active_editor(&self) -> (e: &Editor)
        requires
            self.wf(),
        ensures
            *e == self.editors_map()[self.attached()[self.active()]],
            e.wf(),
    {
        proof {
            self.lemma_consistent();
        }
        self.get_view_editor(self.active_view_id)
    }

    /// Returns the workspace.
    pub fn workspace(&self) -> (w: &Workspace)
        ensures
            *w == self.space(),
    {
        &self.workspace
    }

    /// Returns the editors with their ids, in increasing order of id.
    pub fn editor_map(&self) -> (m: &Vec<(u32, Editor)>)
        requires
            self.wf(),
        ensures
            unique(m@),
            pairs_map(m@) == self.editors_map(),
            keys_of(m@) == self.editor_ids(),
            forall|i: int, j: int| 0 <= i < j < m@.len() ==> m@[i].0 < m@[j].0,
    {
        proof {
            lemma_increasing_unique(self.editors@);
        }
        &self.editors
    }

    /// Returns the attachments: each view id with the id of the editor it shows.
    pub fn view_map(&self) -> (m: &Vec<(u32, u32)>)
        requires
            self.wf(),
        ensures
            unique(m@),
            pairs_map(m@) == self.attached(),
    {
        &self.views
    }

    /// Returns the id of the view that shows the editor `editor_id`, or `None`
    /// where no view shows it.
    pub fn find_editor_view_id(&self, editor_id: u32) -> (r: Option<u32>)
        requires
            self.wf(),
        ensures
            r matches Some(v) ==> self.attached().contains_key(v) && self.attached()[v] == editor_id,
            r is None ==> forall|v: u32| #[trigger] self.attached().contains_key(v) ==> self.attached()[v] != editor_id,
    {
        proof {
            lemma_pairs_map(self.views@);
        }
        match self.shown_pos(editor_id) {
            Some(k) => Some(self.views[k].0),
            None => {
                proof {
                    assert forall|v: u32| #[trigger] self.attached().contains_key(v) implies self.attached()[v]
                        != editor_id by {
                        let i = choose|i: int| 0 <= i < keys_of(self.views@).len() && keys_of(self.views@)[i] == v;
                        assert(self.views@[i].0 == v);
                    }
                }
                None
            },
        }
    }

    /// Returns the id of the first editor, in increasing order of id, shown as
    /// `source` with the home directory `home`, or `None` where there is none.
    pub fn find_editor_id(&self, source: &str, home: &str) -> (r: Option<u32>)
        requires
            self.wf(),
        ensures
            r matches Some(id) ==> self.editors_map().contains_key(id) && shown_as(self.editors_map()[id], home@)
                == source@ && forall|other: u32|
                #[trigger] self.editors_map().contains_key(other) && other < id ==> shown_as(
                    self.editors_map()[other],
                    home@,
                ) != source@,
            r is None ==> forall|id: u32| #[trigger] self.editors_map().contains_key(id) ==> shown_as(
                self.editors_map()[id],
                home@,
            ) != source@,
    {
        proof {
            lemma_increasing_unique(self.editors@);
            lemma_pairs_map(self.editors@);
        }
        let mut k: usize = 0;
        while k < self.editors.len()
            invariant
                self.wf(),
                k <= self.editors@.len(),
                forall|j: int| 0 <= j < k ==> shown_as(#[trigger] self.editors@[j].1, home@) != source@,
            decreases self.editors@.len() - k,
        {
            let text = self.editors[k].1.source().text(home);
            if str_eq(text.as_str(), source) {
                proof {
                    lemma_increasing_unique(self.editors@);
                    lemma_pairs_map(self.editors@);
                    assert forall|other: u32|
                        #[trigger] self.editors_map().contains_key(other) && other < self.editors@[k as int].0
                            implies shown_as(self.editors_map()[other], home@) != source@ by {
                        let i = choose|i: int|
                            0 <= i < keys_of(self.editors@).len() && keys_of(self.editors@)[i] == other;
                        assert(self.editors@[i].0 == other);
                        if i >= k {
                            if i > k {
                                assert(self.editors@[k as int].0 < self.editors@[i].0);
                            }
                        }
                    }
                }
                return Some(self.editors[k].0);
            }
            k = k + 1;
        }
        proof {
            assert forall|id: u32| #[trigger] self.editors_map().contains_key(id) implies shown_as(
                self.editors_map()[id],
                home@,
            ) != source@ by {
                let i = choose|i: int| 0 <= i < keys_of(self.editors@).len() && keys_of(self.editors@)[i] == id;
                assert(self.editors@[i].0 == id);
            }
        }
        None
    }
}

/// The view that `focus` names, given the ids of the views `ids` and the active
/// view `active`.
pub open spec fn focused(ids: Seq<u32>, active: u32, focus: Focus) -> u32 {
    let i = index_of(ids, active);
    let n = ids.len() as int;
    match focus {
        Focus::Top => ids[0],
        Focus::Bottom => ids[n - 1],
        Focus::Above => ids[if i == 0 { n - 1 } else { i - 1 }],
        Focus::Below => ids[if i + 1 == n { 0 } else { i + 1 }],
        Focus::To(v) => v,
    }
}

/// Among views with distinct ids `ids`, the window above the one at index `i` is
/// the one at `i - 1`, and above the top one the bottom one; the window below it
/// is the one at `i + 1`, and below the bottom one the top one. The top and the
/// bottom windows are the first and the last.
pub proof fn lemma_focus_moves(ids: Seq<u32>, i: int)
    requires
        0 <= i < ids.len(),
        forall|j: int, k: int| 0 <= j < k < ids.len() ==> ids[j] != ids[k],
    ensures
        i > 0 ==> focused(ids, ids[i], Focus::Above) == ids[i - 1],
        i == 0 ==> focused(ids, ids[i], Focus::Above) == ids[ids.len() - 1],
        i + 1 < ids.len() ==> focused(ids, ids[i], Focus::Below) == ids[i + 1],
        i + 1 == ids.len() ==> focused(ids, ids[i], Focus::Below) == ids[0],
        focused(ids, ids[i], Focus::Top) == ids[0],
        focused(ids, ids[i], Focus::Bottom) == ids[ids.len() - 1],
{
    let k = index_of(ids, ids[i]);
    assert(0 <= k < ids.len() && ids[k] == ids[i]);
    if k < i {
        assert(ids[k] != ids[i]);
    } else if i < k {
        assert(ids[i] != ids[k]);
    }
    assert(k == i);
}

impl Environment {
    /// `self` and `other` have the same workspace, editors and attachments.
    pub open spec fn same_parts(&self, other: &Environment) -> bool {
        &&& self.space() == other.space()
        &&& self.editors_map() == other.editors_map()
        &&& self.editor_ids() == other.editor_ids()
        &&& self.next_editor_id() == other.next_editor_id()
        &&& self.attached() == other.attached()
    }

    /// Makes the view that `focus` names active and returns its id.
    pub fn set_active(&mut self, focus: Focus) -> (id: u32)
        requires
            old(self).wf(),
            focus matches Focus::To(v) ==> old(self).attached().contains_key(v),
        ensures
            final(self).wf(),
            final(self).same_parts(&*old(self)),
            id == focused(old(self).space().ids(), old(self).active(), focus),
            final(self).active() == id,
            final(self).clip() == old(self).clip(),
            ({
                let ids = old(self).space().ids();
                let n = ids.len() as int;
                let active = old(self).active();
                &&& focus is Top ==> id == ids[0]
                &&& focus is Bottom ==> id == ids[n - 1]
                &&& focus is Above ==> (forall|i: int|
                    #![trigger ids[i]]
                    0 < i < n && ids[i] == active ==> id == ids[i - 1])
                &&& (focus is Above && ids[0] == active) ==> id == ids[n - 1]
                &&& focus is Below ==> (forall|i: int|
                    #![trigger ids[i]]
                    0 <= i < n - 1 && ids[i] == active ==> id == ids[i + 1])
                &&& (focus is Below && ids[n - 1] == active) ==> id == ids[0]
            }),
    {
        proof {
            self.lemma_consistent();
            let ids = self.space().ids();
            let n = ids.len() as int;
            assert forall|i: int| #![trigger ids[i]] 0 <= i < n && ids[i] == self.active() implies {
                &&& (i > 0 ==> focused(ids, self.active(), Focus::Above) == ids[i - 1])
                &&& (i == 0 ==> focused(ids, self.active(), Focus::Above) == ids[n - 1])
                &&& (i + 1 < n ==> focused(ids, self.active(), Focus::Below) == ids[i + 1])
                &&& (i + 1 == n ==> focused(ids, self.active(), Focus::Below) == ids[0])
            } by {
                lemma_focus_moves(ids, i);
            }
        }
        let id = match focus {
            Focus::Top => self.workspace.top_view().id,
            Focus::Bottom => self.workspace.bottom_view().id,
            Focus::Above => self.workspace.above_view(self.active_view_id).id,
            Focus::Below => self.workspace.below_view(self.active_view_id).id,
            Focus::To(v) => v,
        };
        proof {
            let ids = self.workspace.ids();
            let n = ids.len() as int;
            assert(ids[0] == self.workspace.view_seq()[0].id);
            assert(ids[n - 1] == self.workspace.view_seq()[n - 1].id);
            let i = index_of(ids, self.active_view_id);
            if n > 0 {
                assert(ids[if i == 0 { n - 1 } else { i - 1 }] == self.workspace.view_seq()[if i == 0 { n - 1 } else { i - 1 }].id);
                assert(ids[if i + 1 == n { 0 } else { i + 1 }] == self.workspace.view_seq()[if i + 1 == n { 0 } else { i + 1 }].id);
            }
            assert(ids.contains(ids[0]));
            assert(ids.contains(ids[n - 1]));
        }
        self.active_view_id = id;
        proof {
            let ids = self.workspace.ids();
            let n = ids.len() as int;
            let i = index_of(ids, old(self).active_view_id);
            assert(0 <= i < n);
            assert(ids.contains(ids[if i == 0 { n - 1 } else { i - 1 }]));
            assert(ids.contains(ids[if i + 1 == n { 0 } else { i + 1 }]));
        }
        id
    }

    /// Adds `editor` under a new id, shows it in the view `view_id` in place of
    /// the editor shown there, which stays, and returns the new id.
    pub fn set_editor_for(&mut self, view_id: u32, editor: Editor) -> (id: u32)
        requires
            old(self).wf(),
            old(self).attached().contains_key(view_id),
            editor.wf(),
            old(self).next_editor_id() < u32::MAX,
        ensures
            final(self).wf(),
            id == old(self).next_editor_id(),
            final(self).next_editor_id() == id + 1,
            final(self).editors_map() == old(self).editors_map().insert(id, editor),
            final(self).editor_ids() == old(self).editor_ids().push(id),
            final(self).attached() == old(self).attached().insert(view_id, id),
            final(self).space() == old(self).space(),
            final(self).active() == old(self).active(),
    {
        proof {
            lemma_pairs_map(self.views@);
            lemma_increasing_unique(self.editors@);
        }
        let k = self.view_pos(view_id).unwrap();
        let id = self.editor_id_seq;
        let ghost e0 = self.editors@;
        let ghost v0 = self.views@;
        proof {
            assert(!keys_of(e0).contains(id)) by {
                if keys_of(e0).contains(id) {
                    let j = choose|j: int| 0 <= j < keys_of(e0).len() && keys_of(e0)[j] == id;
                    assert(e0[j].0 == id);
                }
            }
            lemma_pairs_push(e0, id, editor);
            lemma_pairs_update(v0, k as int, id);
        }
        self.editor_id_seq = self.editor_id_seq + 1;
        self.editors.push((id, editor));
        self.views.set(k, (view_id, id));
        proof {
            let e = self.editors@;
            let v = self.views@;
            assert(e == e0.push((id, editor)));
            assert(v == v0.update(k as int, (v0[k as int].0, id)));
            assert forall|i: int| 0 <= i < v.len() implies keys_of(e).contains((#[trigger] v[i]).1) by {
                if i == k {
                    assert(keys_of(e)[e0.len() as int] == id);
                } else {
                    assert(v[i] == v0[i]);
                    let j = choose|j: int| 0 <= j < keys_of(e0).len() && keys_of(e0)[j] == v0[i].1;
                    assert(keys_of(e)[j] == v0[i].1);
                }
            }
            assert forall|i: int, j: int| 0 <= i < j < v.len() implies v[i].1 != v[j].1 by {
                if i == k {
                    let t = choose|t: int| 0 <= t < keys_of(e0).len() && keys_of(e0)[t] == v0[j].1;
                    assert(e0[t].0 < id);
                } else if j == k {
                    let t = choose|t: int| 0 <= t < keys_of(e0).len() && keys_of(e0)[t] == v0[i].1;
                    assert(e0[t].0 < id);
                }
            }
            assert forall|i: int| 0 <= i < v.len() implies self.workspace.ids().contains((#[trigger] v[i]).0) by {
                assert(v[i].0 == v0[i].0);
            }
            assert forall|t: int| 0 <= t < self.workspace.ids().len() implies keys_of(v).contains(
                #[trigger] self.workspace.ids()[t],
            ) by {
                assert(keys_of(v0).contains(self.workspace.ids()[t]));
            }
        }
        id
    }

    /// Adds `editor` under a new id, shows it in the active view in place of the
    /// editor shown there, which stays, and returns the new id.
    pub fn set_editor(&mut self, editor: Editor) -> (id: u32)
        requires
            old(self).wf(),
            editor.wf(),
            old(self).next_editor_id() < u32::MAX,
        ensures
            final(self).wf(),
            id == old(self).next_editor_id(),
            final(self).next_editor_id() == id + 1,
            final(self).editors_map() == old(self).editors_map().insert(id, editor),
            final(self).editor_ids() == old(self).editor_ids().push(id),
            final(self).attached() == old(self).attached().insert(old(self).active(), id),
            final(self).space() == old(self).space(),
            final(self).active() == old(self).active(),
    {
        proof {
            self.lemma_consistent();
        }
        let v = self.active_view_id;
        self.set_editor_for(v, editor)
    }

    /// Shows the editor `editor_id` in the view `view_id`, unless a view already
    /// shows it, and returns the id of the editor that the view shows after: a
    /// result other than `editor_id` means that nothing changed.
    pub fn switch_editor_for(&mut self, view_id: u32, editor_id: u32) -> (id: u32)
        requires
            old(self).wf(),
            old(self).attached().contains_key(view_id),
            old(self).editors_map().contains_key(editor_id),
        ensures
            final(self).wf(),
            final(self).space() == old(self).space(),
            final(self).editors_map() == old(self).editors_map(),
            final(self).editor_ids() == old(self).editor_ids(),
            final(self).next_editor_id() == old(self).next_editor_id(),
            final(self).active() == old(self).active(),
            (exists|v: u32| #[trigger] old(self).attached().contains_key(v) && old(self).attached()[v] == editor_id)
                ==> id == old(self).attached()[view_id] && final(self).attached() == old(self).attached(),
            !(exists|v: u32| #[trigger] old(self).attached().contains_key(v) && old(self).attached()[v] == editor_id)
                ==> id == editor_id && final(self).attached() == old(self).attached().insert(view_id, editor_id),
    {
        proof {
            lemma_pairs_map(self.views@);
        }
        let k = self.view_pos(view_id).unwrap();
        let current = self.views[k].1;
        if editor_id == current {
            return current;
        }
        match self.shown_pos(editor_id) {
            Some(j) => {
                proof {
                    assert(old(self).attached().contains_key(self.views@[j as int].0));
                }
                current
            },
            None => {
                let ghost v0 = self.views@;
                proof {
                    lemma_pairs_update(v0, k as int, editor_id);
                    assert forall|x: u32| #[trigger] old(self).attached().contains_key(x) implies old(
                        self,
                    ).attached()[x] != editor_id by {
                        let i = choose|i: int| 0 <= i < keys_of(v0).len() && keys_of(v0)[i] == x;
                        assert(v0[i].0 == x);
                    }
                }
                self.views.set(k, (view_id, editor_id));
                proof {
                    let v = self.views@;
                    assert(v == v0.update(k as int, (v0[k as int].0, editor_id)));
                    assert forall|i: int, j: int| 0 <= i < j < v.len() implies v[i].1 != v[j].1 by {
                        if i != k && j != k {
                            assert(v0[i].1 != v0[j].1);
                        }
                    }
                    assert forall|i: int| 0 <= i < v.len() implies keys_of(self.editors@).contains(
                        (#[trigger] v[i]).1,
                    ) by {
                        if i == k {
                            lemma_increasing_unique(self.editors@);
                            lemma_pairs_map(self.editors@);
                        } else {
                            assert(v[i] == v0[i]);
                        }
                    }
                    assert forall|i: int| 0 <= i < v.len() implies self.workspace.ids().contains(
                        (#[trigger] v[i]).0,
                    ) by {
                        assert(v[i].0 == v0[i].0);
                    }
                    assert forall|t: int| 0 <= t < self.workspace.ids().len() implies keys_of(v).contains(
                        #[trigger] self.workspace.ids()[t],
                    ) by {
                        assert(keys_of(v0).contains(self.workspace.ids()[t]));
                    }
                }
                editor_id
            },
        }
    }

    /// Shows the editor `editor_id` in the active view, unless a view already shows
    /// it, and returns the id of the editor that the active view shows after.
    pub fn switch_editor(&mut self, editor_id: u32) -> (id: u32)
        requires
            old(self).wf(),
            old(self).editors_map().contains_key(editor_id),
        ensures
            final(self).wf(),
            final(self).space() == old(self).space(),
            final(self).editors_map() == old(self).editors_map(),
            final(self).editor_ids() == old(self).editor_ids(),
            final(self).next_editor_id() == old(self).next_editor_id(),
            final(self).active() == old(self).active(),
            (exists|v: u32| #[trigger] old(self).attached().contains_key(v) && old(self).attached()[v] == editor_id)
                ==> id == old(self).attached()[old(self).active()] && final(self).attached() == old(
                self,
            ).attached(),
            !(exists|v: u32| #[trigger] old(self).attached().contains_key(v) && old(self).attached()[v] == editor_id)
                ==> id == editor_id && final(self).attached() == old(self).attached().insert(
                old(self).active(),
                editor_id,
            ),
    {
        proof {
            self.lemma_consistent();
        }
        let v = self.active_view_id;
        self.switch_editor_for(v, editor_id)
    }
}

impl Environment {
    /// Opens a view placed as `place` that shows `editor`, added under a new id,
    /// and returns the ids of the view and the editor, or `None` where the
    /// workspace has no room for another view, in which case nothing changes.
    pub fn open_editor(&mut self, editor: Editor, place: Placement) -> (r: Option<(u32, u32)>)
        requires
            old(self).wf(),
            editor.wf(),
            place_ok(old(self).space().ids(), place),
            old(self).space().next_id_spec() < u32::MAX,
            old(self).next_editor_id() < u32::MAX,
        ensures
            final(self).wf(),
            final(self).active() == old(self).active(),
            final(self).space().term_size() == old(self).space().term_size(),
            final(self).space().shared_color_spec() == old(self).space().shared_color_spec(),
            r is None <==> !fits(old(self).space().view_rows(), old(self).space().view_seq().len() + 1int),
            r is None ==> {
                &&& final(self).space().view_seq() == old(self).space().view_seq()
                &&& final(self).space().next_id_spec() == old(self).space().next_id_spec()
                &&& final(self).editors_map() == old(self).editors_map()
                &&& final(self).editor_ids() == old(self).editor_ids()
                &&& final(self).next_editor_id() == old(self).next_editor_id()
                &&& final(self).attached() == old(self).attached()
            },
            r matches Some((v, id)) ==> {
                &&& v == old(self).space().next_id_spec()
                &&& final(self).space().next_id_spec() == v + 1
                &&& final(self).space().ids() == old(self).space().ids().insert(
                    place_index(old(self).space().ids(), place),
                    v,
                )
                &&& id == old(self).next_editor_id()
                &&& final(self).next_editor_id() == id + 1
                &&& final(self).editors_map() == old(self).editors_map().insert(id, editor)
                &&& final(self).editor_ids() == old(self).editor_ids().push(id)
                &&& final(self).attached() == old(self).attached().insert(v, id)
            },
    {
        proof {
            self.lemma_consistent();
        }
        match self.workspace.open_view(place) {
            None => None,
            Some(v) => {
                let ghost ids0 = old(self).workspace.ids();
                let ghost idx = place_index(ids0, place);
                proof {
                    assert(0 <= idx <= ids0.len()) by {
                        match place {
                            Placement::Above(a) => {
                                assert(ids0.contains(a));
                            },
                            Placement::Below(a) => {
                                assert(ids0.contains(a));
                            },
                            _ => {},
                        }
                    }
                }
                let id = self.add_editor_unchecked(editor);
                let ghost v0 = self.views@;
                proof {
                    assert(!keys_of(v0).contains(v)) by {
                        if keys_of(v0).contains(v) {
                            let j = choose|j: int| 0 <= j < keys_of(v0).len() && keys_of(v0)[j] == v;
                            assert(v0[j].0 == v);
                            assert(ids0.contains(v));
                            let t = choose|t: int| 0 <= t < ids0.len() && ids0[t] == v;
                            assert(ids0[t] < old(self).workspace.next_id_spec());
                        }
                    }
                    lemma_pairs_push(v0, v, id);
                }
                self.views.push((v, id));
                proof {
                    let vs = self.views@;
                    let ids = self.workspace.ids();
                    let e = self.editors@;
                    assert(vs == v0.push((v, id)));
                    assert(ids == ids0.insert(idx, v));
                    assert forall|i: int| 0 <= i < vs.len() implies ids.contains((#[trigger] vs[i]).0) by {
                        if i < v0.len() {
                            assert(ids0.contains(v0[i].0));
                            let t = choose|t: int| 0 <= t < ids0.len() && ids0[t] == v0[i].0;
                            let nt = if t < idx { t } else { t + 1 };
                            assert(ids[nt] == ids0[t]);
                        } else {
                            assert(ids[idx] == v);
                        }
                    }
                    assert forall|k: int| 0 <= k < ids.len() implies keys_of(vs).contains(#[trigger] ids[k]) by {
                        if k == idx {
                            assert(keys_of(vs)[v0.len() as int] == v);
                        } else {
                            let ok = if k < idx { k } else { k - 1 };
                            assert(ids[k] == ids0[ok]);
                            assert(keys_of(v0).contains(ids0[ok]));
                            let j = choose|j: int| 0 <= j < keys_of(v0).len() && keys_of(v0)[j] == ids0[ok];
                            assert(keys_of(vs)[j] == ids0[ok]);
                        }
                    }
                    assert forall|i: int, j: int| 0 <= i < j < vs.len() implies vs[i].1 != vs[j].1 by {
                        if j == v0.len() {
                            assert(keys_of(old(self).editors@).contains(v0[i].1));
                            let t = choose|t: int|
                                0 <= t < keys_of(old(self).editors@).len() && keys_of(old(self).editors@)[t]
                                    == v0[i].1;
                            assert(old(self).editors@[t].0 < id);
                        }
                    }
                    assert forall|i: int| 0 <= i < vs.len() implies keys_of(e).contains((#[trigger] vs[i]).1) by {
                        if i == v0.len() {
                            assert(keys_of(e)[e.len() - 1] == id);
                        } else {
                            let e0 = old(self).editors@;
                            assert(keys_of(e0).contains(v0[i].1));
                            let t = choose|t: int| 0 <= t < keys_of(e0).len() && keys_of(e0)[t] == v0[i].1;
                            assert(keys_of(e)[t] == v0[i].1);
                        }
                    }
                    assert(ids.contains(self.active_view_id)) by {
                        let t = choose|t: int| 0 <= t < ids0.len() && ids0[t] == self.active_view_id;
                        let nt = if t < idx { t } else { t + 1 };
                        assert(ids[nt] == ids0[t]);
                    }
                }
                Some((v, id))
            },
        }
    }

    /// Adds `editor` under a new id while the views may not all be shown yet.
    fn add_editor_unchecked(&mut self, editor: Editor) -> (id: u32)
        requires
            old(self).editors@.len() > 0 && old(self).editors@[0].0 == SCRATCH_ID,
            forall|i: int, j: int| 0 <= i < j < old(self).editors@.len() ==> old(self).editors@[i].0 < old(self).editors@[j].0,
            forall|i: int| 0 <= i < old(self).editors@.len() ==> (#[trigger] old(self).editors@[i]).0 < old(self).editor_id_seq,
            forall|i: int| 0 <= i < old(self).editors@.len() ==> (#[trigger] old(self).editors@[i]).1.wf(),
            editor.wf(),
            old(self).editor_id_seq < u32::MAX,
        ensures
            id == old(self).editor_id_seq,
            final(self).editor_id_seq == id + 1,
            final(self).editors@ == old(self).editors@.push((id, editor)),
            final(self).editors@.len() > 0 && final(self).editors@[0].0 == SCRATCH_ID,
            forall|i: int, j: int| 0 <= i < j < final(self).editors@.len() ==> final(self).editors@[i].0 < final(self).editors@[j].0,
            forall|i: int| 0 <= i < final(self).editors@.len() ==> (#[trigger] final(self).editors@[i]).0 < final(self).editor_id_seq,
            forall|i: int| 0 <= i < final(self).editors@.len() ==> (#[trigger] final(self).editors@[i]).1.wf(),
            pairs_map(final(self).editors@) == pairs_map(old(self).editors@).insert(id, editor),
            keys_of(final(self).editors@) == keys_of(old(self).editors@).push(id),
            final(self).views@ == old(self).views@,
            final(self).workspace == old(self).workspace,
            final(self).active_view_id == old(self).active_view_id,
    {
        proof {
            lemma_increasing_unique(self.editors@);
        }
        let id = self.editor_id_seq;
        let ghost e0 = self.editors@;
        proof {
            assert(!keys_of(e0).contains(id)) by {
                if keys_of(e0).contains(id) {
                    let j = choose|j: int| 0 <= j < keys_of(e0).len() && keys_of(e0)[j] == id;
                    assert(e0[j].0 == id);
                }
            }
            lemma_pairs_push(e0, id, editor);
        }
        self.editor_id_seq = self.editor_id_seq + 1;
        self.editors.push((id, editor));
        id
    }
}

impl Environment {
    /// Opens a view placed as `place` that shows the editor `editor_id` and returns
    /// its id; where a view shows that editor already, returns that view's id and
    /// opens none; `None` where the workspace has no room for another view. Only
    /// an opened view changes anything.
    pub fn open_window(&mut self, editor_id: u32, place: Placement) -> (r: Option<u32>)
        requires
            old(self).wf(),
            old(self).editors_map().contains_key(editor_id),
            place_ok(old(self).space().ids(), place),
            old(self).space().next_id_spec() < u32::MAX,
        ensures
            final(self).wf(),
            final(self).active() == old(self).active(),
            final(self).editors_map() == old(self).editors_map(),
            final(self).editor_ids() == old(self).editor_ids(),
            final(self).next_editor_id() == old(self).next_editor_id(),
            final(self).space().term_size() == old(self).space().term_size(),
            final(self).space().shared_color_spec() == old(self).space().shared_color_spec(),
            (exists|v: u32| #[trigger] old(self).attached().contains_key(v) && old(self).attached()[v] == editor_id)
                ==> (r matches Some(v) && old(self).attached().contains_key(v) && old(self).attached()[v] == editor_id)
                && final(self).space().view_seq() == old(self).space().view_seq() && final(self).space().next_id_spec()
                == old(self).space().next_id_spec() && final(self).attached() == old(self).attached(),
            !(exists|v: u32| #[trigger] old(self).attached().contains_key(v) && old(self).attached()[v] == editor_id)
                ==> {
                &&& r is None <==> !fits(old(self).space().view_rows(), old(self).space().view_seq().len() + 1int)
                &&& r is None ==> final(self).space().view_seq() == old(self).space().view_seq()
                    && final(self).space().next_id_spec() == old(self).space().next_id_spec() && final(self).attached()
                    == old(self).attached()
                &&& r matches Some(v) ==> {
                    &&& v == old(self).space().next_id_spec()
                    &&& final(self).space().next_id_spec() == v + 1
                    &&& final(self).space().ids() == old(self).space().ids().insert(
                        place_index(old(self).space().ids(), place),
                        v,
                    )
                    &&& final(self).attached() == old(self).attached().insert(v, editor_id)
                }
            },
    {
        proof {
            self.lemma_consistent();
            lemma_pairs_map(self.views@);
        }
        match self.shown_pos(editor_id) {
            Some(k) => {
                proof {
                    assert(old(self).attached().contains_key(self.views@[k as int].0));
                }
                return Some(self.views[k].0);
            },
            None => {},
        }
        proof {
            assert forall|x: u32| #[trigger] old(self).attached().contains_key(x) implies old(self).attached()[x]
                != editor_id by {
                let i = choose|i: int| 0 <= i < keys_of(self.views@).len() && keys_of(self.views@)[i] == x;
                assert(self.views@[i].0 == x);
            }
        }
        match self.workspace.open_view(place) {
            None => None,
            Some(v) => {
                let ghost ids0 = old(self).workspace.ids();
                let ghost idx = place_index(ids0, place);
                proof {
                    assert(0 <= idx <= ids0.len()) by {
                        match place {
                            Placement::Above(a) => {
                                assert(ids0.contains(a));
                            },
                            Placement::Below(a) => {
                                assert(ids0.contains(a));
                            },
                            _ => {},
                        }
                    }
                }
                let ghost v0 = self.views@;
                proof {
                    assert(!keys_of(v0).contains(v)) by {
                        if keys_of(v0).contains(v) {
                            let j = choose|j: int| 0 <= j < keys_of(v0).len() && keys_of(v0)[j] == v;
                            assert(v0[j].0 == v);
                            assert(ids0.contains(v));
                            let t = choose|t: int| 0 <= t < ids0.len() && ids0[t] == v;
                            assert(ids0[t] < old(self).workspace.next_id_spec());
                        }
                    }
                    lemma_pairs_push(v0, v, editor_id);
                }
                self.views.push((v, editor_id));
                proof {
                    let vs = self.views@;
                    let ids = self.workspace.ids();
                    let e = self.editors@;
                    assert(vs == v0.push((v, editor_id)));
                    assert(ids == ids0.insert(idx, v));
                    assert forall|i: int| 0 <= i < vs.len() implies ids.contains((#[trigger] vs[i]).0) by {
                        if i < v0.len() {
                            assert(ids0.contains(v0[i].0));
                            let t = choose|t: int| 0 <= t < ids0.len() && ids0[t] == v0[i].0;
                            let nt = if t < idx { t } else { t + 1 };
                            assert(ids[nt] == ids0[t]);
                        } else {
                            assert(ids[idx] == v);
                        }
                    }
                    assert forall|k: int| 0 <= k < ids.len() implies keys_of(vs).contains(#[trigger] ids[k]) by {
                        if k == idx {
                            assert(keys_of(vs)[v0.len() as int] == v);
                        } else {
                            let ok = if k < idx { k } else { k - 1 };
                            assert(ids[k] == ids0[ok]);
                            assert(keys_of(v0).contains(ids0[ok]));
                            let j = choose|j: int| 0 <= j < keys_of(v0).len() && keys_of(v0)[j] == ids0[ok];
                            assert(keys_of(vs)[j] == ids0[ok]);
                        }
                    }
                    assert forall|i: int, j: int| 0 <= i < j < vs.len() implies vs[i].1 != vs[j].1 by {
                        if j == v0.len() {
                            assert(old(self).attached().contains_key(v0[i].0));
                        }
                    }
                    assert forall|i: int| 0 <= i < vs.len() implies keys_of(e).contains((#[trigger] vs[i]).1) by {
                        if i == v0.len() {
                            lemma_increasing_unique(e);
                            lemma_pairs_map(e);
                        }
                    }
                    assert(ids.contains(self.active_view_id)) by {
                        let t = choose|t: int| 0 <= t < ids0.len() && ids0[t] == self.active_view_id;
                        let nt = if t < idx { t } else { t + 1 };
                        assert(ids[nt] == ids0[t]);
                    }
                }
                Some(v)
            },
        }
    }

    /// Closes the view `view_id`, whose editor stays, makes the view above it (or
    /// the top view) active and returns its id; `None` where it is the only view,
    /// in which case nothing changes.
    pub fn close_window_for(&mut self, view_id: u32) -> (r: Option<u32>)
        requires
            old(self).wf(),
            old(self).space().view_seq().len() > 1 ==> old(self).attached().contains_key(view_id),
        ensures
            final(self).wf(),
            final(self).editors_map() == old(self).editors_map(),
            final(self).editor_ids() == old(self).editor_ids(),
            final(self).next_editor_id() == old(self).next_editor_id(),
            final(self).space().term_size() == old(self).space().term_size(),
            final(self).space().shared_color_spec() == old(self).space().shared_color_spec(),
            final(self).space().next_id_spec() == old(self).space().next_id_spec(),
            r is None <==> old(self).space().view_seq().len() == 1,
            r is None ==> final(self).space().view_seq() == old(self).space().view_seq() && final(self).attached()
                == old(self).attached() && final(self).active() == old(self).active(),
            r matches Some(next) ==> {
                let i = index_of(old(self).space().ids(), view_id);
                &&& final(self).space().ids() == old(self).space().ids().remove(i)
                &&& next == final(self).space().ids()[if i > 0 { i - 1 } else { 0 }]
                &&& final(self).attached() == old(self).attached().remove(view_id)
                &&& final(self).active() == next
            },
    {
        proof {
            self.lemma_consistent();
            lemma_pairs_map(self.views@);
        }
        let ghost ids0 = self.workspace.ids();
        match self.workspace.close_view(view_id) {
            None => None,
            Some(next) => {
                let k = self.view_pos(view_id).unwrap();
                let ghost v0 = self.views@;
                let ghost i = index_of(ids0, view_id);
                proof {
                    lemma_pairs_remove(v0, k as int);
                    assert(ids0.contains(view_id));
                }
                self.views.remove(k);
                self.active_view_id = next;
                proof {
                    let vs = self.views@;
                    let ids = self.workspace.ids();
                    assert(vs == v0.remove(k as int));
                    assert(ids == ids0.remove(i));
                    assert(ids0[i] == view_id);
                    assert forall|j: int| 0 <= j < vs.len() implies ids.contains((#[trigger] vs[j]).0) by {
                        let oj = if j < k { j } else { j + 1 };
                        assert(vs[j] == v0[oj]);
                        assert(ids0.contains(v0[oj].0));
                        let t = choose|t: int| 0 <= t < ids0.len() && ids0[t] == v0[oj].0;
                        assert(t != i) by {
                            if t == i {
                                if oj < k {
                                    assert(v0[oj].0 != v0[k as int].0);
                                } else {
                                    assert(v0[k as int].0 != v0[oj].0);
                                }
                            }
                        }
                        let nt = if t < i { t } else { t - 1 };
                        assert(ids[nt] == ids0[t]);
                    }
                    assert forall|t: int| 0 <= t < ids.len() implies keys_of(vs).contains(#[trigger] ids[t]) by {
                        let ot = if t < i { t } else { t + 1 };
                        assert(ids[t] == ids0[ot]);
                        assert(keys_of(v0).contains(ids0[ot]));
                        let j = choose|j: int| 0 <= j < keys_of(v0).len() && keys_of(v0)[j] == ids0[ot];
                        assert(j != k) by {
                            if j == k {
                                assert(ids0[ot] == view_id);
                                if ot < i {
                                    assert(ids0[ot] != ids0[i]);
                                } else {
                                    assert(ids0[i] != ids0[ot]);
                                }
                            }
                        }
                        let nj = if j < k { j } else { j - 1 };
                        assert(vs[nj] == v0[j]);
                        assert(keys_of(vs)[nj] == ids0[ot]);
                    }
                    assert forall|a: int, b: int| 0 <= a < b < vs.len() implies vs[a].1 != vs[b].1 by {
                        let oa = if a < k { a } else { a + 1 };
                        let ob = if b < k { b } else { b + 1 };
                        assert(vs[a] == v0[oa] && vs[b] == v0[ob]);
                    }
                    assert forall|j: int| 0 <= j < vs.len() implies keys_of(self.editors@).contains((#[trigger] vs[j]).1) by {
                        let oj = if j < k { j } else { j + 1 };
                        assert(vs[j] == v0[oj]);
                    }
                    let f = if i > 0 { i - 1 } else { 0 };
                    assert(ids.contains(ids[f]));
                }
                Some(next)
            },
        }
    }

    /// Closes the active view, whose editor stays, and returns the id of the view
    /// made active; `None` where it is the only view.
    pub fn close_window(&mut self) -> (r: Option<u32>)
        requires
            old(self).wf(),
        ensures
            final(self).wf(),
            final(self).editors_map() == old(self).editors_map(),
            final(self).editor_ids() == old(self).editor_ids(),
            final(self).next_editor_id() == old(self).next_editor_id(),
            r is None <==> old(self).space().view_seq().len() == 1,
            r is None ==> final(self).space().view_seq() == old(self).space().view_seq() && final(self).attached()
                == old(self).attached() && final(self).active() == old(self).active(),
            r matches Some(next) ==> {
                let i = index_of(old(self).space().ids(), old(self).active());
                &&& final(self).space().ids() == old(self).space().ids().remove(i)
                &&& next == final(self).space().ids()[if i > 0 { i - 1 } else { 0 }]
                &&& final(self).attached() == old(self).attached().remove(old(self).active())
                &&& final(self).active() == next
            },
    {
        proof {
            self.lemma_consistent();
        }
        let v = self.active_view_id;
        self.close_window_for(v)
    }

    /// Removes the editor at index `k`, which no view shows and which is not the
    /// scratch editor.
    fn remove_editor_at(&mut self, k: usize)
        requires
            old(self).wf(),
            0 < k < old(self).editors@.len(),
            forall|j: int| 0 <= j < old(self).views@.len() ==> old(self).views@[j].1 != old(self).editors@[k as int].0,
        ensures
            final(self).wf(),
            final(self).editors_map() == old(self).editors_map().remove(old(self).editors@[k as int].0),
            final(self).editor_ids() == old(self).editor_ids().remove(k as int),
            final(self).next_editor_id() == old(self).next_editor_id(),
            final(self).space() == old(self).space(),
            final(self).attached() == old(self).attached(),
            final(self).active() == old(self).active(),
            final(self).views@ == old(self).views@,
    {
        let ghost e0 = self.editors@;
        proof {
            lemma_increasing_unique(e0);
            lemma_pairs_remove(e0, k as int);
        }
        self.editors.remove(k);
        proof {
            let e = self.editors@;
            assert(e == e0.remove(k as int));
            assert(e[0] == e0[0]);
            assert forall|a: int, b: int| 0 <= a < b < e.len() implies e[a].0 < e[b].0 by {
                let oa = if a < k { a } else { a + 1 };
                let ob = if b < k { b } else { b + 1 };
                assert(e[a] == e0[oa] && e[b] == e0[ob]);
            }
            assert forall|a: int| 0 <= a < e.len() implies (#[trigger] e[a]).0 < self.editor_id_seq && e[a].1.wf() by {
                let oa = if a < k { a } else { a + 1 };
                assert(e[a] == e0[oa]);
            }
            assert forall|j: int| 0 <= j < self.views@.len() implies keys_of(e).contains(
                (#[trigger] self.views@[j]).1,
            ) by {
                let x = self.views@[j].1;
                let t = choose|t: int| 0 <= t < keys_of(e0).len() && keys_of(e0)[t] == x;
                assert(t != k);
                let nt = if t < k { t } else { t - 1 };
                assert(e[nt] == e0[t]);
                assert(keys_of(e)[nt] == x);
            }
        }
    }

    /// Closes the view `view_id` and removes its editor, unless it is the scratch
    /// editor, makes the view above it (or the top view) active and returns its
    /// id; `None` where it is the only view, in which case nothing changes.
    pub fn kill_window_for(&mut self, view_id: u32) -> (r: Option<u32>)
        requires
            old(self).wf(),
            old(self).attached().contains_key(view_id),
        ensures
            final(self).wf(),
            final(self).next_editor_id() == old(self).next_editor_id(),
            r is None <==> old(self).space().view_seq().len() == 1,
            r is None ==> final(self).space().view_seq() == old(self).space().view_seq() && final(self).attached()
                == old(self).attached() && final(self).active() == old(self).active() && final(self).editors_map()
                == old(self).editors_map() && final(self).editor_ids() == old(self).editor_ids(),
            r matches Some(next) ==> {
                let i = index_of(old(self).space().ids(), view_id);
                let shown = old(self).attached()[view_id];
                &&& final(self).space().ids() == old(self).space().ids().remove(i)
                &&& next == final(self).space().ids()[if i > 0 { i - 1 } else { 0 }]
                &&& final(self).attached() == old(self).attached().remove(view_id)
                &&& final(self).active() == next
                &&& final(self).editors_map() == if shown == SCRATCH_ID {
                    old(self).editors_map()
                } else {
                    old(self).editors_map().remove(shown)
                }
            },
    {
        proof {
            self.lemma_consistent();
        }
        let editor_id = self.view_editor(view_id);
        let r = self.close_window_for(view_id);
        if r.is_some() && editor_id != SCRATCH_ID {
            proof {
                lemma_increasing_unique(self.editors@);
                lemma_pairs_map(self.editors@);
                lemma_pairs_map(self.views@);
                lemma_pairs_map(old(self).views@);
            }
            let k = self.editor_pos(editor_id).unwrap();
            proof {
                assert(k > 0) by {
                    if k == 0 {
                        assert(self.editors@[0].0 == SCRATCH_ID);
                    }
                }
                assert forall|j: int| 0 <= j < self.views@.len() implies self.views@[j].1 != editor_id by {
                    let x = self.views@[j].0;
                    assert(self.attached().contains_key(x));
                    assert(old(self).attached().contains_key(x) && x != view_id);
                    old(self).lemma_consistent();
                    assert(old(self).attached()[x] != old(self).attached()[view_id]);
                }
            }
            self.remove_editor_at(k);
        }
        r
    }

    /// Closes the active view and removes its editor, unless it is the scratch
    /// editor, and returns the id of the view made active; `None` where it is the
    /// only view.
    pub fn kill_window(&mut self) -> (r: Option<u32>)
        requires
            old(self).wf(),
        ensures
            final(self).wf(),
            r is None <==> old(self).space().view_seq().len() == 1,
            r is None ==> final(self).space().view_seq() == old(self).space().view_seq() && final(self).attached()
                == old(self).attached() && final(self).active() == old(self).active() && final(self).editors_map()
                == old(self).editors_map(),
            r matches Some(next) ==> {
                let i = index_of(old(self).space().ids(), old(self).active());
                let shown = old(self).attached()[old(self).active()];
                &&& final(self).space().ids() == old(self).space().ids().remove(i)
                &&& next == final(self).space().ids()[if i > 0 { i - 1 } else { 0 }]
                &&& final(self).attached() == old(self).attached().remove(old(self).active())
                &&& final(self).active() == next
                &&& final(self).editors_map() == if shown == SCRATCH_ID {
                    old(self).editors_map()
                } else {
                    old(self).editors_map().remove(shown)
                }
            },
    {
        proof {
            self.lemma_consistent();
        }
        let v = self.active_view_id;
        self.kill_window_for(v)
    }

    /// Removes the editor `editor_id` and returns its id, unless a view shows it or
    /// it is the scratch editor, in which case nothing changes and the result is
    /// `None`.
    pub fn close_editor(&mut self, editor_id: u32) -> (r: Option<u32>)
        requires
            old(self).wf(),
            old(self).editors_map().contains_key(editor_id),
        ensures
            final(self).wf(),
            final(self).space() == old(self).space(),
            final(self).attached() == old(self).attached(),
            final(self).active() == old(self).active(),
            final(self).next_editor_id() == old(self).next_editor_id(),
            r is None <==> editor_id == SCRATCH_ID || exists|v: u32|
                #[trigger] old(self).attached().contains_key(v) && old(self).attached()[v] == editor_id,
            r is None ==> final(self).editors_map() == old(self).editors_map(),
            r is Some ==> r == Some(editor_id) && final(self).editors_map() == old(self).editors_map().remove(
                editor_id,
            ),
    {
        proof {
            lemma_increasing_unique(self.editors@);
            lemma_pairs_map(self.editors@);
            lemma_pairs_map(self.views@);
        }
        if editor_id == SCRATCH_ID {
            return None;
        }
        match self.shown_pos(editor_id) {
            Some(j) => {
                proof {
                    assert(old(self).attached().contains_key(self.views@[j as int].0));
                }
                None
            },
            None => {
                proof {
                    assert forall|x: u32| #[trigger] old(self).attached().contains_key(x) implies old(
                        self,
                    ).attached()[x] != editor_id by {
                        let i = choose|i: int| 0 <= i < keys_of(self.views@).len() && keys_of(self.views@)[i] == x;
                        assert(self.views@[i].0 == x);
                    }
                }
                let k = self.editor_pos(editor_id).unwrap();
                proof {
                    assert(k > 0) by {
                        if k == 0 {
                            assert(self.editors@[0].0 == SCRATCH_ID);
                        }
                    }
                }
                self.remove_editor_at(k);
                Some(editor_id)
            },
        }
    }
}

impl Environment {
    /// Resizes the workspace to a terminal of `rows` and `cols`, which drops views
    /// from the bottom up, never the active one, where the others no longer fit;
    /// the editors of dropped views stay.
    pub fn resize(&mut self, rows: u32, cols: u32)
        requires
            old(self).wf(),
        ensures
            final(self).wf(),
            final(self).editors_map() == old(self).editors_map(),
            final(self).editor_ids() == old(self).editor_ids(),
            final(self).next_editor_id() == old(self).next_editor_id(),
            final(self).active() == old(self).active(),
            final(self).space().term_size() == clamped(rows, cols),
            final(self).space().shared_color_spec() == old(self).space().shared_color_spec(),
            final(self).space().next_id_spec() == old(self).space().next_id_spec(),
            clamped(rows, cols) == old(self).space().term_size() ==> final(self).space().view_seq() == old(
                self,
            ).space().view_seq() && final(self).attached() == old(self).attached(),
            clamped(rows, cols) != old(self).space().term_size() ==> {
                let total = clamped(rows, cols).rows - 1;
                let n = old(self).space().view_seq().len() as int;
                let count = if total / n < MIN_VIEW_ROWS { total / (MIN_VIEW_ROWS as int) } else { n };
                final(self).space().ids() == kept_ids(old(self).space().ids(), old(self).active(), (n - count) as nat)
            },
            forall|v: u32| #[trigger] final(self).attached().contains_key(v) <==> final(self).space().ids().contains(v),
            forall|v: u32| #[trigger] final(self).attached().contains_key(v) ==> final(self).attached()[v] == old(
                self,
            ).attached()[v],
    {
        proof {
            self.lemma_consistent();
        }
        let ghost ids0 = self.workspace.ids();
        match self.workspace.resize(rows, cols, self.active_view_id) {
            None => {
                proof {
                    self.lemma_consistent();
                }
            },
            Some(_) => {
                let ghost v0 = self.views@;
                let ghost ids = self.workspace.ids();
                proof {
                    let total = clamped(rows, cols).rows - 1;
                    let n = ids0.len() as int;
                    let count = if total / n < MIN_VIEW_ROWS { total / (MIN_VIEW_ROWS as int) } else { n };
                    lemma_kept_ids(ids0, self.active_view_id, (n - count) as nat);
                }
                let mut kept: Vec<(u32, u32)> = Vec::new();
                let ghost mut idx: Seq<int> = Seq::empty();
                let mut i: usize = 0;
                while i < self.views.len()
                    invariant
                        self.views@ == v0,
                        self.workspace.wf(),
                        self.workspace.ids() == ids,
                        i <= v0.len(),
                        kept@.len() == idx.len(),
                        forall|j: int| 0 <= j < idx.len() ==> 0 <= #[trigger] idx[j] < i && kept@[j] == v0[idx[j]],
                        forall|a: int, b: int| 0 <= a < b < idx.len() ==> idx[a] < idx[b],
                        forall|j: int| 0 <= j < kept@.len() ==> ids.contains((#[trigger] kept@[j]).0),
                        forall|t: int|
                            0 <= t < i && ids.contains(#[trigger] v0[t].0) ==> exists|j: int|
                                0 <= j < idx.len() && idx[j] == t,
                    decreases v0.len() - i,
                {
                    let entry = self.views[i];
                    let found = self.workspace.find_view(entry.0).is_some();
                    let ghost idx_old = idx;
                    if found {
                        kept.push(entry);
                        proof {
                            idx = idx.push(i as int);
                            assert(idx[idx.len() - 1] == i);
                        }
                    }
                    proof {
                        assert forall|t: int| 0 <= t < i + 1 && ids.contains(#[trigger] v0[t].0) implies exists|j: int|
                            0 <= j < idx.len() && idx[j] == t by {
                            if t == i {
                                assert(found);
                                assert(idx[idx.len() - 1] == t);
                            } else {
                                let j = choose|j: int| 0 <= j < idx_old.len() && idx_old[j] == t;
                                assert(idx[j] == t);
                            }
                        }
                    }
                    i = i + 1;
                }
                self.views = kept;
                proof {
                    let vs = self.views@;
                    let e = self.editors@;
                    assert(unique(vs)) by {
                        assert forall|a: int, b: int| 0 <= a < b < vs.len() implies vs[a].0 != vs[b].0 by {
                            assert(idx[a] < idx[b]);
                            assert(vs[a] == v0[idx[a]] && vs[b] == v0[idx[b]]);
                        }
                    }
                    assert forall|a: int, b: int| 0 <= a < b < vs.len() implies vs[a].1 != vs[b].1 by {
                        assert(idx[a] < idx[b]);
                        assert(vs[a] == v0[idx[a]] && vs[b] == v0[idx[b]]);
                    }
                    assert forall|j: int| 0 <= j < vs.len() implies keys_of(e).contains((#[trigger] vs[j]).1) by {
                        assert(vs[j] == v0[idx[j]]);
                    }
                    assert forall|t: int| 0 <= t < ids.len() implies keys_of(vs).contains(#[trigger] ids[t]) by {
                        assert(ids0.contains(ids[t]));
                        let u = choose|u: int| 0 <= u < ids0.len() && ids0[u] == ids[t];
                        assert(keys_of(v0).contains(ids0[u]));
                        let w = choose|w: int| 0 <= w < keys_of(v0).len() && keys_of(v0)[w] == ids0[u];
                        assert(v0[w].0 == ids[t]);
                        assert(ids.contains(v0[w].0));
                        let j = choose|j: int| 0 <= j < idx.len() && idx[j] == w;
                        assert(vs[j] == v0[w]);
                        assert(keys_of(vs)[j] == ids[t]);
                    }
                    lemma_pairs_map(vs);
                    lemma_pairs_map(v0);
                    assert forall|v: u32| #[trigger] self.attached().contains_key(v) implies self.attached()[v]
                        == old(self).attached()[v] by {
                        let j = choose|j: int| 0 <= j < keys_of(vs).len() && keys_of(vs)[j] == v;
                        assert(vs[j] == v0[idx[j]]);
                        assert(vs[j].0 == v);
                    }
                    assert forall|v: u32| #[trigger] self.attached().contains_key(v) <==> self.space().ids().contains(v) by {
                        if self.attached().contains_key(v) {
                            let j = choose|j: int| 0 <= j < keys_of(vs).len() && keys_of(vs)[j] == v;
                            assert(vs[j].0 == v);
                        }
                        if ids.contains(v) {
                            let t = choose|t: int| 0 <= t < ids.len() && ids[t] == v;
                            assert(keys_of(vs).contains(ids[t]));
                        }
                    }
                }
            },
        }
    }
}

impl Environment {
    /// Returns the editor `editor_id` to change it; the environment stays
    /// consistent as long as the editor does.
    pub fn editor_mut(&mut self, editor_id: u32) -> (e: &mut Editor)
        requires
            old(self).wf(),
            old(self).editors_map().contains_key(editor_id),
        ensures
            *e == old(self).editors_map()[editor_id],
            final(self).editors_map() == old(self).editors_map().insert(editor_id, *final(e)),
            final(self).editor_ids() == old(self).editor_ids(),
            final(self).next_editor_id() == old(self).next_editor_id(),
            final(self).space() == old(self).space(),
            final(self).attached() == old(self).attached(),
            final(self).active() == old(self).active(),
            final(self).clip() == old(self).clip(),
            final(e).wf() ==> final(self).wf(),
    {
        proof {
            lemma_increasing_unique(self.editors@);
            lemma_pairs_map(self.editors@);
        }
        let k = self.editor_pos(editor_id).unwrap();
        let ghost e0 = self.editors@;
        let e = &mut self.editors[k].1;
        proof {
            lemma_pairs_update(e0, k as int, *final(e));
        }
        e
    }
}

impl Environment {
    /// Returns the local clipboard.
    pub fn clipboard(&self) -> (c: &Clipboard)
        ensures
            c.text() == self.clip(),
    {
        &self.clipboard
    }

    /// Puts `text` on the local clipboard.
    pub fn set_clipboard(&mut self, text: Vec<char>)
        requires
            old(self).wf(),
        ensures
            final(self).wf(),
            final(self).same_parts(&*old(self)),
            final(self).active() == old(self).active(),
            final(self).clip() == Some(text@),
    {
        self.clipboard.set_text(text);
    }
}

} // verus!

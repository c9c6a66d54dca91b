//! The editing core of an editor: a buffer, a cursor position in it, a selection
//! mark, and the _undo_ and _redo_ logs of changes.
//!
//! Every change made through an editor is logged, adjacent single-character
//! changes being combined, so that [`Editor::undo`] can revert it and
//! [`Editor::redo`] apply it again. The logs are described by [`history_ok`] and
//! [`future_ok`]: reverting the logged changes one after the other, from the most
//! recent, always succeeds and passes through the texts that the buffer held
//! before each change.

use crate::buffer::{Buffer, MAX_CAPACITY};
use crate::nav::{find_location, find_pos, Location};
use crate::size::Point;
use crate::source::Source;
use crate::strings::{is_whitespace, is_ws};
use crate::text::{count_nl, lemma_line_start_bounds, lemma_next_line_bounds, line_start, next_line};
use crate::grid::Cell;
use crate::render::{render, rendered_row, Style};
use crate::syntax::Syntax;
use crate::token::{span_colors, spans_of, Tokenizer};
use crate::wrap::WrappingRenderer;
use crate::search::SearchPattern;
use vstd::prelude::*;

verus! {

/// Marks the starting point of a selection in the buffer: the buffer position, and
/// `true` if the mark is _soft_, `false` if _hard_.
#[derive(Clone, Copy, PartialEq, Eq, Structural, Debug)]
pub struct Mark(pub usize, pub bool);

/// A means of capturing the visual state of an editor for the purpose of possible
/// restoration.
#[derive(Clone, Copy, PartialEq, Eq, Structural, Debug)]
pub struct Capture {
    pub pos: usize,
    pub cursor: Point,
    pub mark: Option<Mark>,
}

impl Capture {
    /// Returns a new capture with the mark cleared.
    pub fn without_mark(&self) -> (c: Capture)
        ensures
            c == (Capture { mark: None, ..*self }),
    {
        Capture { mark: None, ..*self }
    }
}

/// The distinct types of changes to a buffer recorded in the _undo_ and _redo_ logs.
#[derive(Debug)]
pub enum Change {
    /// The insertion of text: the buffer position prior to insertion and the text
    /// inserted.
    Insert(usize, Vec<char>),
    /// The removal of text before the cursor: the buffer position prior to removal
    /// and the text removed.
    RemoveBefore(usize, Vec<char>),
    /// The removal of text after the cursor: the buffer position prior to removal and
    /// the text removed.
    RemoveAfter(usize, Vec<char>),
    /// The removal of selected text before the cursor: the buffer position prior to
    /// removal, the text removed, and whether the selection was _soft_.
    RemoveSelectionBefore(usize, Vec<char>, bool),
    /// The removal of selected text after the cursor: the buffer position prior to
    /// removal, the text removed, and whether the selection was _soft_.
    RemoveSelectionAfter(usize, Vec<char>, bool),
}

/// Indicates how a change should be logged.
pub enum Log {
    /// No selection was active when the change was made.
    Normal,
    /// A selection was active when the change was made: `true` if it was a _soft_
    /// mark and `false` if a _hard_ mark.
    Selection(bool),
}

// ---------------------------------------------------------------------------
// The effect of changes on text.
// ---------------------------------------------------------------------------

/// The cursor position recorded with a change.
pub open spec fn change_pos(c: Change) -> int {
    match c {
        Change::Insert(p, _) => p as int,
        Change::RemoveBefore(p, _) => p as int,
        Change::RemoveAfter(p, _) => p as int,
        Change::RemoveSelectionBefore(p, _, _) => p as int,
        Change::RemoveSelectionAfter(p, _, _) => p as int,
    }
}

/// The text inserted or removed by a change.
pub open spec fn change_text(c: Change) -> Seq<char> {
    match c {
        Change::Insert(_, t) => t@,
        Change::RemoveBefore(_, t) => t@,
        Change::RemoveAfter(_, t) => t@,
        Change::RemoveSelectionBefore(_, t, _) => t@,
        Change::RemoveSelectionAfter(_, t, _) => t@,
    }
}

/// The change inserted text.
pub open spec fn is_insert(c: Change) -> bool {
    c is Insert
}

/// The change removed text before the cursor, so that the text removed ended at
/// the recorded position.
pub open spec fn is_before(c: Change) -> bool {
    c is RemoveBefore || c is RemoveSelectionBefore
}

/// Where the text of a change begins, in the text without it.
pub open spec fn change_start(c: Change) -> int {
    if is_before(c) {
        change_pos(c) - change_text(c).len()
    } else {
        change_pos(c)
    }
}

/// `t` without its part from `a` to `b`.
pub open spec fn cut(t: Seq<char>, a: int, b: int) -> Seq<char> {
    t.take(a) + t.skip(b)
}

/// `t` with `s` inserted at `a`.
pub open spec fn splice(t: Seq<char>, a: int, s: Seq<char>) -> Seq<char> {
    t.take(a) + s + t.skip(a)
}

/// `t` holds `s` at `a`.
pub open spec fn holds_at(t: Seq<char>, a: int, s: Seq<char>) -> bool {
    0 <= a && a + s.len() <= t.len() && t.subrange(a, a + s.len()) == s
}

/// The text with the change made, from the text `t` without it.
pub open spec fn apply(t: Seq<char>, c: Change) -> Seq<char> {
    let a = change_start(c);
    let s = change_text(c);
    if is_insert(c) {
        splice(t, a, s)
    } else {
        cut(t, a, a + s.len())
    }
}

/// The change can be made to `t`: the position of an insertion lies in `t`, and
/// `t` holds the text of a removal where it was removed.
pub open spec fn applicable(t: Seq<char>, c: Change) -> bool {
    let a = change_start(c);
    let s = change_text(c);
    &&& if is_insert(c) {
        0 <= a <= t.len()
    } else {
        holds_at(t, a, s)
    }
    &&& apply(t, c).len() <= MAX_CAPACITY
}

/// The text without the change, from the text `t` with it.
pub open spec fn revert(t: Seq<char>, c: Change) -> Seq<char> {
    let a = change_start(c);
    let s = change_text(c);
    if is_insert(c) {
        cut(t, a, a + s.len())
    } else {
        splice(t, a, s)
    }
}

/// The change can be reverted from `t`: `t` holds the text of an insertion where it
/// was inserted, and the position of a removal lies in `t`.
pub open spec fn revertible(t: Seq<char>, c: Change) -> bool {
    let a = change_start(c);
    let s = change_text(c);
    &&& if is_insert(c) {
        holds_at(t, a, s)
    } else {
        0 <= a <= t.len()
    }
    &&& revert(t, c).len() <= MAX_CAPACITY
}

/// The _undo_ log `u` (oldest first) is a history of `t`: its most recent change can
/// be reverted from `t`, and the rest is a history of the text before it.
pub open spec fn history_ok(t: Seq<char>, u: Seq<(u64, Change)>) -> bool
    decreases u.len(),
{
    u.len() > 0 ==> revertible(t, u.last().1) && history_ok(revert(t, u.last().1), u.drop_last())
}

/// The _redo_ log `r` (last to be redone first) is a future of `t`: its most
/// recent entry can be applied to `t`, and the rest is a future of the text then.
pub open spec fn future_ok(t: Seq<char>, r: Seq<(u64, Change)>) -> bool
    decreases r.len(),
{
    r.len() > 0 ==> applicable(t, r.last().1) && future_ok(apply(t, r.last().1), r.drop_last())
}

/// Reverting a change that was made gives back the text it was made to.
pub proof fn lemma_revert_apply(t: Seq<char>, c: Change)
    requires
        applicable(t, c),
        t.len() <= MAX_CAPACITY,
    ensures
        revertible(apply(t, c), c),
        revert(apply(t, c), c) == t,
{
    let a = change_start(c);
    let s = change_text(c);
    let u = apply(t, c);
    if is_insert(c) {
        assert(u.subrange(a, a + s.len()) =~= s);
        assert(cut(u, a, a + s.len()) =~= t);
    } else {
        assert(t.subrange(a, a + s.len()) == s);
        assert(splice(u, a, s) =~= t);
    }
}

/// Making a change that was reverted gives back the text it was reverted from.
pub proof fn lemma_apply_revert(t: Seq<char>, c: Change)
    requires
        revertible(t, c),
        t.len() <= MAX_CAPACITY,
    ensures
        applicable(revert(t, c), c),
        apply(revert(t, c), c) == t,
{
    let a = change_start(c);
    let s = change_text(c);
    let u = revert(t, c);
    if is_insert(c) {
        assert(t.subrange(a, a + s.len()) == s);
        assert(splice(u, a, s) =~= t);
    } else {
        assert(u.subrange(a, a + s.len()) =~= s);
        assert(cut(u, a, a + s.len()) =~= t);
    }
}

/// Dropping the oldest entries of a history leaves a history.
proof fn lemma_history_skip(t: Seq<char>, u: Seq<(u64, Change)>, n: int)
    requires
        history_ok(t, u),
        0 <= n <= u.len(),
    ensures
        history_ok(t, u.skip(n)),
    decreases u.len(),
{
    if n < u.len() {
        assert(u.skip(n).drop_last() =~= u.drop_last().skip(n));
        assert(u.skip(n).last() == u.last());
        lemma_history_skip(revert(t, u.last().1), u.drop_last(), n);
    } else {
        assert(u.skip(n).len() == 0);
    }
}

/// The change `c`, of a single character, continues the change `p` logged before it:
/// an insertion right after an insertion, a removal before the cursor right before
/// such a removal, or a removal after the cursor at the same position as such a
/// removal.
pub open spec fn can_combine(c: Change, p: Change) -> bool {
    &&& change_text(c).len() == 1
    &&& match (c, p) {
        (Change::Insert(pos, _), Change::Insert(p_pos, p_text)) => p_pos + p_text@.len() == pos,
        (Change::RemoveBefore(pos, _), Change::RemoveBefore(p_pos, p_text)) => pos + p_text@.len()
            == p_pos,
        (Change::RemoveAfter(pos, _), Change::RemoveAfter(p_pos, _)) => p_pos == pos,
        _ => false,
    }
}

/// `r` is the single change that `c` and `p` combine into: the change `p` with the
/// character of `c` added on the side where it was inserted or removed.
pub open spec fn combination_of(c: Change, p: Change, r: Change) -> bool {
    match (p, r) {
        (Change::Insert(p_pos, p_text), Change::Insert(pos, text)) => pos == p_pos && text@
            == p_text@ + change_text(c),
        (Change::RemoveBefore(p_pos, p_text), Change::RemoveBefore(pos, text)) => pos == p_pos
            && text@ == change_text(c) + p_text@,
        (Change::RemoveAfter(p_pos, p_text), Change::RemoveAfter(pos, text)) => pos == p_pos
            && text@ == p_text@ + change_text(c),
        _ => false,
    }
}

/// The combination of two successive changes reverts, in one step, the text after
/// both to the text before both.
proof fn lemma_combination(t1: Seq<char>, t2: Seq<char>, c: Change, p: Change, r: Change)
    requires
        revertible(t1, p),
        revertible(t2, c),
        revert(t2, c) == t1,
        can_combine(c, p),
        combination_of(c, p, r),
        t1.len() <= MAX_CAPACITY,
    ensures
        revertible(t2, r),
        revert(t2, r) == revert(t1, p),
{
    let t0 = revert(t1, p);
    let cs = change_text(c);
    let ps = change_text(p);
    match p {
        Change::Insert(pp, _) => {
            let a = pp as int;
            let pos = change_pos(c);
            assert(t1.subrange(a, a + ps.len()) == ps);
            assert(t2.subrange(pos, pos + 1) == cs);
            assert(t2.subrange(a, a + ps.len() + 1) =~= ps + cs);
            assert(cut(t2, a, a + ps.len() + 1) =~= t0);
        },
        Change::RemoveBefore(pp, _) => {
            let pos = change_pos(c);
            assert(pos == pp - ps.len());
            assert(t1 =~= cut(t0, pos, pp as int));
            assert(t2 =~= cut(t1, pos - 1, pos));
            assert(splice(t2, pos - 1, cs + ps) =~= t0);
        },
        Change::RemoveAfter(pp, _) => {
            let a = pp as int;
            assert(t1 =~= cut(t0, a, a + ps.len()));
            assert(t2 =~= cut(t1, a, a + 1));
            assert(splice(t2, a, ps + cs) =~= t0);
        },
        _ => {},
    }
}

/// Returns a copy of `v`.
fn copy_chars(v: &Vec<char>) -> (w: Vec<char>)
    ensures
        w@ == v@,
{
    let mut w: Vec<char> = Vec::new();
    let mut i: usize = 0;
    while i < v.len()
        invariant
            i <= v@.len(),
            w@ == v@.take(i as int),
        decreases v@.len() - i,
    {
        w.push(v[i]);
        i = i + 1;
        assert(w@ =~= v@.take(i as int));
    }
    assert(v@.take(v@.len() as int) =~= v@);
    w
}

impl Change {
    /// Returns a new change if `self` can be combined with `prior`, otherwise `None`.
    ///
    /// This combines changes that insert or remove a single character adjacent to
    /// the change before, so that one undo reverts a run of typing or deleting.
    fn possibly_combine(&self, prior: &Change) -> (r: Option<Change>)
        ensures
            r is Some <==> can_combine(*self, *prior),
            r matches Some(x) ==> combination_of(*self, *prior, x),
    {
        match self {
            Change::Insert(pos, text) => {
                if text.len() == 1 {
                    match prior {
                        Change::Insert(p_pos, p_text) => {
                            if p_text.len() <= *pos && *pos - p_text.len() == *p_pos {
                                let mut t = copy_chars(p_text);
                                t.push(text[0]);
                                assert(t@ =~= p_text@ + text@);
                                return Some(Change::Insert(*p_pos, t));
                            }
                        },
                        _ => {},
                    }
                }
                None
            },
            Change::RemoveBefore(pos, text) => {
                if text.len() == 1 {
                    match prior {
                        Change::RemoveBefore(p_pos, p_text) => {
                            if p_text.len() <= *p_pos && *p_pos - p_text.len() == *pos {
                                let mut t = copy_chars(p_text);
                                t.insert(0, text[0]);
                                assert(t@ =~= text@ + p_text@);
                                return Some(Change::RemoveBefore(*p_pos, t));
                            }
                        },
                        _ => {},
                    }
                }
                None
            },
            Change::RemoveAfter(pos, text) => {
                if text.len() == 1 {
                    match prior {
                        Change::RemoveAfter(p_pos, p_text) => {
                            if *p_pos == *pos {
                                let mut t = copy_chars(p_text);
                                t.push(text[0]);
                                assert(t@ =~= p_text@ + text@);
                                return Some(Change::RemoveAfter(*p_pos, t));
                            }
                        },
                        _ => {},
                    }
                }
                None
            },
            _ => None,
        }
    }
}

// ---------------------------------------------------------------------------
// Words.
// ---------------------------------------------------------------------------

/// The position before the run of whitespace that ends at `i` in `t`.
pub open spec fn skip_ws_back(t: Seq<char>, i: int) -> int
    decreases i,
{
    if 0 < i <= t.len() && is_ws(t[i - 1]) {
        skip_ws_back(t, i - 1)
    } else {
        i
    }
}

/// The position before the run of non-whitespace that ends at `i` in `t`.
pub open spec fn skip_word_back(t: Seq<char>, i: int) -> int
    decreases i,
{
    if 0 < i <= t.len() && !is_ws(t[i - 1]) {
        skip_word_back(t, i - 1)
    } else {
        i
    }
}

/// The position after the run of non-whitespace that starts at `i` in `t`.
pub open spec fn skip_word_fwd(t: Seq<char>, i: int) -> int
    decreases t.len() - i,
{
    if 0 <= i < t.len() && !is_ws(t[i]) {
        skip_word_fwd(t, i + 1)
    } else {
        i
    }
}

/// The position after the run of whitespace that starts at `i` in `t`.
pub open spec fn skip_ws_fwd(t: Seq<char>, i: int) -> int
    decreases t.len() - i,
{
    if 0 <= i < t.len() && is_ws(t[i]) {
        skip_ws_fwd(t, i + 1)
    } else {
        i
    }
}

/// The start of the word before `pos`: past any whitespace, then past the word.
pub open spec fn word_before(t: Seq<char>, pos: int) -> int {
    skip_word_back(t, skip_ws_back(t, pos))
}

/// The start of the word after `pos`: past the rest of the current word, then past
/// any whitespace.
pub open spec fn word_after(t: Seq<char>, pos: int) -> int {
    skip_ws_fwd(t, skip_word_fwd(t, pos))
}

/// Returns the position of the word that comes before `pos`.
fn find_word_before(buf: &Buffer, pos: usize) -> (r: usize)
    requires
        buf.wf(),
        pos <= buf@.len(),
    ensures
        r == word_before(buf@, pos as int),
{
    let ghost t = buf@;
    let mut i = pos;
    while i > 0 && is_whitespace(buf.char_at(i - 1))
        invariant
            buf.wf(),
            t == buf@,
            i <= t.len(),
            skip_ws_back(t, i as int) == skip_ws_back(t, pos as int),
        decreases i,
    {
        i = i - 1;
    }
    let ghost j = i;
    while i > 0 && !is_whitespace(buf.char_at(i - 1))
        invariant
            buf.wf(),
            t == buf@,
            i <= t.len(),
            j == skip_ws_back(t, pos as int),
            skip_word_back(t, i as int) == skip_word_back(t, j as int),
        decreases i,
    {
        i = i - 1;
    }
    i
}

/// Returns the position of the word that follows after `pos`.
fn find_word_after(buf: &Buffer, pos: usize) -> (r: usize)
    requires
        buf.wf(),
        pos <= buf@.len(),
    ensures
        r == word_after(buf@, pos as int),
{
    let ghost t = buf@;
    let n = buf.size();
    let mut i = pos;
    while i < n && !is_whitespace(buf.char_at(i))
        invariant
            buf.wf(),
            t == buf@,
            n == t.len(),
            i <= t.len(),
            skip_word_fwd(t, i as int) == skip_word_fwd(t, pos as int),
        decreases n - i,
    {
        i = i + 1;
    }
    let ghost j = i;
    while i < n && is_whitespace(buf.char_at(i))
        invariant
            buf.wf(),
            t == buf@,
            n == t.len(),
            i <= t.len(),
            j == skip_word_fwd(t, pos as int),
            skip_ws_fwd(t, i as int) == skip_ws_fwd(t, j as int),
        decreases n - i,
    {
        i = i + 1;
    }
    i
}

// ---------------------------------------------------------------------------
// The editor.
// ---------------------------------------------------------------------------

/// The number of entries to which the _undo_ log is trimmed.
pub const UNDO_SOFT_LIMIT: usize = 1024;

/// The number of entries beyond which the _undo_ log is trimmed.
pub const UNDO_HARD_LIMIT: usize = 1280;

/// The _undo_ log after `c` is pushed onto `u` with `clock`, trimmed to the soft
/// limit once it exceeds the hard limit.
pub open spec fn pushed(u: Seq<(u64, Change)>, clock: u64, c: Change) -> Seq<(u64, Change)> {
    let v = u.push((clock, c));
    if v.len() > UNDO_HARD_LIMIT {
        v.skip(v.len() - UNDO_SOFT_LIMIT)
    } else {
        v
    }
}

/// An editing session over a [`Buffer`]: a cursor position, an optional selection
/// mark, and the logs of changes.
pub struct Editor {
    /// The source of the buffer.
    source: Source,
    /// Buffer containing the contents of this editor.
    buffer: Buffer,
    /// The buffer position of the cursor.
    pos: usize,
    /// A value of `true` implies that _mutable_ operations are not allowed, though
    /// the notion of mutability is context-dependent and must be enforced by the
    /// caller.
    readonly: bool,
    /// A logical clock that increments with each change to the buffer.
    clock: u64,
    /// Changes that can be _undone_, each with the value of `clock` prior to it.
    undo: Vec<(u64, Change)>,
    /// Changes that can be _redone_, each with the value of `clock` prior to it.
    redo: Vec<(u64, Change)>,
    /// The value of `clock` when the buffer was most recently committed to storage.
    commit_clock: u64,
    /// An optional mark used when selecting text.
    mark: Option<Mark>,
    /// Indicates whether _hard_ or _soft_ tabs are inserted.
    tab_hard: bool,
    /// The width of tab stops in number of columns.
    tab_cols: u32,
    /// Indicates that EOL characters should be written as `\r\n`.
    crlf: bool,
    /// The range of the current match of an active search, if any.
    matched: Option<(usize, usize)>,
    /// The tokenizer of the editor's syntax, if it has one.
    tokenizer: Option<Tokenizer>,
    /// The value of `clock` when the text was most recently tokenized.
    tokenize_clock: u64,
    /// The position and the pattern of the most recent search, for a later search
    /// for the next match.
    last_match: Option<(usize, SearchPattern)>,
}

impl Editor {
    /// The buffer and the position are consistent.
    pub closed spec fn basic(&self) -> bool {
        &&& self.buffer.wf()
        &&& self.pos <= self.buffer@.len()
    }

    /// The editor's consistency: the buffer and position, and the logs, which are a
    /// history and a future of the text, with clocks below the maximum.
    pub closed spec fn wf(&self) -> bool {
        &&& self.basic()
        &&& history_ok(self.buffer@, self.undo@)
        &&& future_ok(self.buffer@, self.redo@)
        &&& self.undo@.len() + self.redo@.len() <= UNDO_HARD_LIMIT
        &&& forall|i: int| 0 <= i < self.undo@.len() ==> (#[trigger] self.undo@[i]).0 < u64::MAX
        &&& forall|i: int| 0 <= i < self.redo@.len() ==> (#[trigger] self.redo@[i]).0 < u64::MAX
        &&& self.tokenizer matches Some(t) ==> t.ready()
    }

    /// The source of the buffer.
    pub closed spec fn source_of(&self) -> Source {
        self.source
    }

    /// The text of the buffer.
    pub closed spec fn text(&self) -> Seq<char> {
        self.buffer@
    }

    /// The buffer position of the cursor.
    pub closed spec fn cursor_pos(&self) -> int {
        self.pos as int
    }

    /// The logical clock.
    pub closed spec fn clock(&self) -> u64 {
        self.clock
    }

    /// The clock at the last commit.
    pub closed spec fn commit_clock(&self) -> u64 {
        self.commit_clock
    }

    /// The _undo_ log, oldest first.
    pub closed spec fn undo_log(&self) -> Seq<(u64, Change)> {
        self.undo@
    }

    /// The _redo_ log, next to be redone last.
    pub closed spec fn redo_log(&self) -> Seq<(u64, Change)> {
        self.redo@
    }

    /// The selection mark.
    pub closed spec fn mark(&self) -> Option<Mark> {
        self.mark
    }

    /// Whether the editor is read-only.
    pub closed spec fn readonly(&self) -> bool {
        self.readonly
    }

    /// The tab settings: hard tabs, and the width of tab stops.
    pub closed spec fn tabs(&self) -> (bool, u32) {
        (self.tab_hard, self.tab_cols)
    }

    /// Whether lines end with `\r\n`.
    pub closed spec fn crlf(&self) -> bool {
        self.crlf
    }

    /// The matched range of an active search.
    pub closed spec fn matched(&self) -> Option<(usize, usize)> {
        self.matched
    }

    /// The position and the pattern of the most recent search.
    pub closed spec fn last_match(&self) -> Option<(usize, SearchPattern)> {
        self.last_match
    }

    /// The tokenizer of the editor's syntax, if it has one.
    pub closed spec fn tokens(&self) -> Option<Tokenizer> {
        self.tokenizer
    }

    /// The clock when the text was most recently tokenized.
    pub closed spec fn tokenize_clock(&self) -> u64 {
        self.tokenize_clock
    }

    /// The text is within capacity, the cursor within the text, and the logs are a
    /// history and a future of the text.
    pub proof fn lemma_wf(&self)
        requires
            self.wf(),
        ensures
            self.text().len() <= MAX_CAPACITY,
            0 <= self.cursor_pos() <= self.text().len(),
            history_ok(self.text(), self.undo_log()),
            future_ok(self.text(), self.redo_log()),
    {
        self.buffer.lemma_wf();
    }

    /// Creates a new, possibly `readonly` editor over `buffer`, or over an empty
    /// buffer when it is `None`, with its cursor at the buffer's insertion point.
    pub fn new(
        buffer: Option<Buffer>,
        readonly: bool,
        tab_hard: bool,
        tab_cols: u32,
        crlf: bool,
        syntax: Option<Syntax>,
    ) -> (e: Editor)
        requires
            buffer matches Some(b) ==> b.wf(),
            syntax matches Some(x) ==> x.wf(),
        ensures
            e.wf(),
            e.text() == (match buffer {
                Some(b) => b@,
                None => Seq::<char>::empty(),
            }),
            e.cursor_pos() == (match buffer {
                Some(b) => b.pos() as int,
                None => 0,
            }),
            e.readonly() == readonly,
            e.tabs() == (tab_hard, tab_cols),
            e.crlf() == crlf,
            e.clock() == 0,
            e.commit_clock() == 0,
            e.undo_log().len() == 0,
            e.redo_log().len() == 0,
            e.mark() is None,
            e.matched() is None,
            e.last_match() is None,
            e.source_of() == Source::Null,
            e.tokenize_clock() == 0,
            syntax is None ==> e.tokens() is None,
            syntax matches Some(x) ==> (e.tokens() matches Some(t) && *t.syntax_spec() == x && tokenized(e.text(), t)),
    {
        let buffer = match buffer {
            Some(b) => b,
            None => Buffer::new(),
        };
        proof {
            buffer.lemma_wf();
        }
        let tokenizer = match syntax {
            Some(x) => {
                let mut t = Tokenizer::new(x);
                t.tokenize(&buffer);
                Some(t)
            },
            None => None,
        };
        let pos = buffer.get_pos();
        Editor {
            source: Source::Null,
            buffer,
            pos,
            readonly,
            clock: 0,
            undo: Vec::new(),
            redo: Vec::new(),
            commit_clock: 0,
            mark: None,
            tab_hard,
            tab_cols,
            crlf,
            matched: None,
            tokenizer,
            tokenize_clock: 0,
            last_match: None,
        }
    }

    /// Tokenizes the text anew with the editor's syntax, if it has one (which text
    /// changes leave behind until then); all else stays.
    pub fn tokenize(&mut self)
        requires
            old(self).wf(),
        ensures
            final(self).wf(),
            keeps_content(*old(self), *final(self)),
            final(self).cursor_pos() == old(self).cursor_pos(),
            final(self).mark() == old(self).mark(),
            final(self).tokenize_clock() == old(self).clock(),
            old(self).tokens() is None ==> final(self).tokens() is None,
            old(self).tokens() matches Some(t) ==> (final(self).tokens() matches Some(u) && u.syntax_spec()
                == t.syntax_spec() && tokenized(final(self).text(), u)),
    {
        let mut t: Option<Tokenizer> = None;
        core::mem::swap(&mut t, &mut self.tokenizer);
        let t = match t {
            Some(mut x) => {
                x.tokenize(&self.buffer);
                Some(x)
            },
            None => None,
        };
        self.tokenizer = t;
        self.tokenize_clock = self.clock;
    }

    /// Returns `true` where the text changed since it was last tokenized.
    pub fn needs_tokenize(&self) -> (b: bool)
        ensures
            b == (self.tokens() is Some && self.tokenize_clock() != self.clock()),
    {
        self.tokenizer.is_some() && self.tokenize_clock != self.clock
    }

    /// Returns the syntax color of each position that was last tokenized.
    pub fn syntax_colors(&self) -> (v: Vec<Option<u8>>)
        requires
            self.wf(),
        ensures
            v@ == editor_colors(*self),
    {
        match &self.tokenizer {
            Some(t) => t.colors(),
            None => Vec::new(),
        }
    }

    /// Returns the selected range: between the mark and the cursor, or empty.
    pub fn selection(&self) -> (r: (usize, usize))
        ensures
            (r.0 as int, r.1 as int) == selected(*self),
    {
        match self.mark {
            Some(Mark(m, _)) => if m < self.pos { (m, self.pos) } else { (self.pos, m) },
            None => (0, 0),
        }
    }

    /// Renders the rows of the wrapping display `w` over the editor's text in the
    /// style `st`: the selection, the cursor's line and row, and the syntax colors
    /// last tokenized.
    pub fn render(&self, w: &WrappingRenderer, st: &Style) -> (g: Vec<Vec<Cell>>)
        requires
            self.wf(),
            w.wf(self.text()),
        ensures
            g@.len() == w.rows(),
            forall|i: int|
                0 <= i < g@.len() ==> (#[trigger] g@[i])@ == rendered_row(
                    self.text(),
                    w.cols(),
                    w.top_pos(),
                    *st,
                    w.cursor().row as int,
                    (count_nl(self.text().take(self.cursor_pos())) + 1) as int,
                    selected(*self),
                    editor_colors(*self),
                    i,
                ),
    {
        proof {
            self.lemma_wf();
            crate::text::lemma_count_nl_le_len(self.text().take(self.cursor_pos()));
        }
        let colors = self.syntax_colors();
        let sel = self.selection();
        let cline = self.buffer.line_of(self.pos) + 1;
        render(&self.buffer, w, st, cline, sel, &colors)
    }

    /// Returns `true` if editor can be modified.
    pub fn is_mutable(&self) -> (b: bool)
        ensures
            b == !self.readonly(),
    {
        !self.readonly
    }

    /// Returns the logical clock and its value at the last commit.
    pub fn clocks(&self) -> (r: (u64, u64))
        ensures
            r == (self.clock(), self.commit_clock()),
    {
        (self.clock, self.commit_clock)
    }

    /// Returns the width of tab stops in columns.
    pub fn tab_cols(&self) -> (n: u32)
        ensures
            n == self.tabs().1,
    {
        self.tab_cols
    }

    /// Returns the source of the buffer.
    pub fn source(&self) -> (s: &Source)
        ensures
            *s == self.source_of(),
    {
        &self.source
    }

    /// Changes the source associated with this editor.
    pub fn set_source(&mut self, source: Source)
        requires
            old(self).wf(),
        ensures
            final(self).wf(),
            final(self).source_of() == source,
            final(self).text() == old(self).text(),
            final(self).cursor_pos() == old(self).cursor_pos(),
            final(self).undo_log() == old(self).undo_log(),
            final(self).redo_log() == old(self).redo_log(),
            final(self).clock() == old(self).clock(),
            final(self).commit_clock() == old(self).commit_clock(),
            final(self).mark() == old(self).mark(),
            final(self).readonly() == old(self).readonly(),
            final(self).tabs() == old(self).tabs(),
            final(self).crlf() == old(self).crlf(),
            final(self).matched() == old(self).matched(),
    {
        self.source = source;
    }

    /// Returns a reference to the underlying buffer.
    pub fn buffer(&self) -> (b: &Buffer)
        requires
            self.wf(),
        ensures
            b.wf(),
            b@ == self.text(),
    {
        &self.buffer
    }

    /// Returns `true` if the buffer has changed since it was last committed.
    ///
    /// Changes reverted by undo can bring the clock back below the commit clock, so
    /// any difference between the two counts.
    pub fn is_dirty(&self) -> (b: bool)
        ensures
            b == (self.clock() != self.commit_clock()),
    {
        self.clock != self.commit_clock
    }

    /// Makes this editor _not_ dirty.
    pub fn clear_dirty(&mut self)
        requires
            old(self).wf(),
        ensures
            final(self).wf(),
            final(self).commit_clock() == old(self).clock(),
            final(self).clock() == old(self).clock(),
            final(self).text() == old(self).text(),
            final(self).cursor_pos() == old(self).cursor_pos(),
            final(self).undo_log() == old(self).undo_log(),
            final(self).redo_log() == old(self).redo_log(),
            final(self).mark() == old(self).mark(),
    {
        self.commit_clock = self.clock;
    }

    /// Returns the buffer position of the cursor.
    pub fn pos(&self) -> (p: usize)
        ensures
            p == self.cursor_pos(),
    {
        self.pos
    }

    /// Returns `true` if the tab mode is _hard_ and `false` if _soft_.
    pub fn get_tab(&self) -> (b: bool)
        ensures
            b == self.tabs().0,
    {
        self.tab_hard
    }

    /// Sets the tab mode based on the value of `hard`.
    pub fn set_tab(&mut self, hard: bool)
        requires
            old(self).wf(),
        ensures
            final(self).wf(),
            final(self).tabs() == (hard, old(self).tabs().1),
            final(self).crlf() == old(self).crlf(),
            final(self).text() == old(self).text(),
            final(self).cursor_pos() == old(self).cursor_pos(),
            final(self).undo_log() == old(self).undo_log(),
            final(self).redo_log() == old(self).redo_log(),
            final(self).clock() == old(self).clock(),
            final(self).commit_clock() == old(self).commit_clock(),
            final(self).mark() == old(self).mark(),
            final(self).readonly() == old(self).readonly(),
            final(self).matched() == old(self).matched(),
            final(self).source_of() == old(self).source_of(),
    {
        self.tab_hard = hard;
    }

    /// Returns `true` if EOL characters should be written as `\r\n`.
    pub fn get_crlf(&self) -> (b: bool)
        ensures
            b == self.crlf(),
    {
        self.crlf
    }

    /// Sets the CRLF behavior based on the value of `crlf`.
    pub fn set_crlf(&mut self, crlf: bool)
        requires
            old(self).wf(),
        ensures
            final(self).wf(),
            final(self).crlf() == crlf,
            final(self).tabs() == old(self).tabs(),
            final(self).text() == old(self).text(),
            final(self).cursor_pos() == old(self).cursor_pos(),
            final(self).undo_log() == old(self).undo_log(),
            final(self).redo_log() == old(self).redo_log(),
            final(self).clock() == old(self).clock(),
            final(self).commit_clock() == old(self).commit_clock(),
            final(self).mark() == old(self).mark(),
            final(self).readonly() == old(self).readonly(),
            final(self).matched() == old(self).matched(),
            final(self).source_of() == old(self).source_of(),
    {
        self.crlf = crlf;
    }

    /// Sets the matched range in the buffer from `start_pos` to `end_pos`.
    pub fn set_matched(&mut self, start_pos: usize, end_pos: usize)
        requires
            old(self).wf(),
        ensures
            final(self).wf(),
            final(self).matched() == Some((start_pos, end_pos)),
            final(self).text() == old(self).text(),
            final(self).cursor_pos() == old(self).cursor_pos(),
    {
        self.matched = Some((start_pos, end_pos));
    }

    /// Remembers `pos` and `pattern` as the most recent search; all else stays.
    pub fn set_last_match(&mut self, pos: usize, pattern: SearchPattern)
        requires
            old(self).wf(),
        ensures
            final(self).wf(),
            keeps_content(*old(self), *final(self)),
            final(self).cursor_pos() == old(self).cursor_pos(),
            final(self).mark() == old(self).mark(),
            final(self).last_match() == Some((pos, pattern)),
    {
        self.last_match = Some((pos, pattern));
    }

    /// Takes the most recent search, which the editor then forgets; all else stays.
    pub fn take_last_match(&mut self) -> (r: Option<(usize, SearchPattern)>)
        requires
            old(self).wf(),
        ensures
            final(self).wf(),
            keeps_content(*old(self), *final(self)),
            final(self).cursor_pos() == old(self).cursor_pos(),
            final(self).mark() == old(self).mark(),
            final(self).last_match() is None,
            r == old(self).last_match(),
    {
        self.last_match.take()
    }

    /// Returns whether the editor remembers a search.
    pub fn has_last_match(&self) -> (b: bool)
        ensures
            b == self.last_match() is Some,
    {
        self.last_match.is_some()
    }

    /// Returns the selection mark.
    pub fn get_mark(&self) -> (m: Option<Mark>)
        ensures
            m == self.mark(),
    {
        self.mark
    }

    /// Puts the cursor back at `pos` and the mark back to `mark`, each at most the
    /// end of the text.
    pub fn restore(&mut self, pos: usize, mark: Option<Mark>)
        requires
            old(self).wf(),
        ensures
            final(self).wf(),
            keeps_content(*old(self), *final(self)),
            final(self).cursor_pos() == min_of(pos as int, old(self).text().len() as int),
            final(self).mark() == (match mark {
                Some(Mark(p, soft)) => Some(Mark(min_of(p as int, old(self).text().len() as int) as usize, soft)),
                None => None,
            }),
            final(self).last_match() == old(self).last_match(),
    {
        let size = self.buffer.size();
        self.pos = if pos < size { pos } else { size };
        self.mark = match mark {
            Some(Mark(p, soft)) => Some(Mark(if p < size { p } else { size }, soft)),
            None => None,
        };
    }

    /// Clears the matched range.
    pub fn clear_matched(&mut self)
        requires
            old(self).wf(),
        ensures
            final(self).wf(),
            final(self).matched() is None,
            final(self).text() == old(self).text(),
            final(self).cursor_pos() == old(self).cursor_pos(),
    {
        self.matched = None;
    }
}

/// `b` has the content and settings of `a`: the same text, logs, clocks and
/// settings, leaving the cursor and mark aside.
pub open spec fn keeps_content(a: Editor, b: Editor) -> bool {
    &&& b.source_of() == a.source_of()
    &&& b.text() == a.text()
    &&& b.undo_log() == a.undo_log()
    &&& b.redo_log() == a.redo_log()
    &&& b.clock() == a.clock()
    &&& b.commit_clock() == a.commit_clock()
    &&& b.readonly() == a.readonly()
    &&& b.tabs() == a.tabs()
    &&& b.crlf() == a.crlf()
    &&& b.matched() == a.matched()
}


/// `t` holds the tokens of `text` in its syntax.
pub open spec fn tokenized(text: Seq<char>, t: Tokenizer) -> bool {
    &&& t.ready()
    &&& t.size() == text.len()
    &&& t.spans() == spans_of(
        text,
        crate::syntax::captures_of(t.syntax_spec().source(), text, t.syntax_spec().group_names()),
    )
}

/// The syntax colors of `e`'s positions, as last tokenized.
pub open spec fn editor_colors(e: Editor) -> Seq<Option<u8>> {
    match e.tokens() {
        Some(t) => span_colors(t, t.spans().len() as int),
        None => Seq::empty(),
    }
}

/// The selected range of `e`: between the mark and the cursor, or empty.
pub open spec fn selected(e: Editor) -> (int, int) {
    match e.mark() {
        Some(Mark(m, _)) => if m < e.cursor_pos() { (m as int, e.cursor_pos()) } else { (e.cursor_pos(), m as int) },
        None => (0, 0),
    }
}

/// The lesser of `a` and `b`.
pub open spec fn min_of(a: int, b: int) -> int {
    if a < b { a } else { b }
}

impl Editor {
    /// Moves the cursor to buffer position `pos`, bounded by the end of the buffer.
    pub fn move_to(&mut self, pos: usize)
        requires
            old(self).wf(),
        ensures
            final(self).last_match() == old(self).last_match(),
            final(self).wf(),
            keeps_content(*old(self), *final(self)),
            final(self).mark() == old(self).mark(),
            final(self).cursor_pos() == min_of(pos as int, old(self).text().len() as int),
    {
        let size = self.buffer.size();
        self.pos = if pos < size { pos } else { size };
    }

    /// Tries to move the cursor _backward_ from the current buffer position by `len`
    /// characters.
    pub fn move_backward(&mut self, len: usize)
        requires
            old(self).wf(),
        ensures
            final(self).wf(),
            keeps_content(*old(self), *final(self)),
            final(self).mark() == old(self).mark(),
            final(self).cursor_pos() == (if len <= old(self).cursor_pos() { old(self).cursor_pos()
                - len } else { 0 }),
    {
        let pos = self.pos.saturating_sub(len);
        if pos < self.pos {
            self.move_to(pos);
        }
    }

    /// Tries to move the cursor _forward_ from the current buffer position by `len`
    /// characters.
    pub fn move_forward(&mut self, len: usize)
        requires
            old(self).wf(),
            old(self).cursor_pos() + len <= usize::MAX,
        ensures
            final(self).wf(),
            keeps_content(*old(self), *final(self)),
            final(self).mark() == old(self).mark(),
            final(self).cursor_pos() == min_of(old(self).cursor_pos() + len, old(self).text().len() as int),
    {
        let cur_pos = self.pos;
        let size = self.buffer.size();
        let pos = if cur_pos + len < size { cur_pos + len } else { size };
        if pos > cur_pos {
            self.move_to(pos);
        }
    }

    /// Tries to move the cursor _backward_ by one word from the current buffer
    /// position.
    pub fn move_backward_word(&mut self)
        requires
            old(self).wf(),
        ensures
            final(self).wf(),
            keeps_content(*old(self), *final(self)),
            final(self).mark() == old(self).mark(),
            final(self).cursor_pos() == word_before(old(self).text(), old(self).cursor_pos()),
    {
        let pos = find_word_before(&self.buffer, self.pos);
        proof {
            lemma_word_before_bounds(self.buffer@, self.pos as int);
        }
        if pos < self.pos {
            self.move_to(pos);
        }
    }

    /// Tries to move the cursor _forward_ by one word from the current buffer
    /// position.
    pub fn move_forward_word(&mut self)
        requires
            old(self).wf(),
        ensures
            final(self).wf(),
            keeps_content(*old(self), *final(self)),
            final(self).mark() == old(self).mark(),
            final(self).cursor_pos() == word_after(old(self).text(), old(self).cursor_pos()),
    {
        let pos = find_word_after(&self.buffer, self.pos);
        proof {
            lemma_word_after_bounds(self.buffer@, self.pos as int);
        }
        if pos > self.pos {
            self.move_to(pos);
        }
    }

    /// Moves the cursor to the _top_ of the buffer.
    pub fn move_top(&mut self)
        requires
            old(self).wf(),
        ensures
            final(self).wf(),
            keeps_content(*old(self), *final(self)),
            final(self).mark() == old(self).mark(),
            final(self).cursor_pos() == 0,
    {
        self.move_to(0);
    }

    /// Moves the cursor to the _bottom_ of the buffer.
    pub fn move_bottom(&mut self)
        requires
            old(self).wf(),
        ensures
            final(self).wf(),
            keeps_content(*old(self), *final(self)),
            final(self).mark() == old(self).mark(),
            final(self).cursor_pos() == old(self).text().len(),
    {
        let pos = self.buffer.size();
        self.move_to(pos);
    }

    /// Moves the cursor to the location `loc`, as [`find_pos`] finds it.
    pub fn move_location(&mut self, loc: Location)
        requires
            old(self).wf(),
        ensures
            final(self).wf(),
            keeps_content(*old(self), *final(self)),
            final(self).mark() == old(self).mark(),
            final(self).cursor_pos() == min_of(crate::nav::pos_of_location(old(self).text(), loc), old(self).text().len() as int),
    {
        let pos = find_pos(&self.buffer, loc);
        self.move_to(pos);
    }

    /// Sets a _hard_ mark at the current buffer position and returns the previous
    /// mark if set.
    pub fn set_hard_mark(&mut self) -> (r: Option<Mark>)
        requires
            old(self).wf(),
        ensures
            final(self).wf(),
            keeps_content(*old(self), *final(self)),
            final(self).cursor_pos() == old(self).cursor_pos(),
            r == old(self).mark(),
            final(self).mark() == Some(Mark(old(self).cursor_pos() as usize, false)),
    {
        let prev = self.mark;
        self.mark = Some(Mark(self.pos, false));
        prev
    }

    /// Sets a _soft_ mark at the current buffer position unless a _soft_ mark was
    /// previously set. A _hard_ mark is replaced and returned.
    pub fn set_soft_mark(&mut self) -> (r: Option<Mark>)
        requires
            old(self).wf(),
        ensures
            final(self).last_match() == old(self).last_match(),
            final(self).wf(),
            keeps_content(*old(self), *final(self)),
            final(self).cursor_pos() == old(self).cursor_pos(),
            final(self).mark() == soft_marked(old(self).mark(), old(self).cursor_pos() as usize),
            r == (match old(self).mark() {
                Some(Mark(_, false)) => old(self).mark(),
                _ => None,
            }),
    {
        let pos = self.pos;
        self.set_soft_mark_at(pos)
    }

    /// Sets a _soft_ mark at buffer position `pos`, bounded by the end of the buffer,
    /// unless a _soft_ mark was previously set. A _hard_ mark is replaced and
    /// returned.
    pub fn set_soft_mark_at(&mut self, pos: usize) -> (r: Option<Mark>)
        requires
            old(self).wf(),
        ensures
            final(self).last_match() == old(self).last_match(),
            final(self).wf(),
            keeps_content(*old(self), *final(self)),
            final(self).cursor_pos() == old(self).cursor_pos(),
            final(self).mark() == soft_marked(old(self).mark(), min_of(pos as int, old(self).text().len() as int) as usize),
            r == (match old(self).mark() {
                Some(Mark(_, false)) => old(self).mark(),
                _ => None,
            }),
    {
        let size = self.buffer.size();
        let pos = if pos < size { pos } else { size };
        match self.mark {
            Some(mark) => {
                if mark.1 {
                    None
                } else {
                    self.mark = Some(Mark(pos, true));
                    Some(mark)
                }
            },
            None => {
                self.mark = Some(Mark(pos, true));
                None
            },
        }
    }

    /// Clears and returns the mark if _soft_, otherwise `None` is returned.
    pub fn clear_soft_mark(&mut self) -> (r: Option<Mark>)
        requires
            old(self).wf(),
        ensures
            final(self).last_match() == old(self).last_match(),
            final(self).wf(),
            keeps_content(*old(self), *final(self)),
            final(self).cursor_pos() == old(self).cursor_pos(),
            (match old(self).mark() {
                Some(Mark(_, true)) => r == old(self).mark() && final(self).mark() is None,
                _ => r is None && final(self).mark() == old(self).mark(),
            }),
    {
        match self.mark {
            Some(mark) => {
                if mark.1 {
                    self.clear_mark()
                } else {
                    None
                }
            },
            None => None,
        }
    }

    /// Clears and returns the mark.
    pub fn clear_mark(&mut self) -> (r: Option<Mark>)
        requires
            old(self).wf(),
        ensures
            final(self).last_match() == old(self).last_match(),
            final(self).wf(),
            keeps_content(*old(self), *final(self)),
            final(self).cursor_pos() == old(self).cursor_pos(),
            r == old(self).mark(),
            final(self).mark() is None,
    {
        let prev = self.mark;
        self.mark = None;
        prev
    }

    /// Returns the text between `from_pos` and `to_pos`, taken in either order, with
    /// the upper bound exclusive and limited to the end of the buffer.
    pub fn copy(&self, from_pos: usize, to_pos: usize) -> (cs: Vec<char>)
        requires
            self.wf(),
            from_pos == to_pos || crate::buffer::min_usize(from_pos, to_pos) <= self.text().len(),
        ensures
            cs@ == (if from_pos == to_pos {
                Seq::<char>::empty()
            } else {
                self.text().subrange(
                    crate::buffer::min_usize(from_pos, to_pos) as int,
                    crate::buffer::min_usize(crate::buffer::max_usize(from_pos, to_pos), self.text().len() as usize) as int,
                )
            }),
    {
        self.buffer.copy(from_pos, to_pos)
    }

    /// Returns the text between the current buffer position and `mark`.
    pub fn copy_mark(&self, mark: Mark) -> (cs: Vec<char>)
        requires
            self.wf(),
        ensures
            cs@ == (if mark.0 < self.cursor_pos() {
                self.text().subrange(mark.0 as int, self.cursor_pos())
            } else {
                self.text().subrange(self.cursor_pos(), min_of(mark.0 as int, self.text().len() as int))
            }),
    {
        let (start, end) = if mark.0 < self.pos { (mark.0, self.pos) } else { (self.pos, mark.0) };
        proof {
            self.buffer.lemma_wf();
        }
        let cs = self.buffer.copy(start, end);
        assert(start == end ==> cs@ =~= self.text().subrange(start as int, start as int));
        cs
    }
}

/// The mark after setting a _soft_ mark at `pos`: a _soft_ mark stays as it is.
pub open spec fn soft_marked(mark: Option<Mark>, pos: usize) -> Option<Mark> {
    match mark {
        Some(Mark(_, true)) => mark,
        _ => Some(Mark(pos, true)),
    }
}

proof fn lemma_skip_back_bounds(t: Seq<char>, i: int)
    requires
        0 <= i <= t.len(),
    ensures
        0 <= skip_ws_back(t, i) <= i,
        0 <= skip_word_back(t, i) <= i,
    decreases i,
{
    if i > 0 {
        lemma_skip_back_bounds(t, i - 1);
    }
}

proof fn lemma_skip_fwd_bounds(t: Seq<char>, i: int)
    requires
        0 <= i <= t.len(),
    ensures
        i <= skip_ws_fwd(t, i) <= t.len(),
        i <= skip_word_fwd(t, i) <= t.len(),
    decreases t.len() - i,
{
    if i < t.len() {
        lemma_skip_fwd_bounds(t, i + 1);
    }
}

/// The word before a position lies between the start of the text and it.
proof fn lemma_word_before_bounds(t: Seq<char>, pos: int)
    requires
        0 <= pos <= t.len(),
    ensures
        0 <= word_before(t, pos) <= pos,
{
    lemma_skip_back_bounds(t, pos);
    lemma_skip_back_bounds(t, skip_ws_back(t, pos));
}

/// The word after a position lies between it and the end of the text.
proof fn lemma_word_after_bounds(t: Seq<char>, pos: int)
    requires
        0 <= pos <= t.len(),
    ensures
        pos <= word_after(t, pos) <= t.len(),
{
    lemma_skip_fwd_bounds(t, pos);
    lemma_skip_fwd_bounds(t, skip_word_fwd(t, pos));
}

// ---------------------------------------------------------------------------
// Changes and their logging.
// ---------------------------------------------------------------------------

/// `c` is the insertion of `text` at `pos`.
pub open spec fn is_insert_of(c: Change, pos: int, text: Seq<char>) -> bool {
    c matches Change::Insert(p, t) && p == pos && t@ == text
}

/// `c` is the removal, with the cursor at `pos`, of `text` before it when `before`
/// holds and after it otherwise; from a selection of the given softness when
/// `selection` is `Some`.
pub open spec fn is_removal_of(c: Change, pos: int, text: Seq<char>, before: bool, selection: Option<bool>) -> bool {
    match c {
        Change::RemoveBefore(p, t) => before && selection is None && p == pos && t@ == text,
        Change::RemoveAfter(p, t) => !before && selection is None && p == pos && t@ == text,
        Change::RemoveSelectionBefore(p, t, soft) => before && selection == Some(soft) && p == pos
            && t@ == text,
        Change::RemoveSelectionAfter(p, t, soft) => !before && selection == Some(soft) && p == pos
            && t@ == text,
        Change::Insert(_, _) => false,
    }
}

/// The mark after the change `c` is undone: cleared, or for the removal of a
/// selection, set again at the end of the restored text away from the cursor.
pub open spec fn undo_mark(mark: Option<Mark>, c: Change) -> Option<Mark> {
    match c {
        Change::RemoveSelectionBefore(p, t, soft) => {
            let q = (p - t@.len()) as usize;
            if soft { soft_marked(mark, q) } else { Some(Mark(q, false)) }
        },
        Change::RemoveSelectionAfter(p, t, soft) => {
            let q = (p + t@.len()) as usize;
            if soft { soft_marked(mark, q) } else { Some(Mark(q, false)) }
        },
        _ => None,
    }
}

/// The cursor position after the change `c` is redone: after inserted text, or
/// where the text was removed.
pub open spec fn redo_pos(c: Change) -> int {
    if is_insert(c) {
        change_pos(c) + change_text(c).len()
    } else {
        change_start(c)
    }
}

/// The clock after a change is logged: one past the later of the clock and the
/// commit clock.
pub open spec fn next_clock(clock: u64, commit_clock: u64) -> int {
    (if clock < commit_clock { commit_clock } else { clock }) + 1
}

/// The _undo_ log `u2` is `u` after a change `c` was logged at `clock`, with the
/// resulting text `t`: either `c` continued the latest entry, which now covers
/// both and reverts `t` to the text before that entry, or `c` was pushed as a new
/// entry, which reverts `t` to the text before `c`.
pub open spec fn logged(
    u: Seq<(u64, Change)>,
    u2: Seq<(u64, Change)>,
    t: Seq<char>,
    t_before: Seq<char>,
    clock: u64,
    c: Change,
) -> bool {
    &&& u2.len() > 0
    &&& if u.len() > 0 && can_combine(c, u.last().1) {
        &&& u2.drop_last() == u.drop_last()
        &&& u2.last().0 == u.last().0
        &&& combination_of(c, u.last().1, u2.last().1)
        &&& revert(t, u2.last().1) == revert(t_before, u.last().1)
    } else {
        &&& u2 == pushed(u, clock, c)
        &&& revert(t, u2.last().1) == t_before
    }
}

/// The _undo_ log `u2` is `u` after the insertion of `text` at `pos`, with the
/// clock at `clock`, made to `t_before` and giving `t`: a single character typed
/// right after the latest entry's insertion extends that entry, otherwise the
/// insertion is pushed as a new entry. Either way the latest entry reverts `t` to
/// the text before it.
pub open spec fn logged_insert(
    u: Seq<(u64, Change)>,
    u2: Seq<(u64, Change)>,
    t: Seq<char>,
    t_before: Seq<char>,
    clock: u64,
    pos: int,
    text: Seq<char>,
) -> bool {
    &&& u2.len() > 0
    &&& if text.len() == 1 && u.len() > 0 && (u.last().1 matches Change::Insert(p_pos, p_text) && p_pos
        + p_text@.len() == pos) {
        &&& u2.drop_last() == u.drop_last()
        &&& u2.last().0 == u.last().0
        &&& is_insert_of(u2.last().1, change_pos(u.last().1), change_text(u.last().1) + text)
        &&& revert(t, u2.last().1) == revert(t_before, u.last().1)
    } else {
        &&& u2 == pushed(u, clock, u2.last().1)
        &&& is_insert_of(u2.last().1, pos, text)
        &&& revert(t, u2.last().1) == t_before
    }
}

/// The _undo_ log `u2` is `u` after the removal of `text`, with the cursor at
/// `pos`, before or after it, from a selection or not, with the clock at `clock`,
/// made to `t_before` and giving `t`: a single character removed next to the
/// latest entry's removal of the same kind (not of a selection) extends that
/// entry, otherwise the removal is pushed as a new entry. Either way the latest
/// entry reverts `t` to the text before it.
pub open spec fn logged_removal(
    u: Seq<(u64, Change)>,
    u2: Seq<(u64, Change)>,
    t: Seq<char>,
    t_before: Seq<char>,
    clock: u64,
    pos: int,
    text: Seq<char>,
    before: bool,
    selection: Option<bool>,
) -> bool {
    &&& u2.len() > 0
    &&& if text.len() == 1 && selection is None && u.len() > 0 && before && (u.last().1 matches Change::RemoveBefore(p_pos, p_text)
        && pos + p_text@.len() == p_pos) {
        &&& u2.drop_last() == u.drop_last()
        &&& u2.last().0 == u.last().0
        &&& is_removal_of(u2.last().1, change_pos(u.last().1), text + change_text(u.last().1), true, None)
        &&& revert(t, u2.last().1) == revert(t_before, u.last().1)
    } else if text.len() == 1 && selection is None && u.len() > 0 && !before && (u.last().1 matches Change::RemoveAfter(p_pos, p_text)
        && p_pos == pos) {
        &&& u2.drop_last() == u.drop_last()
        &&& u2.last().0 == u.last().0
        &&& is_removal_of(u2.last().1, change_pos(u.last().1), change_text(u.last().1) + text, false, None)
        &&& revert(t, u2.last().1) == revert(t_before, u.last().1)
    } else {
        &&& u2 == pushed(u, clock, u2.last().1)
        &&& is_removal_of(u2.last().1, pos, text, before, selection)
        &&& revert(t, u2.last().1) == t_before
    }
}

impl Editor {
    /// Logs `change`, made to the text, by pushing it onto the _undo_ log, or
    /// combining it with the latest entry, and clearing the _redo_ log.
    fn log(&mut self, change: Change)
        requires
            old(self).basic(),
            old(self).buffer@.len() <= MAX_CAPACITY,
            old(self).undo@.len() <= UNDO_HARD_LIMIT,
            forall|i: int| 0 <= i < old(self).undo@.len() ==> (#[trigger] old(self).undo@[i]).0 < u64::MAX,
            old(self).clock < u64::MAX,
            revertible(old(self).buffer@, change),
            history_ok(revert(old(self).buffer@, change), old(self).undo@),
        ensures
            final(self).tokenizer == old(self).tokenizer,
            final(self).tokenize_clock == old(self).tokenize_clock,
            final(self).basic(),
            final(self).buffer@ == old(self).buffer@,
            final(self).pos == old(self).pos,
            final(self).mark == old(self).mark,
            final(self).clock == old(self).clock,
            final(self).commit_clock == old(self).commit_clock,
            final(self).readonly == old(self).readonly,
            final(self).tab_hard == old(self).tab_hard,
            final(self).tab_cols == old(self).tab_cols,
            final(self).crlf == old(self).crlf,
            final(self).matched == old(self).matched,
            final(self).source == old(self).source,
            final(self).redo@.len() == 0,
            final(self).undo@.len() <= UNDO_HARD_LIMIT,
            forall|i: int| 0 <= i < final(self).undo@.len() ==> (#[trigger] final(self).undo@[i]).0 < u64::MAX,
            history_ok(final(self).buffer@, final(self).undo@),
            logged(old(self).undo@, final(self).undo@, old(self).buffer@, revert(old(self).buffer@, change), old(self).clock, change),
    {
        let ghost t = self.buffer@;
        let ghost t0 = revert(t, change);
        let ghost u = self.undo@;
        match self.undo.pop() {
            Some((clock, top)) => {
                assert(u.drop_last() =~= self.undo@);
                match change.possibly_combine(&top) {
                    Some(combined) => {
                        proof {
                            lemma_combination(t0, t, change, top, combined);
                        }
                        self.undo.push((clock, combined));
                        assert(self.undo@.drop_last() =~= u.drop_last());
                    },
                    None => {
                        self.undo.push((clock, top));
                        assert(self.undo@ =~= u);
                        let c = self.clock;
                        self.undo.push((c, change));
                        assert(self.undo@.drop_last() =~= u);
                    },
                }
            },
            None => {
                let c = self.clock;
                self.undo.push((c, change));
                assert(self.undo@.drop_last() =~= u);
            },
        }
        self.redo.clear();
        // Trim the log to the soft limit once it exceeds the hard limit, which avoids
        // trimming it with every change.
        if self.undo.len() > UNDO_HARD_LIMIT {
            let ghost v = self.undo@;
            let n = self.undo.len() - UNDO_SOFT_LIMIT;
            let kept = self.undo.split_off(n);
            self.undo = kept;
            proof {
                lemma_history_skip(t, v, n as int);
                assert(self.undo@ =~= v.skip(n as int));
            }
        }
    }

    /// Inserts `text` at the cursor, logging the change unless `log` is `None`.
    fn insert_internal(&mut self, text: &[char], log: Option<Log>)
        requires
            old(self).basic(),
            old(self).buffer@.len() + text@.len() <= MAX_CAPACITY,
            log is Some ==> old(self).wf() && old(self).clock < u64::MAX && old(self).commit_clock < u64::MAX,
        ensures
            final(self).tokenizer == old(self).tokenizer,
            final(self).tokenize_clock == old(self).tokenize_clock,
            final(self).basic(),
            final(self).buffer@ == splice(old(self).buffer@, old(self).pos as int, text@),
            final(self).pos == old(self).pos + text@.len(),
            final(self).mark == old(self).mark,
            final(self).commit_clock == old(self).commit_clock,
            final(self).readonly == old(self).readonly,
            final(self).tab_hard == old(self).tab_hard,
            final(self).tab_cols == old(self).tab_cols,
            final(self).crlf == old(self).crlf,
            final(self).matched == old(self).matched,
            final(self).source == old(self).source,
            log is None || text@.len() == 0 ==> final(self).undo@ == old(self).undo@
                && final(self).redo@ == old(self).redo@ && final(self).clock == old(self).clock,
            text@.len() == 0 ==> final(self).buffer@ == old(self).buffer@,
            log is Some && text@.len() > 0 ==> final(self).wf() && final(self).redo@.len() == 0
                && final(self).clock == next_clock(old(self).clock, old(self).commit_clock)
                && logged_insert(old(self).undo@, final(self).undo@, final(self).buffer@, old(self).buffer@, old(self).clock, old(self).pos as int, text@),
    {
        if text.len() > 0 {
            let ghost t = self.buffer@;
            let pos = self.pos;
            self.buffer.set_pos(pos);
            if text.len() == 1 {
                self.buffer.insert_char(text[0]);
            } else {
                self.buffer.insert(text);
            }
            assert(self.buffer@ =~= splice(t, pos as int, text@));
            match log {
                Some(_) => {
                    let change = Change::Insert(pos, slice_to_vec(text));
                    proof {
                        assert(self.buffer@.subrange(pos as int, pos + text@.len()) =~= text@);
                        assert(cut(self.buffer@, pos as int, pos + text@.len()) =~= t);
                    }
                    let ghost c = change;
                    let ghost u = self.undo@;
                    self.log(change);
                    self.clock = if self.clock < self.commit_clock { self.commit_clock } else { self.clock } + 1;
                    proof {
                        self.buffer.lemma_wf();
                    }
                },
                None => {},
            }
            self.pos = pos + text.len();
        }
    }
}

/// The selection a log records: its softness, or `None` for a normal change.
pub open spec fn selection_of(log: Log) -> Option<bool> {
    match log {
        Log::Normal => None,
        Log::Selection(soft) => Some(soft),
    }
}

impl Editor {
    /// Removes the text between the cursor and `pos`, bounded by the end of the
    /// buffer, leaving the cursor at the start of the removed range, and logs the
    /// change unless `log` is `None`. Returns the text removed.
    fn remove_internal(&mut self, pos: usize, log: Option<Log>) -> (r: Vec<char>)
        requires
            old(self).basic(),
            log is Some ==> old(self).wf() && old(self).clock < u64::MAX && old(self).commit_clock < u64::MAX,
        ensures
            final(self).tokenizer == old(self).tokenizer,
            final(self).tokenize_clock == old(self).tokenize_clock,
            final(self).basic(),
            final(self).mark == old(self).mark,
            final(self).commit_clock == old(self).commit_clock,
            final(self).readonly == old(self).readonly,
            final(self).tab_hard == old(self).tab_hard,
            final(self).tab_cols == old(self).tab_cols,
            final(self).crlf == old(self).crlf,
            final(self).matched == old(self).matched,
            final(self).source == old(self).source,
            pos == old(self).pos ==> r@.len() == 0 && final(self).buffer@ == old(self).buffer@
                && final(self).pos == old(self).pos && final(self).undo@ == old(self).undo@
                && final(self).redo@ == old(self).redo@ && final(self).clock == old(self).clock,
            pos != old(self).pos ==> ({
                let cur = old(self).pos as int;
                let p = min_of(pos as int, old(self).buffer@.len() as int);
                let from = min_of(p, cur);
                let to = if p < cur { cur } else { p };
                &&& r@ == old(self).buffer@.subrange(from, to)
                &&& final(self).buffer@ == cut(old(self).buffer@, from, to)
                &&& final(self).pos == from
                &&& log is None ==> final(self).undo@ == old(self).undo@ && final(self).redo@
                    == old(self).redo@ && final(self).clock == old(self).clock
                &&& log matches Some(l) ==> final(self).wf() && final(self).redo@.len() == 0
                    && final(self).clock == next_clock(old(self).clock, old(self).commit_clock)
                    && logged_removal(old(self).undo@, final(self).undo@, final(self).buffer@, old(self).buffer@, old(self).clock, cur, r@, p < cur, selection_of(l))
            }),
    {
        if pos == self.pos {
            return Vec::new();
        }
        let ghost t = self.buffer@;
        proof {
            self.buffer.lemma_wf();
        }
        let cur_pos = self.pos;
        let size = self.buffer.size();
        let before = pos < cur_pos;
        let text = self.cut_text(pos);
        match log {
            Some(l) => {
                let change = removal_change(cur_pos, copy_chars(&text), before, l);
                proof {
                    self.buffer.lemma_wf();
                    assert(splice(self.buffer@, self.pos as int, text@) =~= t);
                    assert(change_text(change) == text@);
                    assert(change_pos(change) == cur_pos);
                    assert(change_start(change) == self.pos);
                    assert(revert(self.buffer@, change) == t);
                }
                self.log(change);
                self.clock = if self.clock < self.commit_clock { self.commit_clock } else { self.clock } + 1;
                proof {
                    self.buffer.lemma_wf();
                }
            },
            None => {},
        }
        text
    }

    /// Removes the text between the cursor and `pos`, bounded by the end of the
    /// buffer, leaving the cursor at the start of the removed range, without
    /// logging. Returns the text removed.
    fn cut_text(&mut self, pos: usize) -> (r: Vec<char>)
        requires
            old(self).basic(),
            pos != old(self).pos,
        ensures
            final(self).tokenizer == old(self).tokenizer,
            final(self).tokenize_clock == old(self).tokenize_clock,
            final(self).basic(),
            ({
                let cur = old(self).pos as int;
                let p = min_of(pos as int, old(self).buffer@.len() as int);
                let from = min_of(p, cur);
                let to = if p < cur { cur } else { p };
                &&& r@ == old(self).buffer@.subrange(from, to)
                &&& final(self).buffer@ == cut(old(self).buffer@, from, to)
                &&& final(self).pos == from
            }),
            final(self).undo@ == old(self).undo@,
            final(self).redo@ == old(self).redo@,
            final(self).clock == old(self).clock,
            final(self).mark == old(self).mark,
            final(self).commit_clock == old(self).commit_clock,
            final(self).readonly == old(self).readonly,
            final(self).tab_hard == old(self).tab_hard,
            final(self).tab_cols == old(self).tab_cols,
            final(self).crlf == old(self).crlf,
            final(self).matched == old(self).matched,
            final(self).source == old(self).source,
    {
        let ghost t = self.buffer@;
        let cur_pos = self.pos;
        let size = self.buffer.size();
        let pos = if pos < size { pos } else { size };
        let (from_pos, len) = if pos < cur_pos {
            // The range starts at `pos`, where the cursor moves before the removal.
            self.pos = pos;
            (pos, cur_pos - pos)
        } else {
            (cur_pos, pos - cur_pos)
        };
        self.buffer.set_pos(from_pos);
        // Single-character removal is the common case, which the buffer does more
        // efficiently.
        let text = if len == 1 {
            let c = self.buffer.remove_char();
            let mut v: Vec<char> = Vec::new();
            v.push(c.unwrap());
            assert(v@ =~= t.subrange(from_pos as int, from_pos + 1));
            assert(self.buffer@ =~= cut(t, from_pos as int, from_pos + 1));
            v
        } else {
            self.buffer.remove(len)
        };
        assert(self.buffer@ =~= cut(t, from_pos as int, from_pos + len));
        text
    }
}

impl Editor {
    /// Reverts `change`, leaving the logs as they are.
    fn undo_change(&mut self, change: &Change)
        requires
            old(self).basic(),
            old(self).buffer@.len() <= MAX_CAPACITY,
            revertible(old(self).buffer@, *change),
        ensures
            final(self).tokenizer == old(self).tokenizer,
            final(self).tokenize_clock == old(self).tokenize_clock,
            final(self).basic(),
            final(self).buffer@ == revert(old(self).buffer@, *change),
            final(self).pos == change_pos(*change),
            final(self).mark == undo_mark(old(self).mark, *change),
            final(self).undo@ == old(self).undo@,
            final(self).redo@ == old(self).redo@,
            final(self).clock == old(self).clock,
            final(self).commit_clock == old(self).commit_clock,
            final(self).readonly == old(self).readonly,
            final(self).tab_hard == old(self).tab_hard,
            final(self).tab_cols == old(self).tab_cols,
            final(self).crlf == old(self).crlf,
            final(self).matched == old(self).matched,
            final(self).source == old(self).source,
    {
        let ghost t = self.buffer@;
        match change {
            Change::Insert(pos, text) => {
                self.mark = None;
                self.pos = *pos;
                let _ = self.remove_internal(*pos + text.len(), None);
                assert(text@.len() == 0 ==> cut(t, *pos as int, *pos as int) =~= t);
            },
            Change::RemoveBefore(pos, text) => {
                self.mark = None;
                self.pos = *pos - text.len();
                self.insert_internal(text.as_slice(), None);
            },
            Change::RemoveAfter(pos, text) => {
                self.mark = None;
                self.pos = *pos;
                self.insert_internal(text.as_slice(), None);
                self.pos = *pos;
            },
            Change::RemoveSelectionBefore(pos, text, soft) => {
                self.pos = *pos - text.len();
                self.mark_here(*soft);
                self.insert_internal(text.as_slice(), None);
            },
            Change::RemoveSelectionAfter(pos, text, soft) => {
                self.pos = *pos;
                self.insert_internal(text.as_slice(), None);
                self.mark_here(*soft);
                self.pos = *pos;
            },
        }
    }

    /// Applies `change`, leaving the logs as they are.
    fn redo_change(&mut self, change: &Change)
        requires
            old(self).basic(),
            applicable(old(self).buffer@, *change),
        ensures
            final(self).tokenizer == old(self).tokenizer,
            final(self).tokenize_clock == old(self).tokenize_clock,
            final(self).basic(),
            final(self).buffer@ == apply(old(self).buffer@, *change),
            final(self).pos == redo_pos(*change),
            final(self).mark is None,
            final(self).undo@ == old(self).undo@,
            final(self).redo@ == old(self).redo@,
            final(self).clock == old(self).clock,
            final(self).commit_clock == old(self).commit_clock,
            final(self).readonly == old(self).readonly,
            final(self).tab_hard == old(self).tab_hard,
            final(self).tab_cols == old(self).tab_cols,
            final(self).crlf == old(self).crlf,
            final(self).matched == old(self).matched,
            final(self).source == old(self).source,
    {
        let ghost t = self.buffer@;
        proof {
            self.buffer.lemma_wf();
        }
        self.mark = None;
        match change {
            Change::Insert(pos, text) => {
                self.pos = *pos;
                self.insert_internal(text.as_slice(), None);
            },
            Change::RemoveBefore(pos, text) => {
                self.pos = *pos;
                let _ = self.remove_internal(*pos - text.len(), None);
                assert(text@.len() == 0 ==> cut(t, *pos as int, *pos as int) =~= t);
            },
            Change::RemoveAfter(pos, text) => {
                self.pos = *pos;
                let _ = self.remove_internal(*pos + text.len(), None);
                assert(text@.len() == 0 ==> cut(t, *pos as int, *pos as int) =~= t);
            },
            Change::RemoveSelectionBefore(pos, text, _) => {
                self.pos = *pos;
                let _ = self.remove_internal(*pos - text.len(), None);
                assert(text@.len() == 0 ==> cut(t, *pos as int, *pos as int) =~= t);
            },
            Change::RemoveSelectionAfter(pos, text, _) => {
                self.pos = *pos;
                let _ = self.remove_internal(*pos + text.len(), None);
                assert(text@.len() == 0 ==> cut(t, *pos as int, *pos as int) =~= t);
            },
        }
    }

    /// Sets a mark at the cursor: a _soft_ one, unless a _soft_ mark is already
    /// set, or a _hard_ one.
    fn mark_here(&mut self, soft: bool)
        ensures
            final(self).tokenizer == old(self).tokenizer,
            final(self).tokenize_clock == old(self).tokenize_clock,
            final(self).mark == (if soft { soft_marked(old(self).mark, old(self).pos) } else { Some(Mark(old(self).pos, false)) }),
            final(self).buffer == old(self).buffer,
            final(self).pos == old(self).pos,
            final(self).undo == old(self).undo,
            final(self).redo == old(self).redo,
            final(self).clock == old(self).clock,
            final(self).commit_clock == old(self).commit_clock,
            final(self).readonly == old(self).readonly,
            final(self).tab_hard == old(self).tab_hard,
            final(self).tab_cols == old(self).tab_cols,
            final(self).crlf == old(self).crlf,
            final(self).matched == old(self).matched,
            final(self).source == old(self).source,
    {
        if soft {
            match self.mark {
                Some(mark) => {
                    if !mark.1 {
                        self.mark = Some(Mark(self.pos, true));
                    }
                },
                None => {
                    self.mark = Some(Mark(self.pos, true));
                },
            }
        } else {
            self.mark = Some(Mark(self.pos, false));
        }
    }

    /// Reverts the last change to the buffer, if any, and makes that change eligible
    /// to be reapplied via [`redo`](Editor::redo).
    ///
    /// Returns `true` if the change was reverted and `false` if the _undo_ log is
    /// empty. The clock goes back to its value before the change, as if the change
    /// was never made.
    pub fn undo(&mut self) -> (r: bool)
        requires
            old(self).wf(),
        ensures
            final(self).wf(),
            undone(*old(self), *final(self), r),
    {
        let ghost t = self.buffer@;
        let ghost u = self.undo@;
        let ghost r = self.redo@;
        proof {
            self.buffer.lemma_wf();
        }
        match self.undo.pop() {
            Some(entry) => {
                let (clock, change) = entry;
                assert(self.undo@ =~= u.drop_last());
                self.undo_change(&change);
                proof {
                    lemma_apply_revert(t, change);
                    assert(self.redo@.push((clock, change)).drop_last() =~= r);
                }
                self.redo.push((clock, change));
                self.clock = clock;
                proof {
                    assert forall|i: int| 0 <= i < self.undo@.len() implies (#[trigger] self.undo@[i]).0 < u64::MAX by {
                        assert(self.undo@[i] == u[i]);
                    }
                    assert forall|i: int| 0 <= i < self.redo@.len() implies (#[trigger] self.redo@[i]).0 < u64::MAX by {
                        if i < r.len() {
                            assert(self.redo@[i] == r[i]);
                        } else {
                            assert(u[u.len() - 1].0 < u64::MAX);
                        }
                    }
                }
                true
            },
            None => false,
        }
    }

    /// Applies the last change to the buffer, if any, that was reverted via
    /// [`undo`](Editor::undo).
    ///
    /// Returns `true` if the change was applied and `false` if the _redo_ log is
    /// empty. The clock moves one past its value before the change, as if the change
    /// was entered again.
    pub fn redo(&mut self) -> (r: bool)
        requires
            old(self).wf(),
        ensures
            final(self).wf(),
            redone(*old(self), *final(self), r),
    {
        let ghost t = self.buffer@;
        let ghost u = self.undo@;
        let ghost r = self.redo@;
        proof {
            self.buffer.lemma_wf();
        }
        match self.redo.pop() {
            Some(entry) => {
                let (clock, change) = entry;
                assert(self.redo@ =~= r.drop_last());
                assert(r[r.len() - 1].0 < u64::MAX);
                self.redo_change(&change);
                proof {
                    lemma_revert_apply(t, change);
                    assert(self.undo@.push((clock, change)).drop_last() =~= u);
                }
                self.undo.push((clock, change));
                self.clock = clock + 1;
                proof {
                    assert forall|i: int| 0 <= i < self.redo@.len() implies (#[trigger] self.redo@[i]).0 < u64::MAX by {
                        assert(self.redo@[i] == r[i]);
                    }
                    assert forall|i: int| 0 <= i < self.undo@.len() implies (#[trigger] self.undo@[i]).0 < u64::MAX by {
                        if i < u.len() {
                            assert(self.undo@[i] == u[i]);
                        }
                    }
                }
                true
            },
            None => false,
        }
    }
}

/// `b` is `a` after an undo that returns `r`: with nothing to undo nothing changes;
/// otherwise the last change logged is reverted and moves to the _redo_ log, and
/// the clock goes back to its value before that change.
pub open spec fn undone(a: Editor, b: Editor, r: bool) -> bool {
    &&& r == (a.undo_log().len() > 0)
    &&& !r ==> keeps_content(a, b) && b.cursor_pos() == a.cursor_pos() && b.mark() == a.mark()
    &&& r ==> {
        let e = a.undo_log().last();
        &&& b.text() == revert(a.text(), e.1)
        &&& b.undo_log() == a.undo_log().drop_last()
        &&& b.redo_log() == a.redo_log().push(e)
        &&& b.clock() == e.0
        &&& b.cursor_pos() == change_pos(e.1)
        &&& b.mark() == undo_mark(a.mark(), e.1)
        &&& keeps_settings(a, b)
    }
}

/// `b` is `a` after a redo that returns `r`: with nothing to redo nothing changes;
/// otherwise the last change undone is applied again and moves back to the _undo_
/// log, and the clock moves one past its value before that change.
pub open spec fn redone(a: Editor, b: Editor, r: bool) -> bool {
    &&& r == (a.redo_log().len() > 0)
    &&& !r ==> keeps_content(a, b) && b.cursor_pos() == a.cursor_pos() && b.mark() == a.mark()
    &&& r ==> {
        let e = a.redo_log().last();
        &&& b.text() == apply(a.text(), e.1)
        &&& b.redo_log() == a.redo_log().drop_last()
        &&& b.undo_log() == a.undo_log().push(e)
        &&& b.clock() == e.0 + 1
        &&& b.cursor_pos() == redo_pos(e.1)
        &&& b.mark() is None
        &&& keeps_settings(a, b)
    }
}

/// `b` has the settings of `a` and the same commit clock.
pub open spec fn keeps_settings(a: Editor, b: Editor) -> bool {
    &&& b.source_of() == a.source_of()
    &&& b.commit_clock() == a.commit_clock()
    &&& b.readonly() == a.readonly()
    &&& b.tabs() == a.tabs()
    &&& b.crlf() == a.crlf()
    &&& b.matched() == a.matched()
}

/// `b` is `a` after the insertion of `text` at the cursor: the text is in place,
/// the cursor follows it, and the change is logged (when there is one).
pub open spec fn inserted(a: Editor, b: Editor, text: Seq<char>) -> bool {
    &&& b.text() == splice(a.text(), a.cursor_pos(), text)
    &&& b.cursor_pos() == a.cursor_pos() + text.len()
    &&& b.mark() == a.mark()
    &&& keeps_settings(a, b)
    &&& text.len() == 0 ==> keeps_content(a, b)
    &&& text.len() > 0 ==> b.redo_log().len() == 0 && b.clock() == next_clock(a.clock(), a.commit_clock())
        && logged_insert(a.undo_log(), b.undo_log(), b.text(), a.text(), a.clock(), a.cursor_pos(), text)
}

/// `b` is `a` after the text between the cursor and `pos` was removed, from a
/// selection when `selection` is `Some`, and `r` is the text removed: the cursor
/// lands at the start of the range, and the change is logged.
pub open spec fn removed(a: Editor, b: Editor, pos: int, r: Seq<char>, selection: Option<bool>) -> bool {
    &&& b.mark() == a.mark()
    &&& keeps_settings(a, b)
    &&& pos == a.cursor_pos() ==> r.len() == 0 && keeps_content(a, b) && b.cursor_pos() == a.cursor_pos()
    &&& pos != a.cursor_pos() ==> ({
        let cur = a.cursor_pos();
        let p = min_of(pos, a.text().len() as int);
        let from = min_of(p, cur);
        let to = if p < cur { cur } else { p };
        &&& r == a.text().subrange(from, to)
        &&& b.text() == cut(a.text(), from, to)
        &&& b.cursor_pos() == from
        &&& b.redo_log().len() == 0
        &&& b.clock() == next_clock(a.clock(), a.commit_clock())
        &&& logged_removal(a.undo_log(), b.undo_log(), b.text(), a.text(), a.clock(), cur, r, p < cur, selection)
    })
}

impl Editor {
    /// Inserts `text` at the current buffer position.
    pub fn insert(&mut self, text: &[char])
        requires
            old(self).wf(),
            old(self).text().len() + text@.len() <= MAX_CAPACITY,
            old(self).clock() < u64::MAX,
            old(self).commit_clock() < u64::MAX,
        ensures
            final(self).wf(),
            inserted(*old(self), *final(self), text@),
    {
        self.insert_internal(text, Some(Log::Normal));
        assert(text@.len() == 0 ==> splice(old(self).text(), old(self).cursor_pos(), text@) =~= old(self).text());
    }

    /// Inserts the character `c` at the current buffer position.
    pub fn insert_char(&mut self, c: char)
        requires
            old(self).wf(),
            old(self).text().len() < MAX_CAPACITY,
            old(self).clock() < u64::MAX,
            old(self).commit_clock() < u64::MAX,
        ensures
            final(self).wf(),
            inserted(*old(self), *final(self), seq![c]),
    {
        let text = [c];
        assert(text@ =~= seq![c]);
        self.insert(&text);
    }

    /// Inserts the string slice `text` at the current buffer position.
    pub fn insert_str(&mut self, text: &str)
        requires
            old(self).wf(),
            old(self).text().len() + text@.len() <= MAX_CAPACITY,
            old(self).clock() < u64::MAX,
            old(self).commit_clock() < u64::MAX,
        ensures
            final(self).wf(),
            inserted(*old(self), *final(self), text@),
    {
        let cs = crate::strings::chars_of(text);
        self.insert(cs.as_slice());
    }

    /// Inserts a `TAB` character with hard tabs, or with soft tabs as many spaces as
    /// reach the next tab stop from the cursor's column.
    pub fn insert_tab(&mut self)
        requires
            old(self).wf(),
            old(self).text().len() + old(self).tabs().1 + 1 <= MAX_CAPACITY,
            old(self).tabs().0 || old(self).tabs().1 > 0,
            old(self).clock() < u64::MAX,
            old(self).commit_clock() < u64::MAX,
        ensures
            final(self).wf(),
            inserted(*old(self), *final(self), tab_text(old(self).tabs(), column_of(old(self).text(), old(self).cursor_pos()))),
    {
        if self.tab_hard {
            self.insert_char('\t');
            assert(seq!['\t'] =~= tab_text(old(self).tabs(), column_of(old(self).text(), old(self).cursor_pos())));
        } else {
            let loc = find_location(&self.buffer, self.pos);
            let n = self.tab_cols - (loc.col % self.tab_cols);
            let mut spaces: Vec<char> = Vec::new();
            let mut i: u32 = 0;
            while i < n
                invariant
                    i <= n,
                    spaces@ == Seq::new(i as nat, |k: int| ' '),
                decreases n - i,
            {
                spaces.push(' ');
                i = i + 1;
                assert(spaces@ =~= Seq::new(i as nat, |k: int| ' '));
            }
            assert(spaces@ =~= tab_text(old(self).tabs(), column_of(old(self).text(), old(self).cursor_pos())));
            self.insert(spaces.as_slice());
        }
    }

    /// Removes and returns the text between the current buffer position and `pos`.
    ///
    /// The range is bounded _inclusively below_ and _exclusively above_: [`pos`,
    /// cursor) when `pos` comes before the cursor, otherwise [cursor, `pos`), where
    /// `pos` is limited to the end of the buffer. The result is empty if `pos` is the
    /// cursor position.
    pub fn remove(&mut self, pos: usize) -> (r: Vec<char>)
        requires
            old(self).wf(),
            old(self).clock() < u64::MAX,
            old(self).commit_clock() < u64::MAX,
        ensures
            final(self).wf(),
            removed(*old(self), *final(self), pos as int, r@, None),
    {
        self.remove_internal(pos, Some(Log::Normal))
    }

    /// Removes and returns the character before the current buffer position, or
    /// nothing at the top of the buffer.
    pub fn remove_before(&mut self) -> (r: Vec<char>)
        requires
            old(self).wf(),
            old(self).clock() < u64::MAX,
            old(self).commit_clock() < u64::MAX,
        ensures
            final(self).wf(),
            old(self).cursor_pos() > 0 ==> removed(*old(self), *final(self), old(self).cursor_pos() - 1, r@, None),
            old(self).cursor_pos() == 0 ==> r@.len() == 0 && keeps_content(*old(self), *final(self))
                && final(self).cursor_pos() == 0 && final(self).mark() == old(self).mark(),
    {
        if self.pos > 0 {
            self.remove(self.pos - 1)
        } else {
            Vec::new()
        }
    }

    /// Removes and returns the character after the current buffer position, or
    /// nothing at the bottom of the buffer.
    pub fn remove_after(&mut self) -> (r: Vec<char>)
        requires
            old(self).wf(),
            old(self).clock() < u64::MAX,
            old(self).commit_clock() < u64::MAX,
        ensures
            final(self).wf(),
            old(self).cursor_pos() < old(self).text().len() ==> removed(*old(self), *final(self), old(self).cursor_pos() + 1, r@, None),
            old(self).cursor_pos() == old(self).text().len() ==> r@.len() == 0 && keeps_content(*old(self), *final(self))
                && final(self).cursor_pos() == old(self).cursor_pos() && final(self).mark() == old(self).mark(),
    {
        if self.pos < self.buffer.size() {
            self.remove(self.pos + 1)
        } else {
            Vec::new()
        }
    }

    /// Removes and returns the text between the current buffer position and `mark`,
    /// logged as the removal of a selection.
    pub fn remove_mark(&mut self, mark: Mark) -> (r: Vec<char>)
        requires
            old(self).wf(),
            old(self).clock() < u64::MAX,
            old(self).commit_clock() < u64::MAX,
        ensures
            final(self).wf(),
            removed(*old(self), *final(self), mark.0 as int, r@, Some(mark.1)),
    {
        let Mark(pos, soft) = mark;
        self.remove_internal(pos, Some(Log::Selection(soft)))
    }
}

/// The column of the cursor at `pos` in `t`.
pub open spec fn column_of(t: Seq<char>, pos: int) -> int {
    pos - crate::text::line_start(t, pos)
}

/// The text that a tab inserts at `col`: a `TAB` character with hard tabs, or the
/// spaces to the next tab stop.
pub open spec fn tab_text(tabs: (bool, u32), col: int) -> Seq<char> {
    if tabs.0 {
        seq!['\t']
    } else {
        Seq::new((tabs.1 - col % (tabs.1 as int)) as nat, |k: int| ' ')
    }
}

/// The change that records the removal of `text` with the cursor at `cur_pos`.
fn removal_change(cur_pos: usize, text: Vec<char>, before: bool, log: Log) -> (c: Change)
    ensures
        is_removal_of(c, cur_pos as int, text@, before, selection_of(log)),
{
    match log {
        Log::Normal => if before {
            Change::RemoveBefore(cur_pos, text)
        } else {
            Change::RemoveAfter(cur_pos, text)
        },
        Log::Selection(soft) => if before {
            Change::RemoveSelectionBefore(cur_pos, text, soft)
        } else {
            Change::RemoveSelectionAfter(cur_pos, text, soft)
        },
    }
}

/// Returns the characters of `cs` as a vector.
fn slice_to_vec(cs: &[char]) -> (v: Vec<char>)
    ensures
        v@ == cs@,
{
    let mut v: Vec<char> = Vec::new();
    let mut i: usize = 0;
    while i < cs.len()
        invariant
            i <= cs@.len(),
            v@ == cs@.take(i as int),
        decreases cs@.len() - i,
    {
        v.push(cs[i]);
        i = i + 1;
        assert(v@ =~= cs@.take(i as int));
    }
    assert(cs@.take(cs@.len() as int) =~= cs@);
    v
}

// ---------------------------------------------------------------------------
// Laws.
// ---------------------------------------------------------------------------

/// Undoing the latest change and then redoing it gives back the text: the change
/// that [`Editor::undo`] reverts is the one that [`Editor::redo`] then applies.
pub proof fn lemma_undo_then_redo(e: Editor)
    requires
        e.wf(),
        e.undo_log().len() > 0,
    ensures
        applicable(revert(e.text(), e.undo_log().last().1), e.undo_log().last().1),
        apply(revert(e.text(), e.undo_log().last().1), e.undo_log().last().1) == e.text(),
{
    e.lemma_wf();
    lemma_apply_revert(e.text(), e.undo_log().last().1);
}

/// Redoing the latest undone change and then undoing it gives back the text.
pub proof fn lemma_redo_then_undo(e: Editor)
    requires
        e.wf(),
        e.redo_log().len() > 0,
    ensures
        revertible(apply(e.text(), e.redo_log().last().1), e.redo_log().last().1),
        revert(apply(e.text(), e.redo_log().last().1), e.redo_log().last().1) == e.text(),
{
    e.lemma_wf();
    lemma_revert_apply(e.text(), e.redo_log().last().1);
}

/// An insertion that starts a new entry of the _undo_ log is reverted by undoing
/// that entry: the text becomes what it was before the insertion.
pub proof fn lemma_insert_undone(a: Editor, b: Editor, text: Seq<char>)
    requires
        inserted(a, b, text),
        text.len() > 0,
        !(text.len() == 1 && a.undo_log().len() > 0 && (a.undo_log().last().1 matches Change::Insert(
            p_pos,
            p_text,
        ) && p_pos + p_text@.len() == a.cursor_pos())),
    ensures
        b.undo_log().len() > 0,
        revert(b.text(), b.undo_log().last().1) == a.text(),
        is_insert_of(b.undo_log().last().1, a.cursor_pos(), text),
{
}

/// A removal that starts a new entry of the _undo_ log is reverted by undoing that
/// entry: the text becomes what it was before the removal.
pub proof fn lemma_removal_undone(a: Editor, b: Editor, pos: int, r: Seq<char>, selection: Option<bool>)
    requires
        removed(a, b, pos, r, selection),
        pos != a.cursor_pos(),
        r.len() != 1 || selection is Some || a.undo_log().len() == 0 || !(a.undo_log().last().1 is RemoveBefore || a.undo_log().last().1 is RemoveAfter),
    ensures
        b.undo_log().len() > 0,
        revert(b.text(), b.undo_log().last().1) == a.text(),
{
}

/// The line of `t` on which position `pos` rests: from its first character to the
/// start of the next line, past its `\n`, or to the end of `t`.
pub open spec fn line_range(t: Seq<char>, pos: int) -> (int, int) {
    (line_start(t, pos), next_line(t, pos).0)
}

/// `a` with its cursor at `pos`.
pub closed spec fn with_cursor(a: Editor, pos: int) -> Editor {
    Editor { pos: pos as usize, ..a }
}

impl Editor {
    /// Moving the cursor within the text keeps the content and the mark.
    pub proof fn lemma_with_cursor(&self, pos: int)
        requires
            self.wf(),
            0 <= pos <= self.text().len(),
        ensures
            with_cursor(*self, pos).wf(),
            keeps_content(*self, with_cursor(*self, pos)),
            with_cursor(*self, pos).cursor_pos() == pos,
            with_cursor(*self, pos).mark() == self.mark(),
    {
        self.buffer.lemma_wf();
    }

    /// Returns the line on which the cursor rests: the positions of its first
    /// character and of the start of the next line.
    pub fn line(&self) -> (r: (usize, usize))
        requires
            self.wf(),
        ensures
            r.0 == line_range(self.text(), self.cursor_pos()).0,
            r.1 == line_range(self.text(), self.cursor_pos()).1,
            r.0 <= self.cursor_pos() <= r.1 <= self.text().len(),
    {
        proof {
            self.buffer.lemma_wf();
            lemma_line_start_bounds(self.buffer@, self.pos as int);
            lemma_next_line_bounds(self.buffer@, self.pos as int);
        }
        let start = self.buffer.find_start_line(self.pos);
        let (end, _) = self.buffer.find_next_line(self.pos);
        (start, end)
    }

    /// Returns the text of the line on which the cursor rests, with its `\n`.
    pub fn copy_line(&self) -> (cs: Vec<char>)
        requires
            self.wf(),
        ensures
            cs@ == self.text().subrange(
                line_range(self.text(), self.cursor_pos()).0,
                line_range(self.text(), self.cursor_pos()).1,
            ),
    {
        let (start, end) = self.line();
        let cs = self.copy(start, end);
        proof {
            self.lemma_wf();
            assert(crate::buffer::min_usize(start, end) == start);
            assert(crate::buffer::max_usize(start, end) == end);
            assert(crate::buffer::min_usize(end, self.text().len() as usize) == end);
            if start == end {
                assert(self.text().subrange(start as int, end as int) =~= Seq::<char>::empty());
            }
        }
        cs
    }

    /// Removes and returns the line on which the cursor rests, with its `\n`,
    /// leaving the cursor where the line started.
    pub fn remove_line(&mut self) -> (r: Vec<char>)
        requires
            old(self).wf(),
            old(self).clock() < u64::MAX,
            old(self).commit_clock() < u64::MAX,
        ensures
            final(self).wf(),
            removed(
                with_cursor(*old(self), line_range(old(self).text(), old(self).cursor_pos()).0),
                *final(self),
                line_range(old(self).text(), old(self).cursor_pos()).1,
                r@,
                None,
            ),
    {
        let (start, end) = self.line();
        proof {
            old(self).lemma_with_cursor(start as int);
        }
        self.move_to(start);
        let ghost mid = *self;
        let r = self.remove(end);
        proof {
            let w = with_cursor(*old(self), start as int);
            assert(keeps_content(mid, w));
            assert(w.cursor_pos() == mid.cursor_pos() && w.mark() == mid.mark());
            assert(removed(mid, *self, end as int, r@, None));
        }
        r
    }

    /// Removes and returns the text between the start of the line and the cursor,
    /// or the character before the cursor where it is at the start of the line.
    pub fn remove_start(&mut self) -> (r: Vec<char>)
        requires
            old(self).wf(),
            old(self).clock() < u64::MAX,
            old(self).commit_clock() < u64::MAX,
        ensures
            final(self).wf(),
            ({
                let start = line_range(old(self).text(), old(self).cursor_pos()).0;
                if old(self).cursor_pos() == start {
                    &&& old(self).cursor_pos() > 0 ==> removed(*old(self), *final(self), old(self).cursor_pos() - 1, r@, None)
                    &&& old(self).cursor_pos() == 0 ==> r@.len() == 0 && keeps_content(*old(self), *final(self))
                        && final(self).cursor_pos() == 0 && final(self).mark() == old(self).mark()
                } else {
                    removed(*old(self), *final(self), start, r@, None)
                }
            }),
    {
        let (start, _) = self.line();
        if self.pos == start {
            self.remove_before()
        } else {
            self.remove(start)
        }
    }

    /// Removes and returns the text between the cursor and the start of the next
    /// line, the `\n` included.
    pub fn remove_end(&mut self) -> (r: Vec<char>)
        requires
            old(self).wf(),
            old(self).clock() < u64::MAX,
            old(self).commit_clock() < u64::MAX,
        ensures
            final(self).wf(),
            removed(*old(self), *final(self), line_range(old(self).text(), old(self).cursor_pos()).1, r@, None),
    {
        let (_, end) = self.line();
        self.remove(end)
    }
}

impl Editor {
    /// Clears the contents and resets the editor as if it were just created,
    /// keeping its source, its read-only state and its settings.
    pub fn reset(&mut self)
        requires
            old(self).wf(),
        ensures
            final(self).wf(),
            final(self).text().len() == 0,
            final(self).cursor_pos() == 0,
            final(self).source_of() == old(self).source_of(),
            final(self).readonly() == old(self).readonly(),
            final(self).tabs() == old(self).tabs(),
            final(self).crlf() == old(self).crlf(),
            final(self).clock() == 0,
            final(self).commit_clock() == 0,
            final(self).undo_log().len() == 0,
            final(self).redo_log().len() == 0,
            final(self).mark() is None,
            final(self).matched() is None,
    {
        let mut source = Source::Null;
        core::mem::swap(&mut source, &mut self.source);
        let mut e = Editor::new(None, self.readonly, self.tab_hard, self.tab_cols, self.crlf, None);
        e.source = source;
        *self = e;
    }

    /// Returns a duplicate of this editor with `source`: the text and the cursor
    /// position are copied, and all else is as in a new, mutable editor with the
    /// same settings.
    pub fn duplicate(&self, source: Source) -> (e: Editor)
        requires
            self.wf(),
        ensures
            e.wf(),
            e.text() == self.text(),
            e.cursor_pos() == self.cursor_pos(),
            e.source_of() == source,
            !e.readonly(),
            e.tabs() == self.tabs(),
            e.crlf() == self.crlf(),
            e.clock() == 0,
            e.commit_clock() == 0,
            e.undo_log().len() == 0,
            e.redo_log().len() == 0,
            e.mark() is None,
            e.matched() is None,
    {
        proof {
            self.lemma_wf();
        }
        let cs = self.buffer.copy(0, self.buffer.size());
        let mut buffer = Buffer::new();
        buffer.insert(cs.as_slice());
        buffer.set_pos(self.pos);
        proof {
            assert(cs@ =~= self.text());
        }
        let mut e = Editor::new(Some(buffer), false, self.tab_hard, self.tab_cols, self.crlf, None);
        e.source = source;
        e
    }
}

/// `a` with the mark `m`.
pub closed spec fn with_mark(a: Editor, m: Option<Mark>) -> Editor {
    Editor { mark: m, ..a }
}

/// The text that removing between the cursor of `a` and `pos` takes out.
pub open spec fn removal_text(a: Editor, pos: int) -> Seq<char> {
    if pos == a.cursor_pos() {
        Seq::empty()
    } else {
        let cur = a.cursor_pos();
        let p = min_of(pos, a.text().len() as int);
        a.text().subrange(min_of(p, cur), if p < cur { cur } else { p })
    }
}

impl Editor {
    /// Changing the mark keeps the content and the cursor.
    pub proof fn lemma_with_mark(&self, m: Option<Mark>)
        requires
            self.wf(),
        ensures
            with_mark(*self, m).wf(),
            keeps_content(*self, with_mark(*self, m)),
            with_mark(*self, m).cursor_pos() == self.cursor_pos(),
            with_mark(*self, m).mark() == m,
    {
    }
}

} // verus!

//! The incremental search that runs while the user types a search term: each
//! change of the input searches anew from where the cursor was, `TAB` moves to
//! the next match, `S-TAB` to the previous one, and an empty input or a cancel
//! puts the cursor back.

use crate::editor::{keeps_content, min_of, Editor, Mark};
use crate::key::Key;
use crate::render::is_control;
use crate::user::text_of;
use crate::syntax::regex_builds;
use crate::search::{fold, match_of, regex_match_wrapped, using_term, wrapped_match, Match, Pattern, RegexPattern, SearchPattern};
use crate::strings::{push_str, str_eq, str_is_empty, string_of, to_string};
use vstd::prelude::*;

verus! {

/// `b` is `a` with the match from `s` to `e` highlighted: the cursor at its start
/// and a soft mark at its end.
pub open spec fn highlighted(a: Editor, b: Editor, s: usize, e: usize) -> bool {
    let len = a.text().len() as int;
    &&& keeps_content(a, b)
    &&& b.cursor_pos() == min_of(s as int, len)
    &&& b.mark() == Some(Mark(min_of(e as int, len) as usize, true))
    &&& b.last_match() == a.last_match()
}

/// The first match of a search for `value` in `text` from `pos`: a regular
/// expression where `regex` holds, which must build, else a term; matching case
/// where `strict` holds.
pub open spec fn first_found(text: Seq<char>, value: Seq<char>, regex: bool, strict: bool, pos: int) -> Option<Match> {
    if regex {
        if regex_builds(value, !strict, true) {
            regex_match_wrapped(value, !strict, true, text, pos)
        } else {
            None
        }
    } else {
        match_of(wrapped_match(text, fold(value, strict), strict, pos), fold(value, strict).len() as int)
    }
}

/// `p` is the pattern of a search for `value` as [`first_found`] makes it.
pub open spec fn built_from(p: SearchPattern, value: Seq<char>, regex: bool, strict: bool) -> bool {
    match p {
        SearchPattern::Term(t) => !regex && t.term() == value && t.strict() == strict && t.folded() == fold(
            value,
            strict,
        ),
        SearchPattern::Regex(r) => regex && r.source() == value && r.case_insensitive() == !strict && r.multi_line(),
    }
}

/// The hint after a search: none where a match is current, else that none was
/// found.
pub open spec fn match_hint(found: bool) -> Option<Seq<char>> {
    if found {
        None
    } else {
        Some(" (no match)"@)
    }
}

/// Where a search for the next match goes on from the match starting at `s`.
pub open spec fn next_from(s: usize) -> int {
    if s < usize::MAX {
        s + 1
    } else {
        s as int
    }
}

/// The text between the cursor of `e` and its mark, if it has one.
pub open spec fn selection_of(e: Editor) -> Seq<char> {
    match e.mark() {
        Some(m) => if m.0 < e.cursor_pos() {
            e.text().subrange(m.0 as int, e.cursor_pos())
        } else {
            e.text().subrange(e.cursor_pos(), min_of(m.0 as int, e.text().len() as int))
        },
        None => Seq::<char>::empty(),
    }
}

/// The input that a search over `e` begins with: for a term search, the selected
/// text where there is one and it holds no control character; else nothing.
pub open spec fn primed_value(e: Editor, regex: bool) -> Seq<char> {
    let sel = selection_of(e);
    if !regex && e.mark() is Some && (forall|k: int| 0 <= k < sel.len() ==> !is_control(#[trigger] sel[k])) {
        sel
    } else {
        Seq::<char>::empty()
    }
}

/// The state of an incremental search over an editor.
pub struct Search {
    /// The cursor position before the search.
    pos: usize,
    /// The mark before the search.
    mark: Option<Mark>,
    /// Search with a regular expression if `true`, else for a term.
    using_regex: bool,
    /// Match case if `true`.
    case_strict: bool,
    /// The matches found so far for the current input, in the order found.
    match_cache: Vec<(usize, usize)>,
    /// The index into `match_cache` of the current match and the pattern, or `None`
    /// where nothing matches.
    match_index: Option<(usize, SearchPattern)>,
    /// The input most recently seen.
    last_value: String,
}

impl Search {
    /// The index of the current match lies in the cache.
    pub closed spec fn wf(&self) -> bool {
        self.match_index matches Some((i, _)) ==> i < self.match_cache@.len()
    }

    /// The cursor position before the search.
    pub closed spec fn captured_pos(&self) -> usize {
        self.pos
    }

    /// The mark before the search.
    pub closed spec fn captured_mark(&self) -> Option<Mark> {
        self.mark
    }

    /// Whether the search uses a regular expression.
    pub closed spec fn regex(&self) -> bool {
        self.using_regex
    }

    /// Whether the search matches case.
    pub closed spec fn strict(&self) -> bool {
        self.case_strict
    }

    /// The matches found so far.
    pub closed spec fn cache(&self) -> Seq<(usize, usize)> {
        self.match_cache@
    }

    /// The index of the current match and the pattern, if any.
    pub closed spec fn index(&self) -> Option<(usize, SearchPattern)> {
        self.match_index
    }

    /// The input most recently seen.
    pub closed spec fn last_input(&self) -> Seq<char> {
        self.last_value@
    }

    /// `t` keeps what this search captured and how it searches.
    pub open spec fn keeps_setup(&self, t: Search) -> bool {
        &&& t.captured_pos() == self.captured_pos()
        &&& t.captured_mark() == self.captured_mark()
        &&& t.regex() == self.regex()
        &&& t.strict() == self.strict()
    }

    /// Starts a search over `editor` with a regular expression where `using_regex`
    /// holds, matching case where `case_strict` holds. A term search begins with
    /// the selected text, unless it holds a control character, as if typed, its
    /// match being the one at the cursor.
    pub fn new(editor: &Editor, using_regex: bool, case_strict: bool) -> (r: Search)
        requires
            editor.wf(),
        ensures
            r.wf(),
            r.captured_pos() == editor.cursor_pos(),
            r.captured_mark() == editor.mark(),
            r.regex() == using_regex,
            r.strict() == case_strict,
            ({
                let value = primed_value(*editor, using_regex);
                &&& r.last_input() == value
                &&& value.len() > 0 ==> r.cache() == seq![
                    (editor.cursor_pos() as usize, min_of(editor.cursor_pos() + value.len(), usize::MAX as int) as usize),
                ] && (r.index() matches Some((0, p)) && built_from(p, value, false, case_strict))
                &&& value.len() == 0 ==> r.cache().len() == 0 && r.index() is None
            }),
    {
        proof {
            editor.lemma_wf();
        }
        let pos = editor.pos();
        let mark = editor.get_mark();
        let mut value: Vec<char> = Vec::new();
        if !using_regex {
            match mark {
                Some(m) => {
                    let text = editor.copy_mark(m);
                    let mut clean = true;
                    let mut k: usize = 0;
                    while k < text.len()
                        invariant
                            k <= text@.len(),
                            clean == (forall|j: int| 0 <= j < k ==> !is_control(#[trigger] text@[j])),
                        decreases text@.len() - k,
                    {
                        let c = text[k];
                        if (c as u32) < 0x20 || (0x7f <= (c as u32) && (c as u32) <= 0x9f) {
                            clean = false;
                        }
                        k = k + 1;
                    }
                    if clean {
                        value = text;
                    } else {
                        assert(!(forall|j: int| 0 <= j < text@.len() ==> !is_control(#[trigger] text@[j])));
                    }
                },
                None => {},
            }
        }
        assert(value@ == primed_value(*editor, using_regex));
        let last_value = string_of(&value);
        if value.len() > 0 {
            assert(value@.len() <= editor.text().len());
            let pattern = using_term(last_value.as_str(), case_strict);
            let mut cache: Vec<(usize, usize)> = Vec::new();
            let n = value.len();
            let end = if n <= usize::MAX - pos { pos + n } else { usize::MAX };
            cache.push((pos, end));
            Search {
                pos,
                mark,
                using_regex,
                case_strict,
                match_cache: cache,
                match_index: Some((0, SearchPattern::Term(pattern))),
                last_value,
            }
        } else {
            Search {
                pos,
                mark,
                using_regex,
                case_strict,
                match_cache: Vec::new(),
                match_index: None,
                last_value,
            }
        }
    }

    /// Returns the prompt of the search: whether it uses a regular expression and
    /// whether it matches case.
    pub fn prompt(&self) -> (r: String)
        ensures
            r@ == (if self.regex() { "regex "@ } else { ""@ }) + "search (case-"@ + (if self.strict() {
                ""@
            } else {
                "in"@
            }) + "sensitive):"@,
    {
        proof {
            reveal_strlit("");
        }
        let mut p = if self.using_regex { to_string("regex ") } else { to_string("") };
        push_str(&mut p, "search (case-");
        if !self.case_strict {
            push_str(&mut p, "in");
        }
        push_str(&mut p, "sensitive):");
        assert(p@ =~= (if self.regex() { "regex "@ } else { ""@ }) + "search (case-"@ + (if self.strict() {
                ""@
            } else {
                "in"@
            }) + "sensitive):"@);
        p
    }

    /// Returns the input that the search begins with, if not empty.
    pub fn value(&self) -> (r: Option<String>)
        ensures
            match r {
                Some(v) => v@ == self.last_input() && v@.len() > 0,
                None => self.last_input().len() == 0,
            },
    {
        if str_is_empty(self.last_value.as_str()) {
            None
        } else {
            Some(self.last_value.clone())
        }
    }

    /// Highlights the match from `s` to `e` in `editor`.
    fn highlight(editor: &mut Editor, s: usize, e: usize)
        requires
            old(editor).wf(),
        ensures
            final(editor).wf(),
            highlighted(*old(editor), *final(editor), s, e),
    {
        editor.move_to(s);
        editor.clear_mark();
        editor.set_soft_mark_at(e);
    }

    /// The hint for the current match.
    fn hint(&self) -> (r: Option<String>)
        ensures
            text_of(r) == match_hint(self.index() is Some),
    {
        match self.match_index {
            Some(_) => None,
            None => Some(to_string(" (no match)")),
        }
    }

    /// Searches anew for `value` from the cursor position before the search.
    fn find_first(&mut self, editor: &mut Editor, value: &str) -> (r: Option<String>)
        requires
            old(self).wf(),
            old(editor).wf(),
            value@.len() < usize::MAX,
        ensures
            final(self).wf(),
            final(editor).wf(),
            old(self).keeps_setup(*final(self)),
            final(self).last_input() == old(self).last_input(),
            text_of(r) == match_hint(final(self).index() is Some),
            match first_found(old(editor).text(), value@, old(self).regex(), old(self).strict(), old(self).captured_pos() as int) {
                Some(Match(s, e)) => {
                    &&& highlighted(*old(editor), *final(editor), s, e)
                    &&& final(self).cache() == seq![(s, e)]
                    &&& (final(self).index() matches Some((0, p)) && built_from(p, value@, old(self).regex(), old(self).strict()))
                },
                None => {
                    &&& *final(editor) == *old(editor)
                    &&& final(self).cache().len() == 0
                    &&& final(self).index() is None
                },
            },
    {
        self.match_index = None;
        self.match_cache.clear();
        let pattern = if self.using_regex {
            match RegexPattern::new(value, !self.case_strict, true) {
                Ok(p) => Some(SearchPattern::Regex(p)),
                Err(_) => None,
            }
        } else {
            Some(SearchPattern::Term(using_term(value, self.case_strict)))
        };
        match pattern {
            Some(p) => match p.find(editor.buffer(), self.pos) {
                Some(Match(s, e)) => {
                    Self::highlight(editor, s, e);
                    self.match_cache.push((s, e));
                    self.match_index = Some((0, p));
                },
                None => {},
            },
            None => {},
        }
        self.hint()
    }

    /// `t` and `b` are this search and the editor `a` after a move to the next match.
    pub open spec fn found_next(&self, a: Editor, t: Search, b: Editor, r: Option<String>) -> bool {
        let c = self.cache();
        &&& self.keeps_setup(t)
        &&& t.last_input() == self.last_input()
        &&& match self.index() {
            None => b == a && t.cache() == c && t.index() is None && text_of(r) == match_hint(false),
            Some((i, p)) => if i == c.len() - 1 {
                match p.found(a.text(), next_from(c[i as int].0)) {
                    Some(Match(s, e)) => {
                        &&& highlighted(a, b, s, e)
                        &&& text_of(r) == match_hint(true)
                        &&& if s == c[0].0 {
                            t.cache() == c && t.index() == Some((0usize, p))
                        } else {
                            t.cache() == c.push((s, e)) && t.index() == Some(((i + 1) as usize, p))
                        }
                    },
                    None => b == a && t.cache() == c && t.index() is None && text_of(r) == match_hint(false),
                }
            } else {
                &&& highlighted(a, b, c[i + 1].0, c[i + 1].1)
                &&& t.cache() == c
                &&& t.index() == Some(((i + 1) as usize, p))
                &&& text_of(r) == match_hint(true)
            },
        }
    }

    /// Moves to the next match: the next one found so far, or else the one after
    /// the last found, which, where it is the first one again, starts the round
    /// anew.
    fn find_next(&mut self, editor: &mut Editor) -> (r: Option<String>)
        requires
            old(self).wf(),
            old(editor).wf(),
        ensures
            final(self).wf(),
            final(editor).wf(),
            old(self).found_next(*old(editor), *final(self), *final(editor), r),
    {
        match self.match_index.take() {
            Some((i, p)) => {
                if i == self.match_cache.len() - 1 {
                    let c0 = self.match_cache[i].0;
                    let from = if c0 < usize::MAX { c0 + 1 } else { c0 };
                    match p.find(editor.buffer(), from) {
                        Some(Match(s, e)) => {
                            Self::highlight(editor, s, e);
                            if s == self.match_cache[0].0 {
                                self.match_index = Some((0, p));
                            } else {
                                self.match_cache.push((s, e));
                                self.match_index = Some((i + 1, p));
                            }
                        },
                        None => {},
                    }
                } else {
                    let (s, e) = self.match_cache[i + 1];
                    Self::highlight(editor, s, e);
                    self.match_index = Some((i + 1, p));
                }
            },
            None => {},
        }
        self.hint()
    }

    /// `t` and `b` are this search and the editor `a` after a move to the previous
    /// match.
    pub open spec fn found_prev(&self, a: Editor, t: Search, b: Editor, r: Option<String>) -> bool {
        let c = self.cache();
        &&& self.keeps_setup(t)
        &&& t.last_input() == self.last_input()
        &&& t.cache() == c
        &&& match self.index() {
            None => b == a && t.index() is None && text_of(r) == match_hint(false),
            Some((i, p)) => {
                let j: int = if i > 0 { i - 1 } else { 0 };
                &&& highlighted(a, b, c[j].0, c[j].1)
                &&& t.index() == Some((j as usize, p))
                &&& text_of(r) == match_hint(true)
            },
        }
    }

    /// Moves to the previous match found, or stays on the first.
    fn find_prev(&mut self, editor: &mut Editor) -> (r: Option<String>)
        requires
            old(self).wf(),
            old(editor).wf(),
        ensures
            final(self).wf(),
            final(editor).wf(),
            old(self).found_prev(*old(editor), *final(self), *final(editor), r),
    {
        match self.match_index.take() {
            Some((i, p)) => {
                let j = if i > 0 { i - 1 } else { 0 };
                let (s, e) = self.match_cache[j];
                Self::highlight(editor, s, e);
                self.match_index = Some((j, p));
            },
            None => {},
        }
        self.hint()
    }

    /// Puts the cursor and the mark of `editor` back as they were before the search.
    pub fn restore(&self, editor: &mut Editor)
        requires
            old(editor).wf(),
        ensures
            final(editor).wf(),
            keeps_content(*old(editor), *final(editor)),
            final(editor).cursor_pos() == min_of(self.captured_pos() as int, old(editor).text().len() as int),
            final(editor).mark() == (match self.captured_mark() {
                Some(Mark(p, soft)) => Some(Mark(min_of(p as int, old(editor).text().len() as int) as usize, soft)),
                None => None,
            }),
            final(editor).last_match() == old(editor).last_match(),
    {
        editor.restore(self.pos, self.mark);
    }

    /// Reacts to the input `value` after the key `key`: `TAB` moves to the next
    /// match and `S-TAB` to the previous one; else an input that changed is
    /// searched anew, or, where empty, puts the cursor back. Returns the hint.
    pub fn react(&mut self, editor: &mut Editor, value: &str, key: Key) -> (r: Option<String>)
        requires
            old(self).wf(),
            old(editor).wf(),
            value@.len() < usize::MAX,
        ensures
            final(self).wf(),
            final(editor).wf(),
            key == Key::Control(9) ==> old(self).found_next(*old(editor), *final(self), *final(editor), r),
            key == Key::ReverseTab ==> old(self).found_prev(*old(editor), *final(self), *final(editor), r),
            key != Key::Control(9) && key != Key::ReverseTab && value@ == old(self).last_input() ==> r is None
                && *final(self) == *old(self) && *final(editor) == *old(editor),
            key != Key::Control(9) && key != Key::ReverseTab && value@ != old(self).last_input() ==> {
                &&& old(self).keeps_setup(*final(self))
                &&& final(self).last_input() == value@
                &&& value@.len() == 0 ==> {
                    &&& r is None
                    &&& final(self).cache() == old(self).cache()
                    &&& final(self).index() == old(self).index()
                    &&& keeps_content(*old(editor), *final(editor))
                    &&& final(editor).cursor_pos() == min_of(old(self).captured_pos() as int, old(editor).text().len() as int)
                    &&& final(editor).mark() == (match old(self).captured_mark() {
                        Some(Mark(p, soft)) => Some(Mark(min_of(p as int, old(editor).text().len() as int) as usize, soft)),
                        None => None,
                    })
                    &&& final(editor).last_match() == old(editor).last_match()
                }
                &&& value@.len() > 0 ==> {
                    &&& text_of(r) == match_hint(final(self).index() is Some)
                    &&& match first_found(old(editor).text(), value@, old(self).regex(), old(self).strict(), old(self).captured_pos() as int) {
                        Some(Match(s, e)) => {
                            &&& highlighted(*old(editor), *final(editor), s, e)
                            &&& final(self).cache() == seq![(s, e)]
                            &&& (final(self).index() matches Some((0, p)) && built_from(p, value@, old(self).regex(), old(self).strict()))
                        },
                        None => {
                            &&& *final(editor) == *old(editor)
                            &&& final(self).cache().len() == 0
                            &&& final(self).index() is None
                        },
                    }
                }
            },
    {
        if key == Key::Control(9) {
            self.find_next(editor)
        } else if key == Key::ReverseTab {
            self.find_prev(editor)
        } else if str_eq(value, self.last_value.as_str()) {
            None
        } else {
            let hint = if !str_is_empty(value) {
                self.find_first(editor, value)
            } else {
                self.restore(editor);
                None
            };
            self.last_value = to_string(value);
            hint
        }
    }

    /// Ends the search with the input `value` accepted, or with `None` where it was
    /// cancelled: an accepted, non-empty input with a current match leaves the
    /// cursor there and has the editor remember where and what it searched for;
    /// else the cursor and the mark are put back.
    pub fn respond(&mut self, editor: &mut Editor, value: Option<&str>)
        requires
            old(self).wf(),
            old(editor).wf(),
        ensures
            final(editor).wf(),
            ({
                let kept = value matches Some(v) && v@.len() > 0 && old(self).index() is Some;
                &&& kept ==> (old(self).index() matches Some((i, p)) && keeps_content(*old(editor), *final(editor))
                    && final(editor).cursor_pos() == old(editor).cursor_pos() && final(editor).mark()
                    == old(editor).mark() && final(editor).last_match() == Some((old(self).cache()[i as int].0, p)))
                &&& !kept ==> {
                    &&& keeps_content(*old(editor), *final(editor))
                    &&& final(editor).cursor_pos() == min_of(old(self).captured_pos() as int, old(editor).text().len() as int)
                    &&& final(editor).mark() == (match old(self).captured_mark() {
                        Some(Mark(p, soft)) => Some(Mark(min_of(p as int, old(editor).text().len() as int) as usize, soft)),
                        None => None,
                    })
                    &&& final(editor).last_match() == old(editor).last_match()
                }
            }),
    {
        let accepted = match value {
            Some(v) => !str_is_empty(v),
            None => false,
        };
        if accepted && self.match_index.is_some() {
            match self.match_index.take() {
                Some((i, p)) => {
                    let s = self.match_cache[i].0;
                    editor.set_last_match(s, p);
                },
                None => {},
            }
        } else {
            self.restore(editor);
        }
    }
}

} // verus!

//! An editor for soliciting input.
//!
//! The input editor occupies the shared region of the workspace: a prompt on the
//! left and a one-row input area on the right, which is a canvas. It offers a
//! simplified editing experience aimed at capturing a line of input, assisted by a
//! [`Completer`] that the caller hands to each operation.

use crate::canvas::Canvas;
use crate::color::Color;
use crate::grid::Cell;
use crate::key::{Ctrl, Key, Shift};
use crate::size::{Point, Size};
use crate::ansi::{color_seq, cursor_seq};
use crate::canvas::draw_out;
use crate::grid::diff_upto;
use crate::strings::{chars_of, push_chars, push_str, string_of, to_string};
use crate::user::{text_of, Completer, Suggest};
use crate::writer::Writer;
use vstd::prelude::*;

verus! {

/// A directive produced after processing a [`Key`].
#[derive(PartialEq, Eq, Structural, Debug)]
pub enum Directive {
    /// The key was recognized and processing of keys should continue.
    Continue,
    /// The key was ignored but processing of keys should continue.
    Ignore,
    /// The input has been accepted.
    Accept,
    /// The input has been cancelled.
    Cancel,
}

/// The smallest number of columns given to the input editor.
pub const MIN_COLS: u32 = 2;

/// The columns of the prompt area and of the input area when the editor has
/// `cols` columns and a prompt of `prompt_len` characters: the prompt and a
/// trailing space are shown in full where at least [`MIN_COLS`] columns remain,
/// and clipped otherwise; a prompt area that would show only the space goes to
/// the input area.
pub open spec fn sizes_of(cols: int, prompt_len: int) -> (int, int) {
    let cols = if cols < MIN_COLS { MIN_COLS as int } else { cols };
    let plen = prompt_len + 1;
    let desired = plen + MIN_COLS;
    let (p, i) = if desired > cols {
        (plen - (desired - cols), MIN_COLS as int)
    } else {
        (plen, cols - plen)
    };
    if p == 1 {
        (0, i + 1)
    } else {
        (p, i)
    }
}

/// `cursor` kept within an input area of `cols` columns.
pub open spec fn clamp(cursor: int, cols: int) -> int {
    let last = if cols > 0 { cols - 1 } else { 0 };
    if cursor < last {
        cursor
    } else {
        last
    }
}

/// The cell that shows the character at `i` of `input`, of which the first `len`
/// characters are the user's and the rest a hint, or a blank past its end.
pub open spec fn input_cell(input: Seq<char>, len: int, i: int, input_color: Color, hint_color: Color) -> Cell {
    if i < input.len() {
        if i < len {
            Cell { value: input[i], color: input_color }
        } else {
            Cell { value: input[i], color: hint_color }
        }
    } else {
        Cell { value: ' ', color: input_color }
    }
}

/// The cells of an input area of `cols` columns that shows `input`, of which the
/// first `len` characters are the user's and the rest a hint, such that the
/// character at `pos` is at column `cursor`; unused columns are blank.
pub open spec fn visible_cells(
    input: Seq<char>,
    len: int,
    pos: int,
    cursor: int,
    cols: int,
    input_color: Color,
    hint_color: Color,
) -> Seq<Cell> {
    Seq::new(cols as nat, |col: int| input_cell(input, len, pos - cursor + col, input_color, hint_color))
}

/// The first `n` characters of `s`, or all of them where it has fewer.
pub open spec fn take_upto(s: Seq<char>, n: int) -> Seq<char> {
    if n < s.len() {
        s.take(n)
    } else {
        s
    }
}

/// `key` edits the input or moves within it.
pub open spec fn edit_key(key: Key) -> bool {
    match key {
        Key::Char(_) => true,
        Key::Control(k) => k == 127 || k == 4 || k == 10 || k == 11 || k == 6 || k == 2 || k == 1
            || k == 5,
        Key::Right(Shift::Off, Ctrl::Off) => true,
        Key::Left(Shift::Off, Ctrl::Off) => true,
        Key::Home(Shift::Off, Ctrl::Off) => true,
        Key::End(Shift::Off, Ctrl::Off) => true,
        _ => false,
    }
}

/// `key` changes the user's input, so that the completer evaluates it anew.
pub open spec fn evaluates(key: Key) -> bool {
    match key {
        Key::Char(_) => true,
        Key::Control(k) => k == 127 || k == 4 || k == 10 || k == 11,
        _ => false,
    }
}

/// The user's input, the position and the cursor column after the editing key
/// `key`, where it changes anything: a character is inserted; `DEL` removes the
/// character before the cursor and `CTRL-D` the one at it; `CTRL-J` removes all
/// before the cursor and `CTRL-K` all from it; `CTRL-F`/`RIGHT` and
/// `CTRL-B`/`LEFT` move by one character, `CTRL-A`/`HOME` to the start and
/// `CTRL-E`/`END` to the end.
pub open spec fn key_edit(key: Key, user: Seq<char>, pos: int, cursor: int, cols: int) -> Option<
    (Seq<char>, int, int),
> {
    let back = if cursor > 0 { cursor - 1 } else { 0 };
    match key {
        Key::Char(c) => Some((user.insert(pos, c), pos + 1, clamp(cursor + 1, cols))),
        Key::Control(127) => if pos > 0 { Some((user.remove(pos - 1), pos - 1, back)) } else { None },
        Key::Control(4) => if pos < user.len() { Some((user.remove(pos), pos, cursor)) } else { None },
        Key::Control(10) => if pos > 0 { Some((user.skip(pos), 0, 0)) } else { None },
        Key::Control(11) => if pos < user.len() { Some((user.take(pos), pos, cursor)) } else { None },
        Key::Control(6) | Key::Right(Shift::Off, Ctrl::Off) => if pos < user.len() {
            Some((user, pos + 1, clamp(cursor + 1, cols)))
        } else {
            None
        },
        Key::Control(2) | Key::Left(Shift::Off, Ctrl::Off) => if pos > 0 {
            Some((user, pos - 1, back))
        } else {
            None
        },
        Key::Control(1) | Key::Home(Shift::Off, Ctrl::Off) => if pos > 0 {
            Some((user, 0, 0))
        } else {
            None
        },
        Key::Control(5) | Key::End(Shift::Off, Ctrl::Off) => if pos < user.len() {
            Some((user, user.len() as int, clamp((user.len() as u32) as int, cols)))
        } else {
            None
        },
        _ => None,
    }
}

/// What the editing key `key` does to the user's input `user` with the position at
/// `pos`, giving the input `u` with the position at `p`, told character by
/// character: a character goes in at the position, which moves past it; `DEL`
/// takes out the character before the position and `CTRL-D` the one at it; `CTRL-J`
/// leaves what stands from the position on, and `CTRL-K` what stands before it;
/// the moves leave the input as it is and put the position one further, one back,
/// at the start or at the end.
pub open spec fn edit_effect(key: Key, user: Seq<char>, pos: int, u: Seq<char>, p: int) -> bool {
    match key {
        Key::Char(ch) => {
            &&& u.len() == user.len() + 1
            &&& p == pos + 1
            &&& u[pos] == ch
            &&& forall|j: int| 0 <= j < pos ==> #[trigger] u[j] == user[j]
            &&& forall|j: int| pos < j < u.len() ==> #[trigger] u[j] == user[j - 1]
        },
        Key::Control(127) => {
            &&& u.len() == user.len() - 1
            &&& p == pos - 1
            &&& forall|j: int| 0 <= j < pos - 1 ==> #[trigger] u[j] == user[j]
            &&& forall|j: int| pos - 1 <= j < u.len() ==> #[trigger] u[j] == user[j + 1]
        },
        Key::Control(4) => {
            &&& u.len() == user.len() - 1
            &&& p == pos
            &&& forall|j: int| 0 <= j < pos ==> #[trigger] u[j] == user[j]
            &&& forall|j: int| pos <= j < u.len() ==> #[trigger] u[j] == user[j + 1]
        },
        Key::Control(10) => {
            &&& u.len() == user.len() - pos
            &&& p == 0
            &&& forall|j: int| 0 <= j < u.len() ==> #[trigger] u[j] == user[pos + j]
        },
        Key::Control(11) => {
            &&& u.len() == pos
            &&& p == pos
            &&& forall|j: int| 0 <= j < pos ==> #[trigger] u[j] == user[j]
        },
        Key::Control(6) | Key::Right(Shift::Off, Ctrl::Off) => u == user && p == pos + 1,
        Key::Control(2) | Key::Left(Shift::Off, Ctrl::Off) => u == user && p == pos - 1,
        Key::Control(1) | Key::Home(Shift::Off, Ctrl::Off) => u == user && p == 0,
        Key::Control(5) | Key::End(Shift::Off, Ctrl::Off) => u == user && p == user.len(),
        _ => false,
    }
}

/// Each editing key does to the input what [`edit_effect`] tells, wherever it
/// changes anything; a character always goes in, `CTRL-K` and `CTRL-D` change the
/// input unless the position is at its end, and `DEL` and `CTRL-J` unless it is
/// at its start.
pub proof fn lemma_edit_keys(key: Key, user: Seq<char>, pos: int, cursor: int, cols: int)
    requires
        0 <= pos <= user.len(),
    ensures
        key_edit(key, user, pos, cursor, cols) matches Some((u, p, c)) ==> edit_effect(key, user, pos, u, p),
        key is Char ==> key_edit(key, user, pos, cursor, cols) is Some,
        (key == Key::Control(11) || key == Key::Control(4)) ==> (key_edit(key, user, pos, cursor, cols) is Some
            <==> pos < user.len()),
        (key == Key::Control(127) || key == Key::Control(10)) ==> (key_edit(key, user, pos, cursor, cols) is Some
            <==> pos > 0),
{
    match key_edit(key, user, pos, cursor, cols) {
        Some((u, p, c)) => {
            match key {
                Key::Char(ch) => {
                    assert(u == user.insert(pos, ch));
                },
                Key::Control(127) => {
                    assert(u == user.remove(pos - 1));
                },
                Key::Control(4) => {
                    assert(u == user.remove(pos));
                },
                Key::Control(10) => {
                    assert(u == user.skip(pos));
                },
                Key::Control(11) => {
                    assert(u == user.take(pos));
                },
                _ => {},
            }
        },
        None => {},
    }
}

/// Returns `true` if `key` edits the input or moves within it.
fn is_edit_key(key: &Key) -> (b: bool)
    ensures
        b == edit_key(*key),
{
    match *key {
        Key::Char(_) => true,
        Key::Control(k) => k == 127 || k == 4 || k == 10 || k == 11 || k == 6 || k == 2 || k == 1
            || k == 5,
        Key::Right(Shift::Off, Ctrl::Off) => true,
        Key::Left(Shift::Off, Ctrl::Off) => true,
        Key::Home(Shift::Off, Ctrl::Off) => true,
        Key::End(Shift::Off, Ctrl::Off) => true,
        _ => false,
    }
}

/// Returns `true` if `key` changes the user's input.
fn evaluates_key(key: &Key) -> (b: bool)
    ensures
        b == evaluates(*key),
{
    match *key {
        Key::Char(_) => true,
        Key::Control(k) => k == 127 || k == 4 || k == 10 || k == 11,
        _ => false,
    }
}

/// An editor for a single line of input under a prompt.
pub struct InputEditor {
    prompt_color: Color,
    input_color: Color,
    hint_color: Color,
    /// The prompt while the editor is enabled.
    prompt: Option<String>,
    /// The origin of the region that the editor occupies.
    origin: Point,
    prompt_cols: u32,
    input_cols: u32,
    /// The input area.
    canvas: Canvas,
    /// The user's input followed by the hint, if any.
    input: Vec<char>,
    /// The length of the user's part of `input`.
    len: usize,
    /// The position in `input` at the cursor.
    pos: usize,
    /// The column of the cursor in the input area.
    cursor: u32,
    hint: Option<String>,
    /// Terminal output not yet handed over.
    out: String,
}

/// `new` is `old` after the suggestion `s`, a replacement and a hint: the input
/// becomes the replacement, with the cursor at its end, where there is one, and
/// else stays as it was; the hint becomes the one given.
pub open spec fn suggested(old: InputEditor, new: InputEditor, s: (Option<Seq<char>>, Option<Seq<char>>)) -> bool {
    &&& new.hint_text() == s.1
    &&& match s.0 {
        Some(r) => new.user() == r && new.at() == r.len() && new.column() == clamp(
            (r.len() as u32) as int,
            old.areas().1 as int,
        ),
        None => new.user() == old.user() && new.at() == old.at() && new.column() == old.column(),
    }
}

/// What processing `key` does to the input editor `old`, leaving `new`, with the
/// directive `d`: editing keys change the input and redraw it, `TAB` asks for a
/// suggestion, `RETURN` (`CTRL-M`) asks the completer to accept the input, `CTRL-G`
/// cancels, and any other key is ignored.
pub open spec fn key_processed<C: Completer>(old: InputEditor, new: InputEditor, key: Key, d: Directive, comp: C) -> bool {
    &&& new.same_settings(&old)
    &&& new.area_origin() == old.area_origin()
    &&& edit_key(key) ==> d == Directive::Continue && match key_edit(
        key,
        old.user(),
        old.at() as int,
        old.column() as int,
        old.areas().1 as int,
    ) {
        Some((u, p, c)) => {
            &&& new.user() == u
            &&& new.at() == p
            &&& new.column() == c
            &&& !evaluates(key) ==> new.hint_text() == old.hint_text()
            &&& evaluates(key) ==> new.hint_text() == comp.evaluation(u)
            &&& new.area_cells() == new.visible()
            &&& new.displayed() == new.visible()
            &&& new.pending() == old.pending() + new.redraw_out(old.displayed())
        },
        None => new.same_state(&old) && new.pending() == old.pending() && new.displayed()
            == old.displayed(),
    }
    &&& key == Key::Control(9) ==> {
        &&& d == Directive::Continue
        &&& suggested(old, new, comp.suggestion(old.user(), Suggest::Forward))
        &&& new.area_cells() == new.visible()
        &&& new.displayed() == new.visible()
        &&& new.pending() == old.pending() + new.redraw_out(old.displayed())
    }
    &&& key == Key::ReverseTab ==> {
        &&& d == Directive::Continue
        &&& suggested(old, new, comp.suggestion(old.user(), Suggest::Backward))
        &&& new.area_cells() == new.visible()
        &&& new.displayed() == new.visible()
        &&& new.pending() == old.pending() + new.redraw_out(old.displayed())
    }
    &&& key == Key::Control(13) ==> {
        &&& d == Directive::Accept || d == Directive::Continue
        &&& d == Directive::Accept ==> new.hint_text() is None && new.at() == new.user().len()
            && new.column() == clamp((new.at() as u32) as int, old.areas().1 as int)
        &&& d == Directive::Continue ==> new.same_state(&old)
        &&& new.pending() == old.pending()
    }
    &&& key == Key::Control(7) ==> d == Directive::Cancel && new.same_state(&old) && new.pending()
        == old.pending()
    &&& !edit_key(key) && key != Key::Control(9) && key != Key::ReverseTab && key != Key::Control(13) && key
        != Key::Control(7) ==> d == Directive::Ignore && new.same_state(&old) && new.pending() == old.pending()
}

impl InputEditor {
    /// The editor's consistency: the user's input is followed by exactly the hint,
    /// the cursor lies within the user's input and within the input area, and the
    /// input area has the columns given to it.
    pub closed spec fn wf(&self) -> bool {
        &&& self.text_ok()
        &&& self.cursor <= self.pos
        &&& self.canvas.wf()
        &&& self.canvas.pending().len() == 0
        &&& (self.prompt is Some ==> self.canvas.org() == Point {
            row: self.origin.row,
            col: (self.origin.col + self.prompt_cols) as u32,
        })
        &&& self.canvas.dims() == Size { rows: if self.prompt is Some { 1 } else { 0 }, cols: self.input_cols }
        &&& (self.prompt is Some ==> self.input_cols >= MIN_COLS && self.cursor < self.input_cols)
        &&& (self.prompt is None ==> self.input_cols == 0 && self.prompt_cols == 0 && self.cursor == 0)
        &&& self.origin.row < u32::MAX
        &&& self.origin.col < u32::MAX
    }

    /// The user's input is followed by exactly the hint, and the position lies
    /// within the user's input.
    closed spec fn text_ok(&self) -> bool {
        &&& self.len <= self.input@.len()
        &&& self.pos <= self.len
        &&& self.input@ == self.input@.take(self.len as int) + (match self.hint {
            Some(h) => h@,
            None => Seq::<char>::empty(),
        })
    }

    /// The editor is enabled.
    pub closed spec fn enabled(&self) -> bool {
        self.prompt is Some
    }

    /// The prompt while enabled.
    pub closed spec fn prompt_text(&self) -> Seq<char> {
        match self.prompt {
            Some(p) => p@,
            None => Seq::empty(),
        }
    }

    /// The user's input.
    pub closed spec fn user(&self) -> Seq<char> {
        self.input@.take(self.len as int)
    }

    /// The hint shown after the user's input.
    pub closed spec fn hint_text(&self) -> Option<Seq<char>> {
        match self.hint {
            Some(h) => Some(h@),
            None => None,
        }
    }

    /// The user's input followed by the hint.
    pub closed spec fn shown_text(&self) -> Seq<char> {
        self.input@
    }

    /// The position in the user's input at the cursor.
    pub closed spec fn at(&self) -> nat {
        self.pos as nat
    }

    /// The column of the cursor in the input area.
    pub closed spec fn column(&self) -> nat {
        self.cursor as nat
    }

    /// The columns of the prompt area and of the input area.
    pub closed spec fn areas(&self) -> (nat, nat) {
        (self.prompt_cols as nat, self.input_cols as nat)
    }

    /// The origin of the region that the editor occupies.
    pub closed spec fn region(&self) -> Point {
        self.origin
    }

    /// The colors of the prompt, of the input and of the hint.
    pub closed spec fn colors(&self) -> (Color, Color, Color) {
        (self.prompt_color, self.input_color, self.hint_color)
    }

    /// The cells that the input area is to show.
    pub closed spec fn area_cells(&self) -> Seq<Cell> {
        self.canvas.back_cells()
    }

    /// The cells that the input area shows on the terminal.
    pub closed spec fn displayed(&self) -> Seq<Cell> {
        self.canvas.front_cells()
    }

    /// The origin of the input area.
    pub closed spec fn area_origin(&self) -> Point {
        self.canvas.org()
    }

    /// The terminal output not yet handed over.
    pub closed spec fn pending(&self) -> Seq<char> {
        self.out@
    }

    /// The output that brings the input area from showing `before` to showing
    /// [`visible`](Self::visible), and then places the cursor.
    pub open spec fn redraw_out(&self, before: Seq<Cell>) -> Seq<char> {
        draw_out(
            self.area_origin(),
            diff_upto(before, self.visible(), self.areas().1 as int, before.len() as int),
        ) + cursor_seq(self.area_origin().row as nat, (self.area_origin().col + self.column()) as nat)
    }

    /// The output that shows the prompt, clipped to the prompt area, followed by a
    /// space.
    pub open spec fn prompt_out(&self) -> Seq<char> {
        if self.enabled() && self.areas().0 > 0 {
            cursor_seq(self.region().row as nat, self.region().col as nat) + color_seq(self.colors().0)
                + take_upto(self.prompt_text(), self.areas().0 - 1) + seq![' ']
        } else {
            Seq::empty()
        }
    }

    /// The cells that the input area shows for the editor's state.
    pub open spec fn visible(&self) -> Seq<Cell> {
        visible_cells(
            self.shown_text(),
            self.user().len() as int,
            self.at() as int,
            self.column() as int,
            self.areas().1 as int,
            self.colors().1,
            self.colors().2,
        )
    }

    /// The state of the editor, apart from its output, is that of `other`.
    pub open spec fn same_state(&self, other: &InputEditor) -> bool {
        &&& self.enabled() == other.enabled()
        &&& self.prompt_text() == other.prompt_text()
        &&& self.user() == other.user()
        &&& self.hint_text() == other.hint_text()
        &&& self.shown_text() == other.shown_text()
        &&& self.at() == other.at()
        &&& self.column() == other.column()
        &&& self.areas() == other.areas()
        &&& self.region() == other.region()
        &&& self.colors() == other.colors()
    }

    /// The settings of the editor, apart from its input, are those of `other`.
    pub open spec fn same_settings(&self, other: &InputEditor) -> bool {
        &&& self.enabled() == other.enabled()
        &&& self.prompt_text() == other.prompt_text()
        &&& self.areas() == other.areas()
        &&& self.region() == other.region()
        &&& self.colors() == other.colors()
    }

    proof fn lemma_wf(&self)
        requires
            self.wf(),
        ensures
            self.user().len() == self.len,
            self.shown_text() == self.user() + (match self.hint_text() {
                Some(h) => h,
                None => Seq::<char>::empty(),
            }),
    {
    }

    /// Creates a disabled editor that draws the prompt, the input and the hint in
    /// the given colors.
    pub fn new(prompt_color: Color, input_color: Color, hint_color: Color) -> (e: InputEditor)
        ensures
            e.wf(),
            !e.enabled(),
            e.user().len() == 0,
            e.hint_text() is None,
            e.at() == 0,
            e.column() == 0,
            e.areas() == (0nat, 0nat),
            e.region() == Point::origin_spec(),
            e.colors() == (prompt_color, input_color, hint_color),
            e.pending().len() == 0,
    {
        let e = InputEditor {
            prompt_color,
            input_color,
            hint_color,
            prompt: None,
            origin: Point::origin(),
            prompt_cols: 0,
            input_cols: 0,
            canvas: Canvas::zero(),
            input: Vec::new(),
            len: 0,
            pos: 0,
            cursor: 0,
            hint: None,
            out: String::new(),
        };
        assert(e.input@ =~= e.input@.take(0) + Seq::<char>::empty());
        assert(e.out@ + e.canvas.pending() =~= Seq::<char>::empty());
        e
    }

    /// Returns the columns of the prompt area and of the input area when the editor
    /// has `cols` columns and the prompt is `prompt`.
    pub fn calc_sizes(cols: u32, prompt: &str) -> (r: (u32, u32))
        requires
            prompt@.len() + 1 + MIN_COLS <= u32::MAX,
        ensures
            r.0 == sizes_of(cols as int, prompt@.len() as int).0,
            r.1 == sizes_of(cols as int, prompt@.len() as int).1,
            r.1 >= MIN_COLS,
            r.0 + r.1 == (if cols < MIN_COLS { MIN_COLS } else { cols }),
    {
        let cols = if cols < MIN_COLS { MIN_COLS } else { cols };
        let prompt_len = chars_of(prompt).len() as u32 + 1;
        let desired_cols = prompt_len + MIN_COLS;
        let (prompt_cols, input_cols) = if desired_cols > cols {
            (prompt_len - (desired_cols - cols), MIN_COLS)
        } else {
            (prompt_len, cols - prompt_len)
        };
        if prompt_cols == 1 {
            (0, input_cols + 1)
        } else {
            (prompt_cols, input_cols)
        }
    }

    /// Returns `cursor` kept within the input area.
    fn clamp_cursor(&self, cursor: u32) -> (c: u32)
        ensures
            c == clamp(cursor as int, self.input_cols as int),
    {
        let last = if self.input_cols > 0 { self.input_cols - 1 } else { 0 };
        if cursor < last {
            cursor
        } else {
            last
        }
    }

    /// Replaces the hint that follows the user's input with `hint`.
    fn update_hint(&mut self, hint: Option<String>)
        requires
            old(self).wf(),
        ensures
            final(self).wf(),
            final(self).same_settings(&*old(self)),
            final(self).user() == old(self).user(),
            final(self).at() == old(self).at(),
            final(self).column() == old(self).column(),
            final(self).hint_text() == (match hint {
                Some(h) => Some(h@),
                None => None::<Seq<char>>,
            }),
            final(self).area_cells() == old(self).area_cells(),
            final(self).displayed() == old(self).displayed(),
            final(self).area_origin() == old(self).area_origin(),
            final(self).pending() == old(self).pending(),
    {
        let ghost user = self.user();
        let mut v = Vec::new();
        let mut i: usize = 0;
        while i < self.len
            invariant
                self.wf(),
                i <= self.len,
                user == self.user(),
                v@ == self.input@.take(i as int),
            decreases self.len - i,
        {
            v.push(self.input[i]);
            i = i + 1;
            assert(v@ =~= self.input@.take(i as int));
        }
        match hint {
            Some(h) => {
                let cs = chars_of(h.as_str());
                let mut k: usize = 0;
                while k < cs.len()
                    invariant
                        k <= cs@.len(),
                        v@ == user + cs@.take(k as int),
                    decreases cs@.len() - k,
                {
                    v.push(cs[k]);
                    k = k + 1;
                    assert(v@ =~= user + cs@.take(k as int));
                }
                assert(cs@.take(cs@.len() as int) =~= cs@);
                self.input = v;
                self.hint = Some(h);
                assert(self.input@.take(self.len as int) =~= user);
            },
            None => {
                self.input = v;
                self.hint = None;
                assert(self.input@ =~= self.input@.take(self.len as int) + Seq::<char>::empty());
            },
        }
    }

    /// Sets the user's input to `value`, or clears it, placing the cursor at its
    /// end, and clears the hint.
    fn set_input(&mut self, value: Option<String>)
        requires
            old(self).wf(),
        ensures
            final(self).wf(),
            final(self).same_settings(&*old(self)),
            final(self).user() == (match value {
                Some(v) => v@,
                None => Seq::<char>::empty(),
            }),
            final(self).hint_text() is None,
            final(self).at() == final(self).user().len(),
            final(self).column() == clamp((final(self).at() as u32) as int, old(self).areas().1 as int),
            final(self).area_cells() == old(self).area_cells(),
            final(self).displayed() == old(self).displayed(),
            final(self).area_origin() == old(self).area_origin(),
            final(self).pending() == old(self).pending(),
    {
        match value {
            Some(v) => {
                self.input = chars_of(v.as_str());
            },
            None => {
                self.input.clear();
            },
        }
        self.hint = None;
        self.len = self.input.len();
        self.pos = self.len;
        let c = self.clamp_cursor(self.pos as u32);
        let p = self.pos;
        assert(p as u32 <= p) by (bit_vector);
        self.cursor = c;
        assert(self.input@.take(self.len as int) =~= self.input@);
        assert(self.input@ =~= self.input@.take(self.len as int) + Seq::<char>::empty());
    }

    /// Sets the prompt to `prompt`, which enables or disables the editor, and the
    /// sizes of the prompt area and the input area for a region at `origin` of
    /// `cols` columns, giving the input area a fresh canvas.
    fn set_sizes(&mut self, prompt: Option<String>, origin: Point, cols: u32)
        requires
            old(self).text_ok(),
            old(self).cursor <= old(self).pos,
            origin.row + 1 < u32::MAX,
            origin.col + (if cols < MIN_COLS { MIN_COLS } else { cols }) < u32::MAX,
            prompt matches Some(p) ==> p@.len() + 1 + MIN_COLS <= u32::MAX,
        ensures
            final(self).wf(),
            final(self).enabled() == prompt is Some,
            final(self).prompt_text() == (match prompt {
                Some(p) => p@,
                None => Seq::<char>::empty(),
            }),
            final(self).colors() == old(self).colors(),
            final(self).user() == old(self).user(),
            final(self).hint_text() == old(self).hint_text(),
            final(self).shown_text() == old(self).shown_text(),
            final(self).at() == old(self).at(),
            final(self).region() == origin,
            final(self).areas() == (match prompt {
                Some(p) => (
                    sizes_of(cols as int, p@.len() as int).0 as nat,
                    sizes_of(cols as int, p@.len() as int).1 as nat,
                ),
                None => (0nat, 0nat),
            }),
            final(self).area_cells() == final(self).displayed(),
            final(self).pending() == old(self).pending(),
            final(self).enabled() ==> final(self).column() == clamp(
                old(self).cursor as int,
                final(self).areas().1 as int,
            ),
            !final(self).enabled() ==> final(self).column() == 0,
    {
        self.origin = origin;
        match prompt {
            Some(prompt) => {
                let (p, i) = Self::calc_sizes(cols, prompt.as_str());
                self.prompt_cols = p;
                self.input_cols = i;
                let at = origin.plus_size(Size::cols(p));
                self.canvas = Canvas::new(at, Size::new(1, i));
                let c = self.clamp_cursor(self.cursor);
                self.cursor = c;
                self.prompt = Some(prompt);
            },
            None => {
                self.prompt_cols = 0;
                self.input_cols = 0;
                self.canvas = Canvas::zero();
                self.cursor = 0;
                self.prompt = None;
            },
        }
    }

    /// Inserts `c` at the cursor.
    fn insert_char(&mut self, c: char)
        requires
            old(self).wf(),
            old(self).enabled(),
        ensures
            final(self).wf(),
            final(self).same_settings(&*old(self)),
            final(self).hint_text() == old(self).hint_text(),
            final(self).area_cells() == old(self).area_cells(),
            final(self).displayed() == old(self).displayed(),
            final(self).area_origin() == old(self).area_origin(),
            final(self).pending() == old(self).pending(),
            final(self).user() == old(self).user().insert(old(self).at() as int, c),
            final(self).at() == old(self).at() + 1,
            final(self).column() == clamp(old(self).column() + 1int, old(self).areas().1 as int),
    {
        let ghost user = self.user();
        let ghost hint = self.input@.skip(self.len as int);
        assert(self.input@ =~= user + hint);
        assert(hint =~= (match self.hint {
            Some(h) => h@,
            None => Seq::<char>::empty(),
        }));
        self.input.insert(self.pos, c);
        let _ = self.input.len();
        self.len = self.len + 1;
        self.pos = self.pos + 1;
        self.cursor = self.clamp_cursor(self.cursor + 1);
        assert(self.input@ =~= user.insert(old(self).pos as int, c) + hint);
        assert(self.input@.take(self.len as int) =~= user.insert(old(self).pos as int, c));
    }

    /// Removes the character before the cursor.
    fn delete_before(&mut self)
        requires
            old(self).wf(),
            old(self).enabled(),
            old(self).at() > 0,
        ensures
            final(self).wf(),
            final(self).same_settings(&*old(self)),
            final(self).hint_text() == old(self).hint_text(),
            final(self).area_cells() == old(self).area_cells(),
            final(self).displayed() == old(self).displayed(),
            final(self).area_origin() == old(self).area_origin(),
            final(self).pending() == old(self).pending(),
            final(self).user() == old(self).user().remove(old(self).at() - 1),
            final(self).at() == old(self).at() - 1,
            final(self).column() == (if old(self).column() > 0 { old(self).column() - 1 } else { 0 }),
    {
        let ghost user = self.user();
        let ghost hint = self.input@.skip(self.len as int);
        assert(self.input@ =~= user + hint);
        assert(hint =~= (match self.hint {
            Some(h) => h@,
            None => Seq::<char>::empty(),
        }));
        self.len = self.len - 1;
        self.pos = self.pos - 1;
        self.input.remove(self.pos);
        self.cursor = if self.cursor > 0 { self.cursor - 1 } else { 0 };
        assert(self.input@ =~= user.remove(self.pos as int) + hint);
        assert(self.input@.take(self.len as int) =~= user.remove(self.pos as int));
    }

    /// Removes the character at the cursor.
    fn delete_at(&mut self)
        requires
            old(self).wf(),
            old(self).enabled(),
            old(self).at() < old(self).user().len(),
        ensures
            final(self).wf(),
            final(self).same_settings(&*old(self)),
            final(self).hint_text() == old(self).hint_text(),
            final(self).area_cells() == old(self).area_cells(),
            final(self).displayed() == old(self).displayed(),
            final(self).area_origin() == old(self).area_origin(),
            final(self).pending() == old(self).pending(),
            final(self).user() == old(self).user().remove(old(self).at() as int),
            final(self).at() == old(self).at(),
            final(self).column() == old(self).column(),
    {
        let ghost user = self.user();
        let ghost hint = self.input@.skip(self.len as int);
        assert(self.input@ =~= user + hint);
        assert(hint =~= (match self.hint {
            Some(h) => h@,
            None => Seq::<char>::empty(),
        }));
        self.input.remove(self.pos);
        self.len = self.len - 1;
        assert(self.input@ =~= user.remove(self.pos as int) + hint);
        assert(self.input@.take(self.len as int) =~= user.remove(self.pos as int));
    }

    /// Removes the characters before the cursor.
    fn delete_to_start(&mut self)
        requires
            old(self).wf(),
            old(self).enabled(),
        ensures
            final(self).wf(),
            final(self).same_settings(&*old(self)),
            final(self).hint_text() == old(self).hint_text(),
            final(self).area_cells() == old(self).area_cells(),
            final(self).displayed() == old(self).displayed(),
            final(self).area_origin() == old(self).area_origin(),
            final(self).pending() == old(self).pending(),
            final(self).user() == old(self).user().skip(old(self).at() as int),
            final(self).at() == 0,
            final(self).column() == 0,
    {
        let ghost user = self.user();
        let ghost hint = self.input@.skip(self.len as int);
        assert(self.input@ =~= user + hint);
        assert(hint =~= (match self.hint {
            Some(h) => h@,
            None => Seq::<char>::empty(),
        }));
        let rest = self.input.split_off(self.pos);
        self.input = rest;
        self.len = self.len - self.pos;
        assert(self.input@ =~= user.skip(self.pos as int) + hint);
        assert(self.input@.take(self.len as int) =~= user.skip(self.pos as int));
        self.pos = 0;
        self.cursor = 0;
    }

    /// Removes the characters from the cursor on.
    fn delete_to_end(&mut self)
        requires
            old(self).wf(),
            old(self).enabled(),
        ensures
            final(self).wf(),
            final(self).same_settings(&*old(self)),
            final(self).hint_text() == old(self).hint_text(),
            final(self).area_cells() == old(self).area_cells(),
            final(self).displayed() == old(self).displayed(),
            final(self).area_origin() == old(self).area_origin(),
            final(self).pending() == old(self).pending(),
            final(self).user() == old(self).user().take(old(self).at() as int),
            final(self).at() == old(self).at(),
            final(self).column() == old(self).column(),
    {
        let ghost user = self.user();
        let ghost hint = self.input@.skip(self.len as int);
        assert(self.input@ =~= user + hint);
        assert(hint =~= (match self.hint {
            Some(h) => h@,
            None => Seq::<char>::empty(),
        }));
        let mut tail = self.input.split_off(self.len);
        self.input.truncate(self.pos);
        self.input.append(&mut tail);
        self.len = self.pos;
        assert(self.input@ =~= user.take(self.pos as int) + hint);
        assert(self.input@.take(self.len as int) =~= user.take(self.pos as int));
    }

    /// Moves to `pos` with the cursor at column `cursor`.
    fn move_to(&mut self, pos: usize, cursor: u32)
        requires
            old(self).wf(),
            old(self).enabled(),
            pos <= old(self).user().len(),
            cursor <= pos,
            cursor < old(self).areas().1,
        ensures
            final(self).wf(),
            final(self).same_settings(&*old(self)),
            final(self).hint_text() == old(self).hint_text(),
            final(self).area_cells() == old(self).area_cells(),
            final(self).displayed() == old(self).displayed(),
            final(self).area_origin() == old(self).area_origin(),
            final(self).pending() == old(self).pending(),
            final(self).user() == old(self).user(),
            final(self).at() == pos,
            final(self).column() == cursor,
    {
        self.pos = pos;
        self.cursor = cursor;
    }

    /// Applies the editing key `key` to the user's input, the position and the
    /// cursor, returning `true` if anything changed.
    fn apply_edit(&mut self, key: &Key) -> (changed: bool)
        requires
            old(self).wf(),
            old(self).enabled(),
        ensures
            final(self).wf(),
            final(self).same_settings(&*old(self)),
            final(self).hint_text() == old(self).hint_text(),
            final(self).area_cells() == old(self).area_cells(),
            final(self).displayed() == old(self).displayed(),
            final(self).area_origin() == old(self).area_origin(),
            final(self).pending() == old(self).pending(),
            match key_edit(*key, old(self).user(), old(self).at() as int, old(self).column() as int, old(self).areas().1 as int) {
                Some((u, p, c)) => changed && final(self).user() == u && final(self).at() == p
                    && final(self).column() == c,
                None => !changed && final(self).same_state(&*old(self)),
            },
            changed ==> edit_effect(*key, old(self).user(), old(self).at() as int, final(self).user(), final(self).at() as int),
    {
        proof {
            self.lemma_wf();
            lemma_edit_keys(*key, self.user(), self.at() as int, self.column() as int, self.areas().1 as int);
        }
        match *key {
            Key::Char(c) => {
                self.insert_char(c);
                true
            },
            Key::Control(127) => {
                if self.pos > 0 {
                    self.delete_before();
                    true
                } else {
                    false
                }
            },
            Key::Control(4) => {
                if self.pos < self.len {
                    self.delete_at();
                    true
                } else {
                    false
                }
            },
            Key::Control(10) => {
                if self.pos > 0 {
                    self.delete_to_start();
                    true
                } else {
                    false
                }
            },
            Key::Control(11) => {
                if self.pos < self.len {
                    self.delete_to_end();
                    true
                } else {
                    false
                }
            },
            Key::Control(6) | Key::Right(Shift::Off, Ctrl::Off) => {
                if self.pos < self.len {
                    let c = self.clamp_cursor(self.cursor + 1);
                    self.move_to(self.pos + 1, c);
                    true
                } else {
                    false
                }
            },
            Key::Control(2) | Key::Left(Shift::Off, Ctrl::Off) => {
                if self.pos > 0 {
                    let c = if self.cursor > 0 { self.cursor - 1 } else { 0 };
                    self.move_to(self.pos - 1, c);
                    true
                } else {
                    false
                }
            },
            Key::Control(1) | Key::Home(Shift::Off, Ctrl::Off) => {
                if self.pos > 0 {
                    self.move_to(0, 0);
                    true
                } else {
                    false
                }
            },
            Key::Control(5) | Key::End(Shift::Off, Ctrl::Off) => {
                if self.pos < self.len {
                    let p = self.len;
                    assert(p as u32 <= p) by (bit_vector);
                    let c = self.clamp_cursor(self.len as u32);
                    self.move_to(p, c);
                    true
                } else {
                    false
                }
            },
            _ => false,
        }
    }

    /// Hands the user's input to the completer for evaluation and shows the hint
    /// it gives.
    fn evaluate<C: Completer>(&mut self, completer: &mut C)
        requires
            old(self).wf(),
        ensures
            final(self).wf(),
            final(self).hint_text() == old(completer).evaluation(old(self).user()),
            final(self).same_settings(&*old(self)),
            final(self).user() == old(self).user(),
            final(self).at() == old(self).at(),
            final(self).column() == old(self).column(),
            final(self).area_cells() == old(self).area_cells(),
            final(self).displayed() == old(self).displayed(),
            final(self).area_origin() == old(self).area_origin(),
            final(self).pending() == old(self).pending(),
    {
        let value = self.value();
        let hint = completer.evaluate(value.as_str());
        self.update_hint(hint);
    }

    /// Asks the completer for a suggestion in the direction `suggest` and applies
    /// it.
    fn suggest<C: Completer>(&mut self, completer: &mut C, suggest: Suggest)
        requires
            old(self).wf(),
        ensures
            final(self).wf(),
            final(self).same_settings(&*old(self)),
            suggested(*old(self), *final(self), old(completer).suggestion(old(self).user(), suggest)),
            final(self).area_cells() == old(self).area_cells(),
            final(self).displayed() == old(self).displayed(),
            final(self).area_origin() == old(self).area_origin(),
            final(self).pending() == old(self).pending(),
    {
        let value = self.value();
        let (replace, hint) = completer.suggest(value.as_str(), suggest);
        self.apply_suggestion(replace, hint);
    }

    /// Applies a suggestion: the input becomes `replace`, with the cursor at its
    /// end, where it is given, and the hint becomes `hint`.
    pub fn apply_suggestion(&mut self, replace: Option<String>, hint: Option<String>)
        requires
            old(self).wf(),
        ensures
            final(self).wf(),
            final(self).same_settings(&*old(self)),
            suggested(*old(self), *final(self), (text_of(replace), text_of(hint))),
            final(self).area_cells() == old(self).area_cells(),
            final(self).displayed() == old(self).displayed(),
            final(self).area_origin() == old(self).area_origin(),
            final(self).pending() == old(self).pending(),
    {
        match replace {
            Some(r) => {
                self.set_input(Some(r));
                self.update_hint(hint);
            },
            None => {
                self.update_hint(hint);
            },
        }
    }

    /// Asks the completer to accept the user's input, which it may alter,
    /// returning `true` if it did.
    fn accept<C: Completer>(&mut self, completer: &mut C) -> (accepted: bool)
        requires
            old(self).wf(),
        ensures
            final(self).wf(),
            final(self).same_settings(&*old(self)),
            accepted ==> final(self).hint_text() is None && final(self).at() == final(self).user().len()
                && final(self).column() == clamp(
                (final(self).at() as u32) as int,
                old(self).areas().1 as int,
            ),
            !accepted ==> final(self).same_state(&*old(self)),
            final(self).area_cells() == old(self).area_cells(),
            final(self).displayed() == old(self).displayed(),
            final(self).area_origin() == old(self).area_origin(),
            final(self).pending() == old(self).pending(),
    {
        let value = self.value();
        match completer.accept(value.as_str()) {
            Some(v) => {
                self.set_input(Some(v));
                true
            },
            None => false,
        }
    }

    /// Processes `key` with the help of `completer` and returns what to do next:
    /// editing keys change the input and redraw it, `TAB` asks for a suggestion and
    /// `S-TAB` for one in the other direction,
    /// `RETURN` (`CTRL-M`) asks the completer to accept the input, `CTRL-G`
    /// cancels, and any other key is ignored.
    pub fn process_key<C: Completer>(&mut self, key: &Key, completer: &mut C) -> (d: Directive)
        requires
            old(self).wf(),
            old(self).enabled(),
        ensures
            final(self).wf(),
            key_processed(*old(self), *final(self), *key, d, *old(completer)),
    {
        let k = *key;
        if is_edit_key(&k) {
            if self.apply_edit(&k) {
                if evaluates_key(&k) {
                    self.evaluate(completer);
                }
                self.draw_input();
            }
            Directive::Continue
        } else if k == Key::Control(9) {
            self.suggest(completer, Suggest::Forward);
            self.draw_input();
            Directive::Continue
        } else if k == Key::ReverseTab {
            self.suggest(completer, Suggest::Backward);
            self.draw_input();
            Directive::Continue
        } else if k == Key::Control(13) {
            if self.accept(completer) {
                Directive::Accept
            } else {
                Directive::Continue
            }
        } else if k == Key::Control(7) {
            Directive::Cancel
        } else {
            Directive::Ignore
        }
    }

    /// Draws the prompt and the input area while the editor is enabled. (While it
    /// is disabled, clearing the shared region is the workspace's part.)
    pub fn draw(&mut self)
        requires
            old(self).wf(),
        ensures
            final(self).wf(),
            final(self).same_state(&*old(self)),
            final(self).area_origin() == old(self).area_origin(),
            final(self).enabled() ==> {
                &&& final(self).area_cells() == final(self).visible()
                &&& final(self).displayed() == final(self).visible()
                &&& final(self).pending() == old(self).pending() + old(self).prompt_out()
                    + final(self).redraw_out(old(self).displayed())
            },
            !final(self).enabled() ==> final(self).pending() == old(self).pending()
                && final(self).displayed() == old(self).displayed(),
    {
        if self.prompt.is_some() {
            self.draw_prompt();
            self.draw_input();
            assert(self.out@ =~= old(self).pending() + old(self).prompt_out() + self.redraw_out(
                old(self).displayed(),
            ));
        }
    }

    /// Places the cursor.
    pub fn show_cursor(&mut self)
        requires
            old(self).wf(),
            old(self).enabled(),
        ensures
            final(self).wf(),
            final(self).same_state(&*old(self)),
            final(self).area_cells() == old(self).area_cells(),
            final(self).displayed() == old(self).displayed(),
            final(self).area_origin() == old(self).area_origin(),
            final(self).pending() == old(self).pending() + cursor_seq(
                old(self).area_origin().row as nat,
                (old(self).area_origin().col + old(self).column()) as nat,
            ),
    {
        self.canvas.set_cursor(Point::new(0, self.cursor));
        let o = self.canvas.send();
        push_str(&mut self.out, o.as_str());
    }

    /// Enables the editor with `prompt` in the region at `origin` of `cols`
    /// columns: the input starts empty, the completer gives the first hint, and
    /// the editor is drawn.
    pub fn enable<C: Completer>(&mut self, prompt: &str, completer: &mut C, origin: Point, cols: u32)
        requires
            old(self).wf(),
            prompt@.len() + 1 + MIN_COLS <= u32::MAX,
            origin.row + 1 < u32::MAX,
            origin.col + (if cols < MIN_COLS { MIN_COLS } else { cols }) < u32::MAX,
        ensures
            final(self).wf(),
            final(self).enabled(),
            final(self).prompt_text() == prompt@,
            final(self).colors() == old(self).colors(),
            final(self).region() == origin,
            final(self).areas() == (
                sizes_of(cols as int, prompt@.len() as int).0 as nat,
                sizes_of(cols as int, prompt@.len() as int).1 as nat,
            ),
            final(self).user().len() == 0,
            final(self).at() == 0,
            final(self).column() == 0,
            final(self).area_cells() == final(self).visible(),
            final(self).displayed() == final(self).visible(),
            old(self).pending().is_prefix_of(final(self).pending()),
    {
        self.set_input(None);
        self.set_sizes(Some(to_string(prompt)), origin, cols);
        let hint = completer.prepare();
        self.update_hint(hint);
        self.draw();
    }

    /// Disables the editor, clearing its input and hint; clearing the region on the
    /// terminal is the workspace's part.
    pub fn disable(&mut self)
        requires
            old(self).wf(),
        ensures
            final(self).wf(),
            !final(self).enabled(),
            final(self).colors() == old(self).colors(),
            final(self).region() == old(self).region(),
            final(self).areas() == (0nat, 0nat),
            final(self).user().len() == 0,
            final(self).hint_text() is None,
            final(self).at() == 0,
            final(self).column() == 0,
            final(self).pending() == old(self).pending(),
    {
        self.set_input(None);
        self.prompt_cols = 0;
        self.input_cols = 0;
        self.canvas = Canvas::zero();
        self.cursor = 0;
        self.prompt = None;
    }

    /// Resizes the editor to the region at `origin` of `cols` columns, keeping the
    /// cursor within the input area, and draws it.
    pub fn resize(&mut self, origin: Point, cols: u32)
        requires
            old(self).wf(),
            origin.row + 1 < u32::MAX,
            origin.col + (if cols < MIN_COLS { MIN_COLS } else { cols }) < u32::MAX,
            old(self).enabled() ==> old(self).prompt_text().len() + 1 + MIN_COLS <= u32::MAX,
        ensures
            final(self).wf(),
            final(self).enabled() == old(self).enabled(),
            final(self).prompt_text() == old(self).prompt_text(),
            final(self).colors() == old(self).colors(),
            final(self).region() == origin,
            final(self).user() == old(self).user(),
            final(self).hint_text() == old(self).hint_text(),
            final(self).at() == old(self).at(),
            final(self).areas() == (if old(self).enabled() {
                (
                    sizes_of(cols as int, old(self).prompt_text().len() as int).0 as nat,
                    sizes_of(cols as int, old(self).prompt_text().len() as int).1 as nat,
                )
            } else {
                (0nat, 0nat)
            }),
            final(self).enabled() ==> final(self).column() == clamp(
                old(self).column() as int,
                final(self).areas().1 as int,
            ) && final(self).displayed() == final(self).visible(),
            old(self).pending().is_prefix_of(final(self).pending()),
    {
        let prompt = match &self.prompt {
            Some(p) => Some(p.clone()),
            None => None,
        };
        self.set_sizes(prompt, origin, cols);
        self.draw();
    }

    /// Shows `hint` after the user's input and redraws the input area.
    pub fn set_hint(&mut self, hint: String)
        requires
            old(self).wf(),
            old(self).enabled(),
        ensures
            final(self).wf(),
            final(self).same_settings(&*old(self)),
            final(self).user() == old(self).user(),
            final(self).at() == old(self).at(),
            final(self).column() == old(self).column(),
            final(self).hint_text() == Some(hint@),
            final(self).area_cells() == final(self).visible(),
            final(self).displayed() == final(self).visible(),
            final(self).pending() == old(self).pending() + final(self).redraw_out(old(self).displayed()),
    {
        self.update_hint(Some(hint));
        self.draw_input();
    }

    /// Hands over the terminal output produced so far and clears it.
    pub fn send(&mut self) -> (out: String)
        requires
            old(self).wf(),
        ensures
            final(self).wf(),
            final(self).same_state(&*old(self)),
            final(self).area_cells() == old(self).area_cells(),
            final(self).displayed() == old(self).displayed(),
            out@ == old(self).pending(),
            final(self).pending().len() == 0,
    {
        let mut out = String::new();
        core::mem::swap(&mut out, &mut self.out);
        out
    }

    /// Draws the prompt, clipped to the prompt area.
    fn draw_prompt(&mut self)
        requires
            old(self).wf(),
        ensures
            final(self).wf(),
            final(self).same_state(&*old(self)),
            final(self).area_cells() == old(self).area_cells(),
            final(self).displayed() == old(self).displayed(),
            final(self).area_origin() == old(self).area_origin(),
            final(self).pending() == old(self).pending() + old(self).prompt_out(),
    {
        if self.prompt_cols > 0 {
            match &self.prompt {
                Some(prompt) => {
                    let cs = chars_of(prompt.as_str());
                    let n: usize = (self.prompt_cols - 1) as usize;
                    let mut shown: Vec<char> = Vec::new();
                    let mut i: usize = 0;
                    while i < n && i < cs.len()
                        invariant
                            i <= cs@.len(),
                            i <= n,
                            shown@ == cs@.take(i as int),
                        decreases cs@.len() - i,
                    {
                        shown.push(cs[i]);
                        i = i + 1;
                        assert(shown@ =~= cs@.take(i as int));
                    }
                    assert(shown@ =~= take_upto(cs@, n as int));
                    let text = string_of(&shown);
                    let mut w = Writer::new_at(self.origin);
                    w.set_color(self.prompt_color);
                    w.write_str(text.as_str());
                    w.write(' ');
                    let o = w.send();
                    push_str(&mut self.out, o.as_str());
                    assert(self.out@ =~= old(self).pending() + old(self).prompt_out());
                },
                None => {
                    assert(old(self).prompt_out() =~= Seq::<char>::empty());
                    assert(self.out@ =~= old(self).pending() + old(self).prompt_out());
                },
            }
        } else {
            assert(self.out@ =~= old(self).pending() + old(self).prompt_out());
        }
    }

    /// Draws the visible part of the input and the hint in the input area and
    /// places the cursor.
    fn draw_input(&mut self)
        requires
            old(self).wf(),
            old(self).enabled(),
        ensures
            final(self).wf(),
            final(self).same_state(&*old(self)),
            final(self).area_origin() == old(self).area_origin(),
            final(self).area_cells() == final(self).visible(),
            final(self).displayed() == final(self).visible(),
            final(self).pending() == old(self).pending() + final(self).redraw_out(old(self).displayed()),
    {
        let ghost vis = self.visible();
        proof {
            self.canvas.lemma_cells();
        }
        let cols = self.input_cols;
        let start = self.pos - self.cursor as usize;
        let n = self.input.len();
        let end = if n - start < cols as usize {
            n
        } else {
            start + cols as usize
        };
        let mut i = start;
        while i < end
            invariant
                self.wf(),
                self.enabled(),
                vis == self.visible(),
                cols == self.input_cols,
                start == self.pos - self.cursor,
                n == self.input@.len(),
                start <= i <= end <= n,
                end - start <= cols,
                end == n || end == start + cols,
                self.input@ == old(self).input@,
                self.len == old(self).len,
                self.pos == old(self).pos,
                self.cursor == old(self).cursor,
                self.hint == old(self).hint,
                self.prompt == old(self).prompt,
                self.origin == old(self).origin,
                self.prompt_cols == old(self).prompt_cols,
                self.out == old(self).out,
                self.input_color == old(self).input_color,
                self.hint_color == old(self).hint_color,
                self.prompt_color == old(self).prompt_color,
                self.canvas.org() == old(self).canvas.org(),
                self.canvas.front_cells() == old(self).canvas.front_cells(),
                self.canvas.back_cells().len() == cols,
                forall|k: int| 0 <= k < i - start ==> #[trigger] self.canvas.back_cells()[k] == vis[k],
            decreases end - i,
        {
            let color = if i < self.len {
                self.input_color
            } else {
                self.hint_color
            };
            let ghost before = self.canvas.back_cells();
            self.canvas.set(0, (i - start) as u32, self.input[i], color);
            proof {
                let col = (i - start) as int;
                assert(vis[col] == Cell { value: self.input@[i as int], color });
                assert forall|k: int| 0 <= k < i + 1 - start implies #[trigger] self.canvas.back_cells()[k] == vis[k] by {
                    if k < col {
                        assert(self.canvas.back_cells()[k] == before[k]);
                    }
                }
            }
            i = i + 1;
        }
        let used = (end - start) as u32;
        if used < cols {
            self.canvas.fill_from(0, used, ' ', self.input_color);
        }
        assert(self.canvas.back_cells() =~= vis);
        self.canvas.draw();
        self.canvas.set_cursor(Point::new(0, self.cursor));
        let o = self.canvas.send();
        push_str(&mut self.out, o.as_str());
    }

    /// Returns the user's input.
    pub fn value(&self) -> (s: String)
        requires
            self.wf(),
        ensures
            s@ == self.user(),
    {
        let mut v: Vec<char> = Vec::new();
        let mut i: usize = 0;
        while i < self.len
            invariant
                self.wf(),
                i <= self.len,
                v@ == self.input@.take(i as int),
            decreases self.len - i,
        {
            v.push(self.input[i]);
            i = i + 1;
            assert(v@ =~= self.input@.take(i as int));
        }
        string_of(&v)
    }
}

} // verus!

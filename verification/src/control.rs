//! The decisions of the controller that runs the editing experience.
//!
//! The controller reads keys and, outside a question, decides for each one what
//! happens: a character typed on its own is inserted, `C-g` cancels, scrolling and
//! button events act where they happen, and any other key extends the pending key
//! sequence, which runs the operation bound to it, waits for more keys where it is
//! a prefix of a binding, or is reported as undefined. Performing what is decided,
//! and timing the echo area, is the caller's part.

use crate::bind::Bindings;
use crate::input::{key_processed, Directive, InputEditor};
use crate::key::{joined, key_names, pretty, pretty_names, Key, Shift};
use crate::size::Point;
use crate::strings::{push_str, to_string};
use crate::user::{line_column_of, line_column_parse, number_of, number_parse, Completer};
use crate::nav::{dec_sat, Location};
use crate::op::Ask;
use crate::workspace::Placement;
use crate::strings::str_eq;
use vstd::prelude::*;

verus! {

/// The direction of a scrolling event.
#[derive(Copy, Clone, PartialEq, Eq, Structural, Debug)]
pub enum Scroll {
    Up,
    Down,
    Backward,
    Forward,
}

/// What the controller does with a key outside a question.
#[derive(PartialEq, Eq, Debug)]
pub enum Dispatch {
    /// Insert the character.
    InsertChar(char),
    /// Cancel: clear the echo, and the pending keys where there were any, or else
    /// the editor's mark (`false`).
    Cancel(bool),
    /// Track the scrolling event at the point, selecting text where shift is held.
    Scroll(Scroll, Point, bool),
    /// Move the focus to the point of a button press.
    Focus(Point),
    /// Absorb a button release.
    Absorb,
    /// Run the operation bound to the pending keys.
    Run(String),
    /// Show the pending keys, a prefix of some binding.
    Prefix,
    /// Report the keys, bound to nothing, as undefined.
    Undefined(Vec<Key>),
}

/// What the controller does with a key while a question is pending.
#[derive(PartialEq, Eq, Debug)]
pub enum Reply {
    /// Let the question respond to the input accepted, or to `None` where it was
    /// cancelled; the question ends.
    Respond(Option<String>),
    /// Track the scrolling event at the point, selecting text where shift is held;
    /// the question stays.
    Scroll(Scroll, Point, bool),
    /// Let the question react to the input as it now stands.
    React(String),
    /// Nothing to do.
    Ignore,
    /// End the question without a response.
    Dismiss,
}

/// The directive of the input editor that leads to the reply `r`.
pub open spec fn directive_of(r: Reply) -> Directive {
    match r {
        Reply::React(_) => Directive::Continue,
        Reply::Respond(Some(_)) => Directive::Accept,
        Reply::Dismiss => Directive::Cancel,
        _ => Directive::Ignore,
    }
}

/// What the controller does when no key arrives.
#[derive(Copy, Clone, PartialEq, Eq, Structural, Debug)]
pub enum Idle {
    /// The terminal size changed: (re)start the clock before resizing.
    Restart,
    /// The terminal size settled: resize the workspace and stop the clock.
    Resize,
    /// The terminal size changed a moment ago: keep waiting.
    Wait,
    /// Nothing else to do: tokenize the active editor.
    Tokenize,
}

/// Milliseconds to wait after a change of the terminal size before resizing.
pub const TERM_CHANGE_DELAY: u64 = 100;

/// What to do when no key arrives, given whether the terminal size changed just
/// now and the milliseconds since it last changed, if a resize is pending.
pub open spec fn idle_step(size_changed: bool, since_change: Option<u64>) -> Idle {
    if size_changed {
        Idle::Restart
    } else {
        match since_change {
            Some(ms) => if ms > TERM_CHANGE_DELAY { Idle::Resize } else { Idle::Wait },
            None => Idle::Tokenize,
        }
    }
}

/// Decides what to do when no key arrives: resizing is deferred until the
/// terminal size has been still for a short while, since a person resizing a
/// window produces a rapid series of changes.
pub fn idle(size_changed: bool, since_change: Option<u64>) -> (r: Idle)
    ensures
        r == idle_step(size_changed, since_change),
{
    if size_changed {
        Idle::Restart
    } else {
        match since_change {
            Some(ms) => if ms > TERM_CHANGE_DELAY { Idle::Resize } else { Idle::Wait },
            None => Idle::Tokenize,
        }
    }
}

/// Decides what to do with `key` while a question is pending, with the input
/// editor `input` that holds its answer and the question's `completer`: `C-g`
/// cancels, scrolling events act where they happen, and any other key goes to the
/// input editor, whose directive gives the reply.
pub fn dispatch_question<C: Completer>(input: &mut InputEditor, key: Key, completer: &mut C) -> (r: Reply)
    requires
        old(input).wf(),
        old(input).enabled(),
    ensures
        final(input).wf(),
        key == Key::Control(7) ==> r == Reply::Respond(None) && *final(input) == *old(input),
        key != Key::Control(7) && scroll_of(key) is Some ==> (scroll_of(key) matches Some(t) && r
            == Reply::Scroll(t.0, t.1, t.2)) && *final(input) == *old(input),
        key != Key::Control(7) && scroll_of(key) is None ==> {
            &&& (r is React || r is Ignore || r is Dismiss || (r matches Reply::Respond(Some(_))))
            &&& key_processed(*old(input), *final(input), key, directive_of(r), *old(completer))
            &&& (r matches Reply::React(v) ==> v@ == final(input).user())
            &&& (r matches Reply::Respond(Some(v)) ==> v@ == final(input).user())
        },
{
    if key == Key::Control(7) {
        return Reply::Respond(None);
    }
    match key {
        Key::ScrollUp(shift, row, col) => {
            return Reply::Scroll(Scroll::Up, Point { row, col }, shift == Shift::On);
        },
        Key::ScrollDown(shift, row, col) => {
            return Reply::Scroll(Scroll::Down, Point { row, col }, shift == Shift::On);
        },
        Key::ScrollLeft(shift, row, col) => {
            return Reply::Scroll(Scroll::Backward, Point { row, col }, shift == Shift::On);
        },
        Key::ScrollRight(shift, row, col) => {
            return Reply::Scroll(Scroll::Forward, Point { row, col }, shift == Shift::On);
        },
        _ => {},
    }
    match input.process_key(&key, completer) {
        Directive::Continue => Reply::React(input.value()),
        Directive::Ignore => Reply::Ignore,
        Directive::Accept => Reply::Respond(Some(input.value())),
        Directive::Cancel => Reply::Dismiss,
    }
}

/// The pending key sequence of the controller.
pub struct KeySequencer {
    key_seq: Vec<Key>,
}

/// The scrolling event `key`, if it is one.
pub open spec fn scroll_of(key: Key) -> Option<(Scroll, Point, bool)> {
    match key {
        Key::ScrollUp(shift, row, col) => Some((Scroll::Up, Point { row, col }, shift == Shift::On)),
        Key::ScrollDown(shift, row, col) => Some((Scroll::Down, Point { row, col }, shift == Shift::On)),
        Key::ScrollLeft(shift, row, col) => Some((Scroll::Backward, Point { row, col }, shift == Shift::On)),
        Key::ScrollRight(shift, row, col) => Some((Scroll::Forward, Point { row, col }, shift == Shift::On)),
        _ => None,
    }
}

/// The text that reports the key sequence `keys` as undefined.
pub open spec fn undefined_text(keys: Seq<Key>) -> Seq<char> {
    joined(pretty_names(key_names(keys)), " "@) + ": undefined key"@
}

impl KeySequencer {
    /// The keys pending.
    pub closed spec fn pending(&self) -> Seq<Key> {
        self.key_seq@
    }

    /// Creates a sequencer with no keys pending.
    pub fn new() -> (s: KeySequencer)
        ensures
            s.pending().len() == 0,
    {
        KeySequencer { key_seq: Vec::new() }
    }

    /// Returns the keys pending.
    pub fn keys(&self) -> (k: &Vec<Key>)
        ensures
            k@ == self.pending(),
    {
        &self.key_seq
    }

    /// Clears the pending keys, returning `true` if there were any.
    pub fn clear_keys(&mut self) -> (cleared: bool)
        ensures
            cleared == (old(self).pending().len() > 0),
            final(self).pending().len() == 0,
    {
        let cleared = self.key_seq.len() > 0;
        self.key_seq.clear();
        cleared
    }

    /// Decides what to do with `key` given the bindings `bindings`.
    pub fn dispatch(&mut self, key: Key, bindings: &Bindings) -> (d: Dispatch)
        requires
            bindings.wf(),
        ensures
            ({
                let keys = old(self).pending().push(key);
                if old(self).pending().len() == 0 && key is Char {
                    d == Dispatch::InsertChar(key->Char_0) && final(self).pending() == old(self).pending()
                } else if key == Key::Control(7) {
                    d == Dispatch::Cancel(old(self).pending().len() > 0) && final(self).pending().len() == 0
                } else if scroll_of(key) is Some {
                    (scroll_of(key) matches Some(t) && d == Dispatch::Scroll(t.0, t.1, t.2))
                        && final(self).pending() == old(self).pending()
                } else if key is ButtonPress {
                    d == Dispatch::Focus(Point { row: key->ButtonPress_0, col: key->ButtonPress_1 })
                        && final(self).pending() == old(self).pending()
                } else if key is ButtonRelease {
                    d == Dispatch::Absorb && final(self).pending() == old(self).pending()
                } else if bindings.map().contains_key(keys) {
                    d matches Dispatch::Run(op) && op@ == bindings.map()[keys] && final(self).pending().len() == 0
                } else if bindings.prefixes().contains(keys) {
                    d == Dispatch::Prefix && final(self).pending() == keys
                } else {
                    d matches Dispatch::Undefined(ks) && ks@ == keys && final(self).pending().len() == 0
                }
            }),
    {
        if self.key_seq.len() == 0 {
            if let Key::Char(c) = key {
                return Dispatch::InsertChar(c);
            }
        }
        if key == Key::Control(7) {
            let cleared = self.clear_keys();
            return Dispatch::Cancel(cleared);
        }
        match key {
            Key::ScrollUp(shift, row, col) => {
                return Dispatch::Scroll(Scroll::Up, Point { row, col }, shift == Shift::On);
            },
            Key::ScrollDown(shift, row, col) => {
                return Dispatch::Scroll(Scroll::Down, Point { row, col }, shift == Shift::On);
            },
            Key::ScrollLeft(shift, row, col) => {
                return Dispatch::Scroll(Scroll::Backward, Point { row, col }, shift == Shift::On);
            },
            Key::ScrollRight(shift, row, col) => {
                return Dispatch::Scroll(Scroll::Forward, Point { row, col }, shift == Shift::On);
            },
            Key::ButtonPress(row, col) => {
                return Dispatch::Focus(Point { row, col });
            },
            Key::ButtonRelease(_, _) => {
                return Dispatch::Absorb;
            },
            _ => {},
        }
        self.key_seq.push(key);
        match bindings.find(&self.key_seq) {
            Some(op) => {
                let name = op.clone();
                self.key_seq.clear();
                Dispatch::Run(name)
            },
            None => {
                if bindings.is_prefix(&self.key_seq) {
                    Dispatch::Prefix
                } else {
                    let mut keys = Vec::new();
                    core::mem::swap(&mut keys, &mut self.key_seq);
                    Dispatch::Undefined(keys)
                }
            },
        }
    }
}

/// Returns the text that reports the key sequence `keys` as undefined.
pub fn undefined_keys_text(keys: &Vec<Key>) -> (s: String)
    ensures
        s@ == undefined_text(keys@),
{
    let mut s = pretty(keys.as_slice());
    push_str(&mut s, ": undefined key");
    s
}

/// The greeting: the name and version of the program, and the keys that show
/// help, where some are bound to it.
pub open spec fn welcome_text(name: Seq<char>, version: Seq<char>, help_keys: Option<Seq<Key>>) -> Seq<char> {
    match help_keys {
        Some(keys) => name + " "@ + version + " | type "@ + joined(pretty_names(key_names(keys)), " "@)
            + " for help, C-q to quit"@,
        None => name + " "@ + version + " | type C-q to quit"@,
    }
}

/// Returns the greeting for the program `name` at `version`, naming the first of
/// `help_keys`, the key sequences bound to help, where there is one.
pub fn welcome(name: &str, version: &str, help_keys: &Vec<Vec<Key>>) -> (s: String)
    ensures
        s@ == welcome_text(
            name@,
            version@,
            if help_keys@.len() > 0 {
                Some(help_keys@[0]@)
            } else {
                None
            },
        ),
{
    let mut s = to_string(name);
    push_str(&mut s, " ");
    push_str(&mut s, version);
    if help_keys.len() > 0 {
        push_str(&mut s, " | type ");
        let keys = pretty(help_keys[0].as_slice());
        push_str(&mut s, keys.as_str());
        push_str(&mut s, " for help, C-q to quit");
    } else {
        push_str(&mut s, " | type C-q to quit");
    }
    s
}

/// What the controller does with the input accepted for a question.
pub enum Answer {
    /// Quit, saving the editors with unsaved changes first where `save` holds.
    Quit { save: bool },
    /// Move the cursor of the active editor to the location.
    GotoLine(Location),
    /// Insert the character.
    InsertChar(char),
    /// Report that the input is no code point of a character.
    InvalidCodePoint,
    /// Search for `term`, a regular expression where `regex` holds, matching case
    /// where `case` holds.
    Search { term: String, regex: bool, case: bool },
    /// Open the file at `path`, in the active view or in a new view placed as given.
    Open { path: String, place: Option<Placement> },
    /// Save the active editor to its file.
    Save,
    /// Save the active editor to the file at the path.
    SaveAs(String),
    /// Kill the active editor, saving it first where `save` holds; with the ids of
    /// the editor and of the one to switch to, where given.
    Kill { save: bool, target: Option<(u32, u32)> },
    /// Switch to the editor `id`, in the active view or in a new view placed as given.
    Select { id: u32, place: Option<Placement> },
    /// Nothing to do.
    Nothing,
}

/// The first id paired with `name` in `names`.
pub open spec fn named_id(names: Seq<(Seq<char>, u32)>, name: Seq<char>) -> Option<u32>
    decreases names.len(),
{
    if names.len() == 0 {
        None
    } else if names[0].0 == name {
        Some(names[0].1)
    } else {
        named_id(names.drop_first(), name)
    }
}

/// The names of editors paired with their ids, as text.
pub open spec fn name_views(names: Seq<(String, u32)>) -> Seq<(Seq<char>, u32)> {
    names.map_values(|p: (String, u32)| (p.0@, p.1))
}

/// The answer `a` is what the input `value` accepted for the question `ask` calls
/// for, where `names` pairs the editors offered for selection with their ids.
pub open spec fn answers(a: Answer, ask: Ask, value: Seq<char>, names: Seq<(Seq<char>, u32)>) -> bool {
    match ask {
        Ask::Quit => a == Answer::Quit { save: value == "y"@ },
        Ask::GotoLine => match line_column_of(value) {
            Some((l, c)) => a == Answer::GotoLine(
                Location { line: dec_sat(l as nat), col: dec_sat(match c { Some(x) => x as nat, None => 1 }) },
            ),
            None => a is Nothing,
        },
        Ask::InsertUnicode(radix) => match number_of(value, radix as nat) {
            Some(n) => if vstd::utf8::is_scalar(n) { a == Answer::InsertChar(n as char) } else { a is InvalidCodePoint },
            None => a is InvalidCodePoint,
        },
        Ask::Search { regex, case } => a matches Answer::Search { term, regex: r, case: c } && term@ == value && r
            == regex && c == case,
        Ask::Open(place) => a matches Answer::Open { path, place: p } && path@ == value && p == place,
        Ask::Save => if value == "y"@ { a is Save } else { a is Nothing },
        Ask::SaveAs => a matches Answer::SaveAs(path) && path@ == value,
        Ask::Kill(target) => a == Answer::Kill { save: value == "y"@, target },
        Ask::Select(_, place) => match named_id(names, value) {
            Some(id) => a == Answer::Select { id, place },
            None => a is Nothing,
        },
    }
}

/// Decides what to do with the input `value` accepted for the question `ask`, where
/// `names` pairs the editors offered for selection with their ids.
pub fn answer(ask: &Ask, value: &str, names: &Vec<(String, u32)>) -> (a: Answer)
    requires
        *ask matches Ask::InsertUnicode(radix) ==> 2 <= radix <= 36,
    ensures
        answers(a, *ask, value@, name_views(names@)),
{
    proof {
        reveal_strlit("y");
    }
    match ask {
        Ask::Quit => Answer::Quit { save: str_eq(value, "y") },
        Ask::GotoLine => match line_column_parse(value) {
            Some((l, c)) => {
                let line = if l > 0 { l - 1 } else { 0 };
                let cv = match c { Some(x) => x, None => 1 };
                let col = if cv > 0 { cv - 1 } else { 0 };
                Answer::GotoLine(Location { line, col })
            },
            None => Answer::Nothing,
        },
        Ask::InsertUnicode(radix) => match number_parse(value, *radix) {
            Some(n) => match crate::key::char_from_u32(n) {
                Some(c) => Answer::InsertChar(c),
                None => Answer::InvalidCodePoint,
            },
            None => Answer::InvalidCodePoint,
        },
        Ask::Search { regex, case } => Answer::Search { term: to_string(value), regex: *regex, case: *case },
        Ask::Open(place) => Answer::Open { path: to_string(value), place: *place },
        Ask::Save => if str_eq(value, "y") { Answer::Save } else { Answer::Nothing },
        Ask::SaveAs => Answer::SaveAs(to_string(value)),
        Ask::Kill(target) => Answer::Kill { save: str_eq(value, "y"), target: *target },
        Ask::Select(_, place) => {
            let mut i: usize = 0;
            assert(name_views(names@).skip(0) =~= name_views(names@));
            while i < names.len()
                invariant
                    i <= names@.len(),
                    *ask matches Ask::Select(_, p) && p == *place,
                    named_id(name_views(names@), value@) == named_id(name_views(names@).skip(i as int), value@),
                decreases names@.len() - i,
            {
                proof {
                    let nv = name_views(names@);
                    assert(nv.skip(i as int).drop_first() =~= nv.skip(i + 1));
                    assert(nv.skip(i as int)[0] == nv[i as int]);
                }
                if str_eq(names[i].0.as_str(), value) {
                    assert(name_views(names@)[i as int] == (names@[i as int].0@, names@[i as int].1));
                    assert(name_views(names@).skip(i as int)[0] == name_views(names@)[i as int]);
                    assert(named_id(name_views(names@).skip(i as int), value@) == Some(names@[i as int].1));
                    return Answer::Select { id: names[i].1, place: *place };
                }
                i = i + 1;
            }
            Answer::Nothing
        },
    }
}

} // verus!

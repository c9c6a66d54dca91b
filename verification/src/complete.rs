//! Completion of input by events and the actions that answer them.

use crate::strings::{str_eq, to_string};
use vstd::prelude::*;

verus! {

/// What happens to the input that a completer follows.
pub enum CompleterEvent {
    /// The input begins.
    Initialize,
    /// The input was edited and now reads as given.
    Edit(String),
    /// A suggestion is asked for the input.
    Suggest(String),
    /// The input is offered as final.
    Finalize(String),
}

/// What a completer answers an event with.
pub enum CompleterAction {
    /// Show the hint.
    Hint(String),
    /// Replace the input, showing the hint where one is given.
    Replace(String, Option<String>),
    /// Accept the value.
    Accept(String),
}

/// `r` is the hint `h`.
pub open spec fn is_hint(r: Option<CompleterAction>, h: Seq<char>) -> bool {
    r matches Some(CompleterAction::Hint(x)) && x@ == h
}

impl CompleterAction {
    /// The action that shows `hint`.
    pub fn as_hint(hint: &str) -> (r: Option<CompleterAction>)
        ensures
            is_hint(r, hint@),
    {
        Some(CompleterAction::Hint(to_string(hint)))
    }

    /// The action that replaces the input with `input`, showing `hint` where given.
    pub fn as_replace(input: &str, hint: Option<&str>) -> (r: Option<CompleterAction>)
        ensures
            r matches Some(CompleterAction::Replace(i, h)) && i@ == input@ && match hint {
                Some(x) => h matches Some(y) && y@ == x@,
                None => h is None,
            },
    {
        let h = match hint {
            Some(x) => Some(to_string(x)),
            None => None,
        };
        Some(CompleterAction::Replace(to_string(input), h))
    }

    /// The action that accepts `input`.
    pub fn as_accept(input: String) -> (r: Option<CompleterAction>)
        ensures
            r matches Some(CompleterAction::Accept(a)) && a == input,
    {
        Some(CompleterAction::Accept(input))
    }
}

/// The hint of the yes-or-no completer.
pub open spec fn yes_no_hint() -> Seq<char> {
    " (y)es, (n)o"@
}

/// The hint of the yes, no or all completer.
pub open spec fn yes_no_all_hint() -> Seq<char> {
    " (y)es, (n)o, (a)ll"@
}

/// The answer, in lower case, that `v` gives to a question of yes or no, or of
/// yes, no or all where `all` holds, if it is one.
pub open spec fn answer_of(v: Seq<char>, all: bool) -> Option<Seq<char>> {
    if v == "y"@ || v == "Y"@ {
        Some("y"@)
    } else if v == "n"@ || v == "N"@ {
        Some("n"@)
    } else if all && (v == "a"@ || v == "A"@) {
        Some("a"@)
    } else {
        None
    }
}

/// `r` is what a completer that accepts the answers of [`answer_of`] with `all`,
/// showing `hint`, answers `event`: the hint at the start, for a suggestion, for an
/// edit that is no answer and not empty, and for a final input that is no answer;
/// nothing for other edits; and the answer, in lower case, for a final input that
/// is one.
pub open spec fn answers_basic(event: CompleterEvent, all: bool, hint: Seq<char>, r: Option<CompleterAction>) -> bool {
    match event {
        CompleterEvent::Initialize => is_hint(r, hint),
        CompleterEvent::Edit(input) => if answer_of(input@, all) is Some || input@.len() == 0 {
            r is None
        } else {
            is_hint(r, hint)
        },
        CompleterEvent::Suggest(_) => is_hint(r, hint),
        CompleterEvent::Finalize(input) => match answer_of(input@, all) {
            Some(a) => r matches Some(CompleterAction::Accept(x)) && x@ == a,
            None => is_hint(r, hint),
        },
    }
}

/// Returns the answer, in lower case, that `v` gives, if it is one.
fn answer_in(v: &str, all: bool) -> (r: Option<String>)
    ensures
        match answer_of(v@, all) {
            Some(a) => r matches Some(x) && x@ == a,
            None => r is None,
        },
{
    if str_eq(v, "y") || str_eq(v, "Y") {
        Some(to_string("y"))
    } else if str_eq(v, "n") || str_eq(v, "N") {
        Some(to_string("n"))
    } else if all && (str_eq(v, "a") || str_eq(v, "A")) {
        Some(to_string("a"))
    } else {
        None
    }
}

/// Answers `event` for a question of yes or no, or of yes, no or all where `all`
/// holds, showing `hint`.
fn basic_completer(event: CompleterEvent, all: bool, hint: &str) -> (r: Option<CompleterAction>)
    ensures
        answers_basic(event, all, hint@, r),
{
    proof {
        reveal_strlit("");
    }
    match event {
        CompleterEvent::Initialize => CompleterAction::as_hint(hint),
        CompleterEvent::Edit(input) => {
            assert(input@.len() == 0 ==> input@ =~= ""@);
            if answer_in(input.as_str(), all).is_some() || str_eq(input.as_str(), "") {
                None
            } else {
                CompleterAction::as_hint(hint)
            }
        },
        CompleterEvent::Suggest(_) => CompleterAction::as_hint(hint),
        CompleterEvent::Finalize(input) => match answer_in(input.as_str(), all) {
            Some(a) => CompleterAction::as_accept(a),
            None => CompleterAction::as_hint(hint),
        },
    }
}

/// Answers `event` for a question of yes or no.
pub fn yes_no(event: CompleterEvent) -> (r: Option<CompleterAction>)
    ensures
        answers_basic(event, false, yes_no_hint(), r),
{
    basic_completer(event, false, " (y)es, (n)o")
}

/// Answers `event` for a question of yes, no or all.
pub fn yes_no_all(event: CompleterEvent) -> (r: Option<CompleterAction>)
    ensures
        answers_basic(event, true, yes_no_all_hint(), r),
{
    basic_completer(event, true, " (y)es, (n)o, (a)ll")
}

/// Answers `event` for the name of a file: with nothing, whatever the event.
pub fn file(event: CompleterEvent) -> (r: Option<CompleterAction>)
    ensures
        r is None,
{
    match event {
        CompleterEvent::Initialize => None,
        CompleterEvent::Edit(_) => None,
        CompleterEvent::Suggest(_) => None,
        CompleterEvent::Finalize(_) => None,
    }
}

} // verus!

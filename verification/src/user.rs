//! Completion assistants for soliciting input from a user.

use crate::num::parse_unsigned;
use crate::num::{parse_unsigned_chars, parse_unsigned_str};
use crate::strings::{
    chars_of, contains_chars, decimal, has_infix, string_views, nonempty_trimmed, push_decimal, push_str, split_on, split_trimmed,
    str_eq, str_is_empty, to_string, trim, trim_str,
};
use vstd::prelude::*;

verus! {

/// What std's `str::to_lowercase` gives for `s`: each character mapped by the
/// Unicode lowercase tables.
pub uninterp spec fn lowercase(s: Seq<char>) -> Seq<char>;

/// Returns the lowercase form of `s` (std's `str::to_lowercase`).
///
/// The result is named [`lowercase`]; the Unicode tables that decide it are left
/// unsaid.
#[verifier::external_body]
fn str_lowercase(s: &str) -> (r: String)
    ensures
        r@ == lowercase(s@),
{
    s.to_lowercase()
}

/// Captures the directional notion of suggestions.
pub enum Suggest {
    Forward,
    Backward,
}

/// The text of an optional string.
pub open spec fn text_of(o: Option<String>) -> Option<Seq<char>> {
    match o {
        Some(s) => Some(s@),
        None => None,
    }
}

/// An interface for a completion assistant when soliciting input from a user.
///
/// What a completer answers to an evaluation or a suggestion is a function of its
/// state and the input, named by [`Completer::evaluation`] and
/// [`Completer::suggestion`].
pub trait Completer {
    /// The hint that evaluating `value` gives in this state; by default none.
    closed spec fn evaluation(&self, value: Seq<char>) -> Option<Seq<char>> {
        None
    }

    /// The replacement and the hint that a suggestion for `value` in the direction
    /// `suggest` gives in this state; by default neither.
    closed spec fn suggestion(&self, value: Seq<char>, suggest: Suggest) -> (Option<Seq<char>>, Option<Seq<char>>) {
        (None, None)
    }

    /// Initializes the completer and returns an optional hint; by default none.
    fn prepare(&mut self) -> Option<String> {
        None
    }

    /// Evaluates the input `value` in its current form and returns an optional
    /// hint.
    fn evaluate(&mut self, value: &str) -> (r: Option<String>)
        ensures
            text_of(r) == old(self).evaluation(value@),
    ;

    /// Makes a suggestion based on `value` and the direction `suggest`, returning
    /// an optional replacement value and an optional hint.
    fn suggest(&mut self, value: &str, suggest: Suggest) -> (r: (Option<String>, Option<String>))
        ensures
            (text_of(r.0), text_of(r.1)) == old(self).suggestion(value@, suggest),
    ;

    /// Accepts `value`, possibly altered, or rejects it with `None`; by default
    /// `value` is accepted as it is.
    fn accept(&mut self, value: &str) -> Option<String> {
        Some(to_string(value))
    }
}

/// A completer that offers no assistance.
pub struct NullCompleter;

impl Completer for NullCompleter {
    open spec fn evaluation(&self, value: Seq<char>) -> Option<Seq<char>> {
        None
    }

    open spec fn suggestion(&self, value: Seq<char>, suggest: Suggest) -> (Option<Seq<char>>, Option<Seq<char>>) {
        (None, None)
    }

    fn evaluate(&mut self, value: &str) -> (r: Option<String>) {
        None
    }

    fn suggest(&mut self, value: &str, suggest: Suggest) -> (r: (Option<String>, Option<String>)) {
        (None, None)
    }
}

/// Returns a completer that offers no assistance.
pub fn null_completer() -> NullCompleter {
    NullCompleter
}

// ---------------------------------------------------------------------------
// Yes/no answers.
// ---------------------------------------------------------------------------

/// The answer that the lowercase input `lowered` stands for: `y`, `n`, and with
/// `all`, `a`.
pub open spec fn answer_of(lowered: Seq<char>, all: bool) -> Option<Seq<char>> {
    if lowered == "y"@ {
        Some("y"@)
    } else if lowered == "n"@ {
        Some("n"@)
    } else if all && lowered == "a"@ {
        Some("a"@)
    } else {
        None
    }
}

/// The answer that the input `value` stands for, ignoring case and surrounding
/// whitespace.
pub open spec fn answer(value: Seq<char>, all: bool) -> Option<Seq<char>> {
    answer_of(lowercase(trim(value)), all)
}

/// Returns the answer that the lowercase input `lowered` stands for.
pub fn answer_choice(lowered: &str, all: bool) -> (r: Option<&'static str>)
    ensures
        match r {
            Some(a) => answer_of(lowered@, all) == Some(a@),
            None => answer_of(lowered@, all) is None,
        },
{
    if str_eq(lowered, "y") {
        Some("y")
    } else if str_eq(lowered, "n") {
        Some("n")
    } else if all && str_eq(lowered, "a") {
        Some("a")
    } else {
        None
    }
}

/// Returns the answer that `value` stands for.
fn parse_answer(value: &str, all: bool) -> (r: Option<String>)
    ensures
        match r {
            Some(a) => answer(value@, all) == Some(a@),
            None => answer(value@, all) is None,
        },
{
    let trimmed = trim_str(value);
    let lowered = str_lowercase(trimmed.as_str());
    match answer_choice(lowered.as_str(), all) {
        Some(a) => Some(to_string(a)),
        None => None,
    }
}

/// The hint of a yes/no question, or with `all`, of a yes/no/all question.
pub open spec fn answer_hint(all: bool) -> Seq<char> {
    if all {
        " (y)es, (n)o, (a)ll"@
    } else {
        " (y)es, (n)o"@
    }
}

fn make_answer_hint(all: bool) -> (h: String)
    ensures
        h@ == answer_hint(all),
{
    if all {
        to_string(" (y)es, (n)o, (a)ll")
    } else {
        to_string(" (y)es, (n)o")
    }
}

/// The hint after evaluating `value`: none once it is an answer.
fn evaluate_answer(value: &str, all: bool) -> (r: Option<String>)
    ensures
        match r {
            Some(h) => answer(value@, all) is None && h@ == answer_hint(all),
            None => answer(value@, all) is Some,
        },
{
    match parse_answer(value, all) {
        Some(_) => None,
        None => Some(make_answer_hint(all)),
    }
}

/// A completer that accepts `y` and `n` in either case, always yielding them in
/// lowercase.
pub struct YesNoCompleter;

impl Completer for YesNoCompleter {
    open spec fn evaluation(&self, value: Seq<char>) -> Option<Seq<char>> {
        if answer(value, false) is Some { None } else { Some(answer_hint(false)) }
    }

    open spec fn suggestion(&self, value: Seq<char>, suggest: Suggest) -> (Option<Seq<char>>, Option<Seq<char>>) {
        (None, Some(answer_hint(false)))
    }

    fn prepare(&mut self) -> (r: Option<String>)
        ensures
            r matches Some(h) && h@ == answer_hint(false),
    {
        Some(make_answer_hint(false))
    }

    fn evaluate(&mut self, value: &str) -> (r: Option<String>)
        ensures
            match r {
                Some(h) => answer(value@, false) is None && h@ == answer_hint(false),
                None => answer(value@, false) is Some,
            },
    {
        evaluate_answer(value, false)
    }

    fn suggest(&mut self, value: &str, suggest: Suggest) -> (r: (Option<String>, Option<String>))
        ensures
            r.0 is None,
            r.1 matches Some(h) && h@ == answer_hint(false),
    {
        (None, Some(make_answer_hint(false)))
    }

    fn accept(&mut self, value: &str) -> (r: Option<String>)
        ensures
            match r {
                Some(a) => answer(value@, false) == Some(a@),
                None => answer(value@, false) is None,
            },
    {
        parse_answer(value, false)
    }
}

/// Returns a completer that accepts `y`es and `n`o.
pub fn yes_no_completer() -> YesNoCompleter {
    YesNoCompleter
}

/// A completer that accepts `y`, `n` and `a` in either case, always yielding them
/// in lowercase.
pub struct YesNoAllCompleter;

impl Completer for YesNoAllCompleter {
    open spec fn evaluation(&self, value: Seq<char>) -> Option<Seq<char>> {
        if answer(value, true) is Some { None } else { Some(answer_hint(true)) }
    }

    open spec fn suggestion(&self, value: Seq<char>, suggest: Suggest) -> (Option<Seq<char>>, Option<Seq<char>>) {
        (None, Some(answer_hint(true)))
    }

    fn prepare(&mut self) -> (r: Option<String>)
        ensures
            r matches Some(h) && h@ == answer_hint(true),
    {
        Some(make_answer_hint(true))
    }

    fn evaluate(&mut self, value: &str) -> (r: Option<String>)
        ensures
            match r {
                Some(h) => answer(value@, true) is None && h@ == answer_hint(true),
                None => answer(value@, true) is Some,
            },
    {
        evaluate_answer(value, true)
    }

    fn suggest(&mut self, value: &str, suggest: Suggest) -> (r: (Option<String>, Option<String>))
        ensures
            r.0 is None,
            r.1 matches Some(h) && h@ == answer_hint(true),
    {
        (None, Some(make_answer_hint(true)))
    }

    fn accept(&mut self, value: &str) -> (r: Option<String>)
        ensures
            match r {
                Some(a) => answer(value@, true) == Some(a@),
                None => answer(value@, true) is None,
            },
    {
        parse_answer(value, true)
    }
}

/// Returns a completer that accepts `y`es, `n`o and `a`ll.
pub fn yes_no_all_completer() -> YesNoAllCompleter {
    YesNoAllCompleter
}

// ---------------------------------------------------------------------------
// Numbers and locations.
// ---------------------------------------------------------------------------

/// The number that `value` denotes in `radix`, as std's `u32::from_str_radix`
/// reads it.
pub open spec fn number_of(value: Seq<char>, radix: nat) -> Option<u32> {
    match parse_unsigned(value, radix, u32::MAX as nat) {
        Some(n) => Some(n as u32),
        None => None,
    }
}

/// Parses `value` as a number in `radix` within the range of `u32`, or `None`
/// where it is not well formed.
pub fn number_parse(value: &str, radix: u32) -> (r: Option<u32>)
    requires
        2 <= radix <= 36,
    ensures
        r == number_of(value@, radix as nat),
{
    match parse_unsigned_str(value, radix, u32::MAX as u64) {
        Some(n) => Some(n as u32),
        None => None,
    }
}

/// The hint for input that cannot be accepted.
pub open spec fn invalid_hint() -> Seq<char> {
    " (invalid)"@
}

/// A completer that accepts numbers in a radix within the range of `u32`.
pub struct NumberCompleter {
    radix: u32,
}

impl NumberCompleter {
    #[verifier::type_invariant]
    spec fn radix_ok(self) -> bool {
        2 <= self.radix <= 36
    }

    /// The radix of the numbers accepted.
    pub closed spec fn radix_of(self) -> nat {
        self.radix as nat
    }

    /// Creates a completer for numbers in `radix`.
    pub fn new(radix: u32) -> (c: NumberCompleter)
        requires
            2 <= radix <= 36,
        ensures
            c.radix_of() == radix,
    {
        NumberCompleter { radix }
    }
}

impl Completer for NumberCompleter {
    open spec fn evaluation(&self, value: Seq<char>) -> Option<Seq<char>> {
        if trim(value).len() == 0 || number_of(trim(value), self.radix_of()) is Some {
            None
        } else {
            Some(invalid_hint())
        }
    }

    open spec fn suggestion(&self, value: Seq<char>, suggest: Suggest) -> (Option<Seq<char>>, Option<Seq<char>>) {
        (None, None)
    }

    fn suggest(&mut self, value: &str, suggest: Suggest) -> (r: (Option<String>, Option<String>)) {
        (None, None)
    }

    fn evaluate(&mut self, value: &str) -> (r: Option<String>)
        ensures
            match r {
                Some(h) => trim(value@).len() > 0 && number_of(trim(value@), old(self).radix_of()) is None
                    && h@ == invalid_hint(),
                None => trim(value@).len() == 0 || number_of(trim(value@), old(self).radix_of()) is Some,
            },
            final(self).radix_of() == old(self).radix_of(),
    {
        proof {
            use_type_invariant(&*self);
        }
        let v = trim_str(value);
        if str_is_empty(v.as_str()) || number_parse(v.as_str(), self.radix).is_some() {
            None
        } else {
            Some(to_string(" (invalid)"))
        }
    }

    fn accept(&mut self, value: &str) -> (r: Option<String>)
        ensures
            match r {
                Some(a) => number_of(trim(value@), old(self).radix_of()) is Some && a@ == trim(value@),
                None => number_of(trim(value@), old(self).radix_of()) is None,
            },
            final(self).radix_of() == old(self).radix_of(),
    {
        proof {
            use_type_invariant(&*self);
        }
        let v = trim_str(value);
        if number_parse(v.as_str(), self.radix).is_some() {
            Some(v)
        } else {
            None
        }
    }
}

/// Returns a completer that accepts numbers in `radix` within the range of `u32`.
pub fn number_completer(radix: u32) -> (c: NumberCompleter)
    requires
        2 <= radix <= 36,
    ensures
        c.radix_of() == radix,
{
    NumberCompleter::new(radix)
}

/// The line number and optional column number that `value` gives: one or two
/// comma-separated decimal numbers, with whitespace around each and empty fields
/// ignored.
pub open spec fn line_column_of(value: Seq<char>) -> Option<(u32, Option<u32>)> {
    let fs = nonempty_trimmed(split_on(value, ',', ','));
    if fs.len() == 1 {
        match number_of(fs[0], 10) {
            Some(l) => Some((l, None)),
            None => None,
        }
    } else if fs.len() == 2 {
        match (number_of(fs[0], 10), number_of(fs[1], 10)) {
            (Some(l), Some(c)) => Some((l, Some(c))),
            _ => None,
        }
    } else {
        None
    }
}

/// Returns the number in the decimal digits `cs`, if it fits in `u32`.
fn decimal_u32(cs: &Vec<char>) -> (r: Option<u32>)
    ensures
        r == number_of(cs@, 10),
{
    match parse_unsigned_chars(cs, 10, u32::MAX as u64) {
        Some(n) => Some(n as u32),
        None => None,
    }
}

/// Parses `value` as a line number followed by an optional column number.
pub fn line_column_parse(value: &str) -> (r: Option<(u32, Option<u32>)>)
    ensures
        r == line_column_of(value@),
{
    let fs = split_trimmed(value, ',', ',');
    if fs.len() == 1 {
        match decimal_u32(&fs[0]) {
            Some(l) => Some((l, None)),
            None => None,
        }
    } else if fs.len() == 2 {
        match (decimal_u32(&fs[0]), decimal_u32(&fs[1])) {
            (Some(l), Some(c)) => Some((l, Some(c))),
            _ => None,
        }
    } else {
        None
    }
}

/// A completer that accepts a line number followed by an optional column number.
pub struct LineColumnCompleter;

impl Completer for LineColumnCompleter {
    open spec fn evaluation(&self, value: Seq<char>) -> Option<Seq<char>> {
        if trim(value).len() == 0 || line_column_of(trim(value)) is Some {
            None
        } else {
            Some(invalid_hint())
        }
    }

    open spec fn suggestion(&self, value: Seq<char>, suggest: Suggest) -> (Option<Seq<char>>, Option<Seq<char>>) {
        (None, None)
    }

    fn suggest(&mut self, value: &str, suggest: Suggest) -> (r: (Option<String>, Option<String>)) {
        (None, None)
    }

    fn evaluate(&mut self, value: &str) -> (r: Option<String>)
        ensures
            match r {
                Some(h) => trim(value@).len() > 0 && line_column_of(trim(value@)) is None
                    && h@ == invalid_hint(),
                None => trim(value@).len() == 0 || line_column_of(trim(value@)) is Some,
            },
    {
        let v = trim_str(value);
        if str_is_empty(v.as_str()) || line_column_parse(v.as_str()).is_some() {
            None
        } else {
            Some(to_string(" (invalid)"))
        }
    }

    fn accept(&mut self, value: &str) -> (r: Option<String>)
        ensures
            match r {
                Some(a) => line_column_of(trim(value@)) is Some && a@ == trim(value@),
                None => line_column_of(trim(value@)) is None,
            },
    {
        let v = trim_str(value);
        if line_column_parse(v.as_str()).is_some() {
            Some(v)
        } else {
            None
        }
    }
}

/// Returns a completer that accepts a line number followed by an optional column
/// number.
pub fn line_column_completer() -> LineColumnCompleter {
    LineColumnCompleter
}

// ---------------------------------------------------------------------------
// Lists.
// ---------------------------------------------------------------------------

/// The indices of `items` whose lowercase form holds the lowercase form of
/// `value`, in order.
pub open spec fn matches_of(items: Seq<Seq<char>>, value: Seq<char>) -> Seq<usize>
    decreases items.len(),
{
    if items.len() == 0 {
        Seq::empty()
    } else {
        let rest = matches_of(items.drop_last(), value);
        if has_infix(lowercase(items.last()), lowercase(value)) {
            rest.push((items.len() - 1) as usize)
        } else {
            rest
        }
    }
}

proof fn lemma_matches_bound(items: Seq<Seq<char>>, value: Seq<char>)
    ensures
        matches_of(items, value).len() <= items.len(),
        forall|k: int|
            0 <= k < matches_of(items, value).len() ==> #[trigger] matches_of(items, value)[k]
                < items.len(),
    decreases items.len(),
{
    if items.len() > 0 {
        lemma_matches_bound(items.drop_last(), value);
    }
}

/// The hint naming a single item.
pub open spec fn item_hint(item: Seq<char>) -> Seq<char> {
    " ("@ + item + ")"@
}

/// The hint giving a count: ` (<n> <label>)`.
pub open spec fn count_hint(n: nat, label: Seq<char>) -> Seq<char> {
    " ("@ + decimal(n) + " "@ + label + ")"@
}

/// The hint giving the place of a suggestion among the matches.
pub open spec fn place_hint(index: nat, count: nat) -> Seq<char> {
    " ("@ + decimal(index + 1) + " of "@ + decimal(count) + " matches)"@
}

/// The index of the next suggestion among `count` matches after the one at
/// `last`, if any, in the direction `suggest`, wrapping around.
pub open spec fn next_index(last: Option<usize>, count: nat, suggest: Suggest) -> nat {
    match last {
        Some(i) => match suggest {
            Suggest::Forward => if i + 1 == count { 0 } else { (i + 1) as nat },
            Suggest::Backward => if i == 0 { (count - 1) as nat } else { (i - 1) as nat },
        },
        None => 0,
    }
}

/// A completer that accepts a finite collection of strings and offers the ones
/// that hold the input, ignoring case.
pub struct ListCompleter {
    accepted: Vec<String>,
    matches: Vec<usize>,
    last_match: Option<usize>,
}

impl ListCompleter {
    #[verifier::type_invariant]
    spec fn inv(self) -> bool {
        &&& forall|k: int| 0 <= k < self.matches@.len() ==> #[trigger] self.matches@[k] < self.accepted@.len()
        &&& (self.last_match matches Some(i) ==> i < self.matches@.len())
    }

    /// The strings accepted.
    pub closed spec fn items(self) -> Seq<Seq<char>> {
        string_views(self.accepted@)
    }

    /// The indices of the items that match the most recent input.
    pub closed spec fn found(self) -> Seq<usize> {
        self.matches@
    }

    /// The index among the matches of the most recent suggestion.
    pub closed spec fn last(self) -> Option<usize> {
        self.last_match
    }

    /// Creates a completer over `accepted`.
    pub fn new(accepted: Vec<String>) -> (c: ListCompleter)
        ensures
            c.items() == string_views(accepted@),
            c.found().len() == 0,
            c.last() is None,
    {
        ListCompleter { accepted, matches: Vec::new(), last_match: None }
    }

    /// Finds the items that match `value` and forgets the last suggestion.
    fn refresh(&mut self, value: &str) -> (n: usize)
        ensures
            final(self).items() == old(self).items(),
            final(self).found() == matches_of(old(self).items(), value@),
            final(self).last() is None,
            n == final(self).found().len(),
    {
        proof {
            use_type_invariant(&*self);
        }
        let ghost items = self.items();
        let lowered = str_lowercase(value);
        let needle = chars_of(lowered.as_str());
        let mut found: Vec<usize> = Vec::new();
        let mut i: usize = 0;
        while i < self.accepted.len()
            invariant
                items == string_views(self.accepted@),
                i <= self.accepted@.len(),
                needle@ == lowercase(value@),
                found@ == matches_of(items.take(i as int), value@),
            decreases self.accepted@.len() - i,
        {
            let item = str_lowercase(self.accepted[i].as_str());
            let hay = chars_of(item.as_str());
            assert(items.take(i + 1).drop_last() =~= items.take(i as int));
            assert(items.take(i + 1).last() == self.accepted@[i as int]@);
            if contains_chars(&hay, &needle) {
                found.push(i);
            }
            i = i + 1;
        }
        assert(items.take(self.accepted@.len() as int) =~= items);
        proof {
            lemma_matches_bound(items, value@);
        }
        self.last_match = None;
        self.matches = found;
        self.matches.len()
    }

    /// Returns the item of the match at `index`.
    fn match_for(&self, index: usize) -> (s: &String)
        requires
            index < self.found().len(),
        ensures
            s@ == self.items()[self.found()[index as int] as int],
    {
        proof {
            use_type_invariant(self);
        }
        &self.accepted[self.matches[index]]
    }
}

/// Returns the hint that names `item`.
fn make_item_hint(item: &str) -> (h: String)
    ensures
        h@ == item_hint(item@),
{
    let mut h = to_string(" (");
    push_str(&mut h, item);
    push_str(&mut h, ")");
    h
}

/// Returns the hint that gives the count `n` with `label`.
fn make_count_hint(n: usize, label: &str) -> (h: String)
    ensures
        h@ == count_hint(n as nat, label@),
{
    let mut h = to_string(" (");
    push_decimal(&mut h, n as u64);
    push_str(&mut h, " ");
    push_str(&mut h, label);
    push_str(&mut h, ")");
    h
}

impl Completer for ListCompleter {
    open spec fn evaluation(&self, value: Seq<char>) -> Option<Seq<char>> {
        let found = matches_of(self.items(), value);
        Some(
            if found.len() == 0 {
                " (no matches)"@
            } else if found.len() == 1 {
                item_hint(self.items()[found[0] as int])
            } else {
                count_hint(found.len(), "matches"@)
            },
        )
    }

    open spec fn suggestion(&self, value: Seq<char>, suggest: Suggest) -> (Option<Seq<char>>, Option<Seq<char>>) {
        let count = self.found().len();
        if count == 0 {
            (None, Some(" (no matches)"@))
        } else if count == 1 {
            (Some(self.items()[self.found()[0] as int]), None)
        } else {
            let index = next_index(self.last(), count, suggest);
            (Some(self.items()[self.found()[index as int] as int]), Some(place_hint(index, count)))
        }
    }

    fn prepare(&mut self) -> (r: Option<String>)
        ensures
            final(self).items() == old(self).items(),
            final(self).found() == matches_of(old(self).items(), ""@),
            final(self).last() is None,
            r matches Some(h) && h@ == (if final(self).found().len() == 1 {
                item_hint(final(self).items()[final(self).found()[0] as int])
            } else {
                count_hint(final(self).found().len(), "available"@)
            }),
    {
        let count = self.refresh("");
        let hint = if count == 1 {
            make_item_hint(self.match_for(0).as_str())
        } else {
            make_count_hint(count, "available")
        };
        Some(hint)
    }

    fn evaluate(&mut self, value: &str) -> (r: Option<String>)
        ensures
            final(self).items() == old(self).items(),
            final(self).found() == matches_of(old(self).items(), value@),
            final(self).last() is None,
            r matches Some(h) && h@ == (if final(self).found().len() == 0 {
                " (no matches)"@
            } else if final(self).found().len() == 1 {
                item_hint(final(self).items()[final(self).found()[0] as int])
            } else {
                count_hint(final(self).found().len(), "matches"@)
            }),
    {
        let count = self.refresh(value);
        let hint = if count == 0 {
            to_string(" (no matches)")
        } else if count == 1 {
            make_item_hint(self.match_for(0).as_str())
        } else {
            make_count_hint(count, "matches")
        };
        Some(hint)
    }

    fn suggest(&mut self, value: &str, suggest: Suggest) -> (r: (Option<String>, Option<String>))
        ensures
            final(self).items() == old(self).items(),
            final(self).found() == old(self).found(),
            ({
                let count = old(self).found().len();
                if count == 0 {
                    &&& r.0 is None
                    &&& r.1 matches Some(h) && h@ == " (no matches)"@
                    &&& final(self).last() == old(self).last()
                } else if count == 1 {
                    &&& r.0 matches Some(v) && v@ == old(self).items()[old(self).found()[0] as int]
                    &&& r.1 is None
                    &&& final(self).last() == old(self).last()
                } else {
                    let index = next_index(old(self).last(), count, suggest);
                    &&& final(self).last() == Some(index as usize)
                    &&& r.0 matches Some(v) && v@ == old(self).items()[old(self).found()[index as int] as int]
                    &&& r.1 matches Some(h) && h@ == place_hint(index, count)
                }
            }),
    {
        proof {
            use_type_invariant(&*self);
        }
        let count = self.matches.len();
        if count == 0 {
            (None, Some(to_string(" (no matches)")))
        } else if count == 1 {
            let replace = self.match_for(0).clone();
            (Some(replace), None)
        } else {
            let index: usize = match self.last_match {
                Some(i) => match suggest {
                    Suggest::Forward => if i + 1 == count { 0 } else { i + 1 },
                    Suggest::Backward => if i == 0 { count - 1 } else { i - 1 },
                },
                None => 0,
            };
            self.last_match = Some(index);
            let replace = self.match_for(index).clone();
            let mut hint = to_string(" (");
            push_decimal(&mut hint, (index + 1) as u64);
            push_str(&mut hint, " of ");
            push_decimal(&mut hint, count as u64);
            push_str(&mut hint, " matches)");
            (Some(replace), Some(hint))
        }
    }

    fn accept(&mut self, value: &str) -> (r: Option<String>)
        ensures
            final(self).items() == old(self).items(),
            final(self).found() == old(self).found(),
            final(self).last() == old(self).last(),
            match r {
                Some(a) => old(self).items().contains(value@) && a@ == value@,
                None => !old(self).items().contains(value@),
            },
    {
        let ghost items = self.items();
        let mut i: usize = 0;
        while i < self.accepted.len()
            invariant
                items == string_views(self.accepted@),
                i <= self.accepted@.len(),
                forall|k: int| 0 <= k < i ==> items[k] != value@,
            decreases self.accepted@.len() - i,
        {
            if str_eq(self.accepted[i].as_str(), value) {
                assert(items[i as int] == value@);
                return Some(to_string(value));
            }
            i = i + 1;
        }
        None
    }
}

/// Returns a completer that accepts the strings `accepted` and offers the ones
/// that hold the input.
pub fn list_completer(accepted: Vec<String>) -> (c: ListCompleter)
    ensures
        c.items() == string_views(accepted@),
        c.found().len() == 0,
        c.last() is None,
{
    ListCompleter::new(accepted)
}

// ---------------------------------------------------------------------------
// Files.
// ---------------------------------------------------------------------------

/// The paths among `comps` that start with `prefix`, ignoring case, in order.
pub open spec fn paths_with_prefix(comps: Seq<Seq<char>>, prefix: Seq<char>) -> Seq<Seq<char>>
    decreases comps.len(),
{
    if comps.len() == 0 {
        Seq::empty()
    } else {
        let rest = paths_with_prefix(comps.drop_last(), prefix);
        if lowercase(prefix).is_prefix_of(lowercase(comps.last())) {
            rest.push(comps.last())
        } else {
            rest
        }
    }
}

/// Returns `true` if `p` starts with `q`.
fn starts_with_chars(p: &Vec<char>, q: &Vec<char>) -> (b: bool)
    ensures
        b == q@.is_prefix_of(p@),
{
    if q.len() > p.len() {
        return false;
    }
    let mut i: usize = 0;
    while i < q.len()
        invariant
            q@.len() <= p@.len(),
            i <= q@.len(),
            forall|k: int| 0 <= k < i ==> p@[k] == q@[k],
        decreases q@.len() - i,
    {
        if p[i] != q[i] {
            return false;
        }
        i = i + 1;
    }
    true
}

/// Returns the paths among `comps` that start with `prefix`, ignoring case.
pub fn file_matches(comps: &Vec<String>, prefix: &str) -> (r: Vec<String>)
    ensures
        string_views(r@) == paths_with_prefix(string_views(comps@), prefix@),
{
    let ghost cv = string_views(comps@);
    let lowered = str_lowercase(prefix);
    let pre = chars_of(lowered.as_str());
    let mut out: Vec<String> = Vec::new();
    let mut i: usize = 0;
    while i < comps.len()
        invariant
            cv == string_views(comps@),
            i <= comps@.len(),
            pre@ == lowercase(prefix@),
            string_views(out@) == paths_with_prefix(cv.take(i as int), prefix@),
        decreases comps@.len() - i,
    {
        let item = str_lowercase(comps[i].as_str());
        let hay = chars_of(item.as_str());
        assert(cv.take(i + 1).drop_last() =~= cv.take(i as int));
        assert(cv.take(i + 1).last() == comps@[i as int]@);
        if starts_with_chars(&hay, &pre) {
            let ghost before = string_views(out@);
            out.push(comps[i].clone());
            assert(string_views(out@) =~= before.push(comps@[i as int]@));
        }
        i = i + 1;
    }
    assert(cv.take(comps@.len() as int) =~= cv);
    out
}

/// The text that replaces the input for the completion `path` under `dir`:
/// `path` without `dir` and a following `/`, or `path` itself where it is not
/// under `dir`.
pub open spec fn relative_to(dir: Seq<char>, path: Seq<char>) -> Seq<char> {
    if dir.is_prefix_of(path) {
        let suffix = path.skip(dir.len() as int);
        if suffix.len() > 0 && suffix[0] == '/' {
            suffix.skip(1)
        } else {
            suffix
        }
    } else {
        path
    }
}

/// Returns the text that replaces the input for the completion `path` under
/// `dir`.
pub fn replace_match(dir: &str, path: &str) -> (r: String)
    ensures
        r@ == relative_to(dir@, path@),
{
    let d = chars_of(dir);
    let p = chars_of(path);
    if starts_with_chars(&p, &d) {
        let mut start = d.len();
        if start < p.len() && p[start] == '/' {
            start = start + 1;
        }
        let mut out = String::new();
        let mut i = start;
        while i < p.len()
            invariant
                start <= i <= p@.len(),
                out@ == p@.subrange(start as int, i as int),
            decreases p@.len() - i,
        {
            crate::strings::push_char(&mut out, p[i]);
            i = i + 1;
            assert(out@ =~= p@.subrange(start as int, i as int));
        }
        assert(p@.skip(d@.len() as int).skip(1) =~= p@.subrange(start as int, p@.len() as int)
            || p@.skip(d@.len() as int) =~= p@.subrange(start as int, p@.len() as int));
        out
    } else {
        to_string(path)
    }
}

/// The part of `path` after its first `n` characters, if it has more.
pub open spec fn suffix_after(path: Seq<char>, n: nat) -> Option<Seq<char>> {
    if n < path.len() {
        Some(path.skip(n as int))
    } else {
        None
    }
}

/// Returns the part of `path` after as many characters as `prefix` has, if there
/// is any.
pub fn match_suffix(path: &str, prefix: &str) -> (r: Option<String>)
    ensures
        match r {
            Some(s) => suffix_after(path@, prefix@.len()) == Some(s@),
            None => suffix_after(path@, prefix@.len()) is None,
        },
{
    let p = chars_of(path);
    let n = chars_of(prefix).len();
    if n < p.len() {
        let mut out = String::new();
        let mut i = n;
        while i < p.len()
            invariant
                n <= i <= p@.len(),
                out@ == p@.subrange(n as int, i as int),
            decreases p@.len() - i,
        {
            crate::strings::push_char(&mut out, p[i]);
            i = i + 1;
            assert(out@ =~= p@.subrange(n as int, i as int));
        }
        assert(out@ =~= p@.skip(n as int));
        Some(out)
    } else {
        None
    }
}

/// The mark that follows a file completion that is a directory.
pub open spec fn dir_mark(is_dir: bool) -> Seq<char> {
    if is_dir {
        "/"@
    } else {
        ""@
    }
}

/// Returns what a suggestion in the direction `suggest` gives among the file
/// completions `matches` of the input, where `dirs` tells which are directories
/// and `last` is the index of the previous suggestion: the replacement of the
/// input, relative to `dir`, the hint, and the index to remember.
pub fn file_suggestion(
    dir: &str,
    matches: &Vec<String>,
    dirs: &Vec<bool>,
    last: Option<usize>,
    suggest: Suggest,
) -> (r: (Option<String>, Option<String>, Option<usize>))
    requires
        dirs@.len() == matches@.len(),
        last matches Some(i) ==> i < matches@.len(),
    ensures
        ({
            let count = matches@.len();
            if count == 0 {
                &&& r.0 is None
                &&& r.1 matches Some(h) && h@ == " (no matches)"@
                &&& r.2 == last
            } else if count == 1 {
                &&& r.0 matches Some(v) && v@ == relative_to(dir@, matches@[0]@)
                &&& if dirs@[0] {
                    r.1 matches Some(h) && h@ == "/"@
                } else {
                    r.1 is None
                }
                &&& r.2 == last
            } else {
                let index = next_index(last, count, suggest);
                &&& r.2 == Some(index as usize)
                &&& r.0 matches Some(v) && v@ == relative_to(dir@, matches@[index as int]@)
                &&& r.1 matches Some(h) && h@ == dir_mark(dirs@[index as int]) + place_hint(index, count)
            }
        }),
{
    proof {
        reveal_strlit("");
    }
    let count = matches.len();
    if count == 0 {
        (None, Some(to_string(" (no matches)")), last)
    } else if count == 1 {
        let replace = replace_match(dir, matches[0].as_str());
        let hint = if dirs[0] {
            Some(to_string("/"))
        } else {
            None
        };
        (Some(replace), hint, last)
    } else {
        let index: usize = match last {
            Some(i) => match suggest {
                Suggest::Forward => if i + 1 == count { 0 } else { i + 1 },
                Suggest::Backward => if i == 0 { count - 1 } else { i - 1 },
            },
            None => 0,
        };
        let replace = replace_match(dir, matches[index].as_str());
        let mut hint = if dirs[index] {
            to_string("/")
        } else {
            to_string("")
        };
        push_str(&mut hint, " (");
        push_decimal(&mut hint, (index + 1) as u64);
        push_str(&mut hint, " of ");
        push_decimal(&mut hint, count as u64);
        push_str(&mut hint, " matches)");
        (Some(replace), Some(hint), Some(index))
    }
}

} // verus!

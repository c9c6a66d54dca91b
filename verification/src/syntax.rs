//! Syntax definitions: collections of regular expressions that match the tokens of
//! a file format, each with its color.
//!
//! All token expressions of a syntax are joined into one multi-line expression in
//! which each token is a named capture group, `_1` for the first token, `_2` for
//! the second and so on; id `0` stands for the absence of a token.

use crate::color::Color;
use crate::error::{Error, Result};
use crate::strings::{decimal, push_decimal, push_str, string_views, to_string};
use regex_lite::Regex;
use vstd::prelude::*;

verus! {

/// `source` builds as a regular expression of regex-lite, with case-insensitive and
/// multi-line matching as given (`RegexBuilder::build`).
pub uninterp spec fn regex_builds(source: Seq<char>, case_insensitive: bool, multi_line: bool) -> bool;

/// The message of regex-lite's error for `source` built with the flags given.
pub uninterp spec fn regex_build_error(source: Seq<char>, case_insensitive: bool, multi_line: bool) -> Seq<char>;

/// What the multi-line expression `pattern` captures in `text`: one entry for
/// each successive non-overlapping match, holding for each of the group `names`
/// the byte range it matched, if it took part in the match.
pub uninterp spec fn captures_of(pattern: Seq<char>, text: Seq<char>, names: Seq<Seq<char>>) -> Seq<
    Seq<Option<(usize, usize)>>,
>;

/// The captures of the syntax's expression in `text`, for each token's group
/// (regex-lite's `Regex::captures_iter`, with `Captures::name` for each group).
///
/// The syntax's expression was compiled from [`Syntax::source`], so the result is
/// named by [`captures_of`] over it; each capture holds one entry per token, as
/// the body builds it. Which text each group matches is left unsaid.
#[verifier::external_body]
fn token_captures(syntax: &Syntax, text: &str) -> (r: Vec<Vec<Option<(usize, usize)>>>)
    ensures
        capture_views(r@) == captures_of(syntax.source(), text@, syntax.group_names()),
        forall|i: int| 0 <= i < r@.len() ==> (#[trigger] r@[i])@.len() == syntax.group_names().len(),
{
    syntax.re.captures_iter(text).map(
        |cap| syntax.tokens.iter().map(|t| cap.name(&t.name).map(|m| (m.start(), m.end()))).collect(),
    ).collect()
}

/// The captures as values.
pub open spec fn capture_views(v: Seq<Vec<Option<(usize, usize)>>>) -> Seq<Seq<Option<(usize, usize)>>> {
    v.map_values(|c: Vec<Option<(usize, usize)>>| c@)
}

/// The expression that never matches, which stands in for the tokens of a syntax
/// that has none.
pub open spec fn empty_regex() -> Seq<char> {
    "^$a"@
}

/// The name of the capture group of the token with `id`.
pub open spec fn group_name(id: nat) -> Seq<char> {
    "_"@ + decimal(id)
}

/// `pattern` as the capture group named `name`.
pub open spec fn group_of(name: Seq<char>, pattern: Seq<char>) -> Seq<char> {
    "(?<"@ + name + ">"@ + pattern + ")"@
}

/// The token expressions `patterns` joined by `|`, each as the group named after
/// its id.
pub open spec fn joined(patterns: Seq<Seq<char>>) -> Seq<char>
    decreases patterns.len(),
{
    if patterns.len() == 0 {
        Seq::empty()
    } else if patterns.len() == 1 {
        group_of(group_name(1), patterns[0])
    } else {
        joined(patterns.drop_last()) + "|"@ + group_of(group_name(patterns.len()), patterns.last())
    }
}

/// The token definitions that a syntax made of `tokens` uses: `tokens`, or the
/// expression that never matches where there are none.
pub open spec fn effective(tokens: Seq<(Seq<char>, Color)>) -> Seq<(Seq<char>, Color)> {
    if tokens.len() > 0 {
        tokens
    } else {
        seq![(empty_regex(), Color { fg: 0, bg: 0 })]
    }
}

/// The expressions of token definitions.
pub open spec fn patterns_of(tokens: Seq<(Seq<char>, Color)>) -> Seq<Seq<char>> {
    tokens.map_values(|t: (Seq<char>, Color)| t.0)
}

/// The token definitions as values.
pub open spec fn token_defs(tokens: Seq<(String, Color)>) -> Seq<(Seq<char>, Color)> {
    tokens.map_values(|t: (String, Color)| (t.0@, t.1))
}

/// A token: a regular expression with the id that names its capture group, and a
/// color.
#[derive(Clone)]
pub struct Token {
    pub id: usize,
    pub name: String,
    pub pattern: String,
    pub color: Color,
}

/// A syntax configuration.
#[derive(Clone)]
pub struct Syntax {
    /// The canonical name of the syntax.
    pub name: String,
    /// The expression that joins all token expressions.
    re: Regex,
    /// The token definitions, in the order in which `re` joins them.
    tokens: Vec<Token>,
}

impl Syntax {
    /// The token definitions as (expression, color) pairs.
    pub closed spec fn token_list(&self) -> Seq<(Seq<char>, Color)> {
        self.tokens@.map_values(|t: Token| (t.pattern@, t.color))
    }

    /// The syntax's token ids and group names match their places: the token at
    /// `i` has id `i + 1` and the group named after it.
    pub closed spec fn wf(&self) -> bool {
        &&& self.tokens@.len() > 0
        &&& forall|i: int|
            0 <= i < self.tokens@.len() ==> {
                &&& (#[trigger] self.tokens@[i]).id == i + 1
                &&& self.tokens@[i].name@ == group_name((i + 1) as nat)
            }
    }

    /// The canonical name of the syntax.
    pub closed spec fn name_view(&self) -> Seq<char> {
        self.name@
    }

    /// The group names of the tokens, in order.
    pub closed spec fn group_names(&self) -> Seq<Seq<char>> {
        self.tokens@.map_values(|t: Token| t.name@)
    }

    /// The expression from which the syntax's expression was compiled.
    pub open spec fn source(&self) -> Seq<char> {
        joined(patterns_of(self.token_list()))
    }

    /// The token definitions.
    pub fn tokens(&self) -> (v: &Vec<Token>)
        ensures
            v@.map_values(|t: Token| (t.pattern@, t.color)) == self.token_list(),
            self.wf() ==> forall|i: int|
                0 <= i < v@.len() ==> (#[trigger] v@[i]).id == i + 1 && v@[i].name@ == group_name(
                    (i + 1) as nat,
                ),
    {
        &self.tokens
    }

    /// Creates a syntax called `name` whose tokens are `tokens`, pairs of a
    /// regular expression and a color. A syntax without tokens gets one whose
    /// expression never matches.
    ///
    /// Fails with an invalid-regex error if the joined expression does not
    /// compile.
    pub fn new(name: String, tokens: Vec<(String, Color)>) -> (r: Result<Syntax>)
        ensures
            ({
                let defs = effective(token_defs(tokens@));
                let src = joined(patterns_of(defs));
                match r {
                    Ok(s) => regex_builds(src, false, true) && s.wf() && s.name_view() == name@ && s.token_list() == defs,
                    Err(e) => !regex_builds(src, false, true) && (e matches Error::InvalidRegex { pattern: p, cause: c }
                        && p@ == src && c@ == regex_build_error(src, false, true)),
                }
            }),
    {
        let ghost defs = effective(token_defs(tokens@));
        let mut list: Vec<Token> = Vec::new();
        let mut pattern = String::new();
        if tokens.len() == 0 {
            let t = Token { id: 1, name: to_string("_1"), pattern: to_string("^$a"), color: Color::zero() };
            proof {
                reveal_strlit("_1");
                reveal_strlit("_");
                assert(decimal(1) =~= seq!['1']);
                assert(t.name@ =~= group_name(1));
            }
            push_str(&mut pattern, "(?<");
            push_str(&mut pattern, t.name.as_str());
            push_str(&mut pattern, ">");
            push_str(&mut pattern, t.pattern.as_str());
            push_str(&mut pattern, ")");
            list.push(t);
            assert(list@.map_values(|t: Token| (t.pattern@, t.color)) =~= defs);
            assert(patterns_of(defs) =~= seq![empty_regex()]);
        } else {
            let mut i: usize = 0;
            while i < tokens.len()
                invariant
                    defs == token_defs(tokens@),
                    i <= tokens@.len(),
                    list@.len() == i,
                    forall|k: int|
                        0 <= k < i ==> {
                            &&& (#[trigger] list@[k]).id == k + 1
                            &&& list@[k].name@ == group_name((k + 1) as nat)
                        },
                    list@.map_values(|t: Token| (t.pattern@, t.color)) == defs.take(i as int),
                    pattern@ == joined(patterns_of(defs.take(i as int))),
                decreases tokens@.len() - i,
            {
                let id = i + 1;
                let mut name = to_string("_");
                push_decimal(&mut name, id as u64);
                let t = Token { id, name, pattern: tokens[i].0.clone(), color: tokens[i].1 };
                proof {
                    reveal_strlit("_");
                    assert(t.name@ =~= group_name(id as nat));
                }
                if i > 0 {
                    push_str(&mut pattern, "|");
                }
                push_str(&mut pattern, "(?<");
                push_str(&mut pattern, t.name.as_str());
                push_str(&mut pattern, ">");
                push_str(&mut pattern, t.pattern.as_str());
                push_str(&mut pattern, ")");
                let ghost before = list@;
                list.push(t);
                proof {
                    assert(defs.take(i + 1).drop_last() =~= defs.take(i as int));
                    assert(list@.map_values(|t: Token| (t.pattern@, t.color)) =~= defs.take(i + 1));
                    assert(patterns_of(defs.take(i + 1)).drop_last() =~= patterns_of(defs.take(i as int)));
                    assert(patterns_of(defs.take(i + 1)).last() == tokens@[i as int].0@);
                    assert(patterns_of(defs.take(i + 1)).len() == i + 1);
                    if i == 0 {
                        assert(pattern@ =~= joined(patterns_of(defs.take(i + 1))));
                    } else {
                        assert(pattern@ =~= joined(patterns_of(defs.take(i + 1))));
                    }
                }
                i = i + 1;
            }
            assert(defs.take(tokens@.len() as int) =~= defs);
        }
        match crate::search::build_regex(pattern.as_str(), false, true) {
            Ok(re) => Ok(Syntax { name, re, tokens: list }),
            Err(m) => Err(Error::invalid_regex(pattern.as_str(), m.as_str())),
        }
    }

    /// Returns the color of the token with `id`, or `None` for id `0`, which
    /// stands for the absence of a token.
    pub fn color(&self, id: usize) -> (c: Option<Color>)
        requires
            id <= self.token_list().len(),
        ensures
            c == (if id == 0 {
                None::<Color>
            } else {
                Some(self.token_list()[id - 1].1)
            }),
    {
        if id == 0 {
            None
        } else {
            Some(self.tokens[id - 1].color)
        }
    }

    /// Returns the captures of the syntax's expression in `text`.
    pub fn captures(&self, text: &str) -> (r: Vec<Vec<Option<(usize, usize)>>>)
        ensures
            capture_views(r@) == captures_of(self.source(), text@, self.group_names()),
            forall|i: int| 0 <= i < r@.len() ==> (#[trigger] r@[i])@.len() == self.token_list().len(),
    {
        token_captures(self, text)
    }
}

/// The token that a capture `cap` holds, with the byte range it matched: the
/// first token whose group took part in the match.
pub open spec fn first_group(cap: Seq<Option<(usize, usize)>>) -> Option<(int, (usize, usize))>
    decreases cap.len(),
{
    if cap.len() == 0 {
        None
    } else {
        match first_group(cap.drop_last()) {
            Some(found) => Some(found),
            None => match cap.last() {
                Some(range) => Some(((cap.len() - 1) as int, range)),
                None => None,
            },
        }
    }
}

/// Returns the id of the token that the capture `cap` holds, with the byte range
/// it matched, or `None` where no token's group took part.
pub fn lookup(cap: &Vec<Option<(usize, usize)>>) -> (r: Option<(usize, (usize, usize))>)
    ensures
        match first_group(cap@) {
            Some((k, range)) => r == Some(((k + 1) as usize, range)),
            None => r is None,
        },
        r matches Some((id, _)) ==> 1 <= id <= cap@.len(),
{
    let mut i: usize = 0;
    while i < cap.len()
        invariant
            i <= cap@.len(),
            first_group(cap@.take(i as int)) is None,
        decreases cap@.len() - i,
    {
        assert(cap@.take(i + 1).drop_last() =~= cap@.take(i as int));
        match cap[i] {
            Some(range) => {
                proof {
                    lemma_first_group_prefix(cap@, i + 1);
                }
                return Some((i + 1, range));
            },
            None => {},
        }
        i = i + 1;
    }
    assert(cap@.take(cap@.len() as int) =~= cap@);
    None
}

/// The first group of a sequence is that of any prefix that has one.
proof fn lemma_first_group_prefix(cap: Seq<Option<(usize, usize)>>, n: int)
    requires
        0 <= n <= cap.len(),
        first_group(cap.take(n)) is Some,
    ensures
        first_group(cap) == first_group(cap.take(n)),
    decreases cap.len() - n,
{
    if n < cap.len() {
        assert(cap.take(n + 1).drop_last() =~= cap.take(n));
        lemma_first_group_prefix(cap, n + 1);
    } else {
        assert(cap.take(n) =~= cap);
    }
}

/// The value paired with `key` in the first entry of `entries` that has it.
pub open spec fn first_value(entries: Seq<(Seq<char>, Seq<char>)>, key: Seq<char>) -> Option<Seq<char>>
    decreases entries.len(),
{
    if entries.len() == 0 {
        None
    } else if entries[0].0 == key {
        Some(entries[0].1)
    } else {
        first_value(entries.drop_first(), key)
    }
}

/// The pairs of strings as values.
pub open spec fn pair_views(v: Seq<(String, String)>) -> Seq<(Seq<char>, Seq<char>)> {
    v.map_values(|p: (String, String)| (p.0@, p.1@))
}

/// A registry of syntax configurations, found by file extension.
pub struct Registry {
    /// The syntaxes, no two with the same name.
    syntaxes: Vec<Syntax>,
    /// File extensions paired with syntax names, no extension twice.
    ext_map: Vec<(String, String)>,
}

impl Registry {
    /// The names of the syntaxes.
    pub closed spec fn names(&self) -> Seq<Seq<char>> {
        self.syntaxes@.map_values(|s: Syntax| s.name_view())
    }

    /// File extensions paired with syntax names.
    pub closed spec fn extensions(&self) -> Seq<(Seq<char>, Seq<char>)> {
        pair_views(self.ext_map@)
    }

    /// Returns the names of the syntaxes.
    pub fn syntax_names(&self) -> (v: Vec<String>)
        ensures
            string_views(v@) == self.names(),
    {
        let mut v: Vec<String> = Vec::new();
        let mut i: usize = 0;
        while i < self.syntaxes.len()
            invariant
                i <= self.syntaxes@.len(),
                v@.len() == i,
                string_views(v@) == self.names().take(i as int),
            decreases self.syntaxes@.len() - i,
        {
            let ghost before = v@;
            v.push(to_string(self.syntaxes[i].name.as_str()));
            assert forall|j: int| 0 <= j < i + 1 implies #[trigger] string_views(v@)[j] == self.names().take(i + 1)[j] by {
                if j < i {
                    assert(v@[j] == before[j]);
                    assert(string_views(before)[j] == self.names().take(i as int)[j]);
                }
            }
            assert(string_views(v@) =~= self.names().take(i + 1));
            i = i + 1;
        }
        assert(self.names().take(self.syntaxes@.len() as int) =~= self.names());
        v
    }

    /// Creates an empty registry.
    pub fn new() -> (r: Registry)
        ensures
            r.names().len() == 0,
            r.extensions().len() == 0,
    {
        Registry { syntaxes: Vec::new(), ext_map: Vec::new() }
    }

    /// Adds `syntax`, replacing one of the same name, and maps each of `exts` to
    /// its name, replacing earlier mappings of the same extension.
    pub fn add(&mut self, syntax: Syntax, exts: &Vec<String>)
        ensures
            forall|e: Seq<char>| string_views(exts@).contains(e) ==> first_value(final(self).extensions(), e)
                == Some(syntax.name_view()),
            forall|e: Seq<char>| !string_views(exts@).contains(e) ==> first_value(final(self).extensions(), e)
                == first_value(old(self).extensions(), e),
            final(self).names().contains(syntax.name_view()),
    {
        let ghost name = syntax.name_view();
        let mut i: usize = 0;
        while i < exts.len()
            invariant
                name == syntax.name_view(),
                i <= exts@.len(),
                forall|e: Seq<char>| string_views(exts@).take(i as int).contains(e) ==> first_value(self.extensions(), e)
                    == Some(name),
                forall|e: Seq<char>| !string_views(exts@).take(i as int).contains(e) ==> first_value(self.extensions(), e)
                    == first_value(old(self).extensions(), e),
            decreases exts@.len() - i,
        {
            let ghost before = self.extensions();
            let ext = exts[i].clone();
            let ghost e0 = ext@;
            self.map_ext(ext, to_string(syntax.name.as_str()));
            proof {
                let sv = string_views(exts@);
                assert(sv.take(i + 1) =~= sv.take(i as int).push(e0));
                assert(sv[i as int] == e0);
                assert forall|e: Seq<char>| sv.take(i + 1).contains(e) implies first_value(self.extensions(), e) == Some(name) by {
                    if e != e0 {
                        let t = sv.take(i + 1);
                        let j = choose|j: int| 0 <= j < t.len() && t[j] == e;
                        assert(sv.take(i as int)[j] == e);
                    }
                }
                assert forall|e: Seq<char>| !sv.take(i + 1).contains(e) implies first_value(self.extensions(), e)
                    == first_value(old(self).extensions(), e) by {
                    assert(e != e0) by {
                        if e == e0 {
                            assert(sv.take(i + 1)[i as int] == e0);
                        }
                    }
                    if sv.take(i as int).contains(e) {
                        let t = sv.take(i as int);
                        let j = choose|j: int| 0 <= j < t.len() && t[j] == e;
                        assert(sv.take(i + 1)[j] == e);
                    }
                }
            }
            i = i + 1;
        }
        assert(string_views(exts@).take(exts@.len() as int) =~= string_views(exts@));
        let ghost mapped = self.extensions();
        let mut k: usize = 0;
        while k < self.syntaxes.len()
            invariant
                k <= self.syntaxes@.len(),
                forall|j: int| 0 <= j < k ==> self.names()[j] != name,
                name == syntax.name_view(),
                self.extensions() == mapped,
                forall|e: Seq<char>| string_views(exts@).contains(e) ==> first_value(mapped, e) == Some(name),
                forall|e: Seq<char>| !string_views(exts@).contains(e) ==> first_value(mapped, e)
                    == first_value(old(self).extensions(), e),
            decreases self.syntaxes@.len() - k,
        {
            if crate::strings::str_eq(self.syntaxes[k].name.as_str(), syntax.name.as_str()) {
                let ghost before = self.names();
                let _ = self.syntaxes.remove(k);
                self.syntaxes.insert(k, syntax);
                assert(self.names()[k as int] == name);
                return;
            }
            assert(self.names()[k as int] != name);
            k = k + 1;
        }
        self.syntaxes.push(syntax);
        assert(self.names()[self.names().len() - 1] == name);
    }

    /// Maps `ext` to `name`, replacing an earlier mapping of `ext`.
    fn map_ext(&mut self, ext: String, name: String)
        ensures
            first_value(final(self).extensions(), ext@) == Some(name@),
            forall|e: Seq<char>| e != ext@ ==> first_value(final(self).extensions(), e) == first_value(
                old(self).extensions(),
                e,
            ),
            final(self).names() == old(self).names(),
    {
        let ghost ev = ext@;
        let ghost nv = name@;
        let mut k: usize = 0;
        while k < self.ext_map.len()
            invariant
                k <= self.ext_map@.len(),
                forall|j: int| 0 <= j < k ==> self.extensions()[j].0 != ev,
                self.extensions() == old(self).extensions(),
                self.names() == old(self).names(),
                ev == ext@,
                nv == name@,
            decreases self.ext_map@.len() - k,
        {
            if crate::strings::str_eq(self.ext_map[k].0.as_str(), ext.as_str()) {
                let ghost before = self.extensions();
                assert(before[k as int].0 == ev);
                let ghost vec_before = self.ext_map@;
                self.ext_map.set(k, (ext, name));
                assert(self.ext_map@ == vec_before.update(k as int, self.ext_map@[k as int]));
                assert(self.ext_map@[k as int].0@ == ev);
                assert(self.ext_map@[k as int].1@ == nv);
                assert(self.extensions() =~= before.update(k as int, (ev, nv)));
                proof {
                    lemma_first_value_set(before, k as int, (ev, nv));
                }
                return;
            }
            k = k + 1;
        }
        let ghost before = self.extensions();
        self.ext_map.push((ext, name));
        proof {
            assert(self.extensions() =~= before.push((ev, nv)));
            lemma_first_value_push(before, (ev, nv));
        }
    }

    /// Returns the syntax for files with extension `ext`, if there is one.
    pub fn find(&self, ext: &str) -> (r: Option<&Syntax>)
        ensures
            r matches Some(s) ==> first_value(self.extensions(), ext@) == Some(s.name_view()),
            first_value(self.extensions(), ext@) is None ==> r is None,
            first_value(self.extensions(), ext@) matches Some(n) ==> (r is Some <==> self.names().contains(n)),
    {
        let mut k: usize = 0;
        let ghost es = self.extensions();
        assert(es.skip(0) =~= es);
        while k < self.ext_map.len()
            invariant
                k <= self.ext_map@.len(),
                es == self.extensions(),
                first_value(es, ext@) == first_value(es.skip(k as int), ext@),
            decreases self.ext_map@.len() - k,
        {
            assert(es.skip(k as int).drop_first() =~= es.skip(k + 1));
            assert(es.skip(k as int)[0] == es[k as int]);
            if crate::strings::str_eq(self.ext_map[k].0.as_str(), ext) {
                let name = self.ext_map[k].1.as_str();
                assert(first_value(es, ext@) == Some(name@));
                let mut j: usize = 0;
                while j < self.syntaxes.len()
                    invariant
                        j <= self.syntaxes@.len(),
                        forall|x: int| 0 <= x < j ==> self.names()[x] != name@,
                        first_value(self.extensions(), ext@) == Some(name@),
                    decreases self.syntaxes@.len() - j,
                {
                    if crate::strings::str_eq(self.syntaxes[j].name.as_str(), name) {
                        assert(self.names()[j as int] == name@);
                        return Some(&self.syntaxes[j]);
                    }
                    assert(self.names()[j as int] != name@);
                    j = j + 1;
                }
                return None;
            }
            k = k + 1;
        }
        None
    }
}

/// Setting the first entry with a key changes what that key finds, and nothing else.
proof fn lemma_first_value_set(entries: Seq<(Seq<char>, Seq<char>)>, k: int, x: (Seq<char>, Seq<char>))
    requires
        0 <= k < entries.len(),
        entries[k].0 == x.0,
        forall|j: int| 0 <= j < k ==> entries[j].0 != x.0,
    ensures
        first_value(entries.update(k, x), x.0) == Some(x.1),
        forall|e: Seq<char>| e != x.0 ==> first_value(entries.update(k, x), e) == first_value(entries, e),
    decreases k,
{
    let u = entries.update(k, x);
    assert(u[k] == x);
    if k == 0 {
        assert(u.drop_first() =~= entries.drop_first());
        assert forall|e: Seq<char>| e != x.0 implies first_value(u, e) == first_value(entries, e) by {
            assert(u[0].0 != e);
            assert(entries[0].0 != e);
        }
    } else {
        lemma_first_value_set(entries.drop_first(), k - 1, x);
        assert(u.drop_first() =~= entries.drop_first().update(k - 1, x));
        assert(u[0] == entries[0]);
        assert(entries[0].0 != x.0);
        assert forall|e: Seq<char>| e != x.0 implies first_value(u, e) == first_value(entries, e) by {
            assert(u[0] == entries[0]);
            if entries[0].0 != e {
                assert(first_value(u, e) == first_value(u.drop_first(), e));
                assert(first_value(entries, e) == first_value(entries.drop_first(), e));
            }
        }
    }
}

/// Adding an entry for a key that no entry has makes that key find it.
proof fn lemma_first_value_push(entries: Seq<(Seq<char>, Seq<char>)>, x: (Seq<char>, Seq<char>))
    requires
        forall|j: int| 0 <= j < entries.len() ==> entries[j].0 != x.0,
    ensures
        first_value(entries.push(x), x.0) == Some(x.1),
        forall|e: Seq<char>| e != x.0 ==> first_value(entries.push(x), e) == first_value(entries, e),
    decreases entries.len(),
{
    let p = entries.push(x);
    if entries.len() > 0 {
        lemma_first_value_push(entries.drop_first(), x);
        assert(p.drop_first() =~= entries.drop_first().push(x));
        assert(p[0] == entries[0]);
        assert(entries[0].0 != x.0);
        assert forall|e: Seq<char>| e != x.0 implies first_value(p, e) == first_value(entries, e) by {
            assert(p[0] == entries[0]);
            if entries[0].0 != e {
                assert(first_value(p, e) == first_value(p.drop_first(), e));
                assert(first_value(entries, e) == first_value(entries.drop_first(), e));
            }
        }
    } else {
        assert(p.drop_first() =~= Seq::<(Seq<char>, Seq<char>)>::empty());
        assert forall|e: Seq<char>| e != x.0 implies first_value(p, e) == first_value(entries, e) by {
            assert(first_value(p.drop_first(), e) is None);
        }
    }
}

impl Syntax {
    /// Returns `true` where the syntax is consistent (as [`Syntax::new`] makes it):
    /// the token at `i` has id `i + 1` and the group named after it.
    pub fn is_valid(&self) -> (b: bool)
        ensures
            b == self.wf(),
    {
        if self.tokens.len() == 0 {
            return false;
        }
        let mut i: usize = 0;
        while i < self.tokens.len()
            invariant
                i <= self.tokens@.len(),
                self.tokens@.len() > 0,
                forall|k: int|
                    0 <= k < i ==> {
                        &&& (#[trigger] self.tokens@[k]).id == k + 1
                        &&& self.tokens@[k].name@ == group_name((k + 1) as nat)
                    },
            decreases self.tokens@.len() - i,
        {
            let t = &self.tokens[i];
            if t.id != i + 1 {
                return false;
            }
            let mut name = to_string("_");
            push_decimal(&mut name, (i + 1) as u64);
            proof {
                reveal_strlit("_");
                assert(name@ =~= group_name((i + 1) as nat));
            }
            if !crate::strings::str_eq(t.name.as_str(), name.as_str()) {
                return false;
            }
            i = i + 1;
        }
        true
    }
}

impl Registry {
    /// Returns the syntax for the file at `path`, by its extension (std's
    /// `Path::extension`), if there is one.
    pub fn find_for(&self, path: &str) -> (r: Option<&Syntax>)
        ensures
            crate::sys::path_extension(path@) is None ==> r is None,
            crate::sys::path_extension(path@) matches Some(x) ==> ({
                &&& r matches Some(s) ==> first_value(self.extensions(), x) == Some(s.name_view())
                &&& first_value(self.extensions(), x) is None ==> r is None
                &&& first_value(self.extensions(), x) matches Some(n) ==> (r is Some <==> self.names().contains(n))
            }),
    {
        match crate::sys::extension_of(path) {
            Some(ext) => self.find(ext.as_str()),
            None => None,
        }
    }
}

} // verus!

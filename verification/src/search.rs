//! Text searching.
//!
//! A [`TermPattern`] finds a term in a [`Buffer`] with the Boyer-Moore algorithm:
//! the term is compared right to left, and after a mismatch the search moves on
//! by the larger of a bad character shift and a good suffix shift. Both shift
//! tables are proved never to skip an occurrence, so a search finds the first
//! occurrence at or after the starting position, as [`first_match`] defines it.

use crate::buffer::{Buffer, MAX_CAPACITY};
use crate::etc::{offset_of_pos, offset_to_pos, pos_of_offset, pos_to_offset};
use regex_lite::Regex;
use crate::error::{Error, Result};
use crate::strings::to_string;
use crate::syntax::{regex_build_error, regex_builds};
use std::collections::HashMap;
use vstd::prelude::*;

verus! {

broadcast use vstd::std_specs::hash::group_hash_axioms;

// ---------------------------------------------------------------------------
// What a search finds.
// ---------------------------------------------------------------------------

/// The ASCII lowercase of `c`.
pub open spec fn ascii_lower(c: char) -> char {
    if 'A' <= c <= 'Z' {
        (((c as u8) + 32) as u8) as char
    } else {
        c
    }
}

/// `c` as compared in a search: itself when case is strict, otherwise its ASCII
/// lowercase.
pub open spec fn fold_case(c: char, case_strict: bool) -> char {
    if case_strict {
        c
    } else {
        ascii_lower(c)
    }
}

/// The characters of `s` as compared in a search.
pub open spec fn fold(s: Seq<char>, case_strict: bool) -> Seq<char> {
    s.map_values(|c: char| fold_case(c, case_strict))
}

/// The (folded, nonempty) `pattern` occurs in `text` at position `p`.
pub open spec fn occurs_at(text: Seq<char>, pattern: Seq<char>, case_strict: bool, p: int) -> bool {
    &&& pattern.len() > 0
    &&& 0 <= p
    &&& p + pattern.len() <= text.len()
    &&& forall|t: int| 0 <= t < pattern.len() ==> fold_case(#[trigger] text[p + t], case_strict) == pattern[t]
}

/// The first position at or after `from` where `pattern` occurs in `text`.
pub open spec fn first_match(text: Seq<char>, pattern: Seq<char>, case_strict: bool, from: int) -> Option<int>
    decreases text.len() - from,
{
    if pattern.len() == 0 || from < 0 || from + pattern.len() > text.len() {
        None
    } else if occurs_at(text, pattern, case_strict, from) {
        Some(from)
    } else {
        first_match(text, pattern, case_strict, from + 1)
    }
}

/// No occurrence lies in `from..to`, so the first one from `from` is the first
/// one from `to`.
proof fn lemma_first_match_skip(text: Seq<char>, pattern: Seq<char>, case_strict: bool, from: int, to: int)
    requires
        0 <= from <= to,
        forall|q: int| from <= q < to ==> !#[trigger] occurs_at(text, pattern, case_strict, q),
    ensures
        first_match(text, pattern, case_strict, from) == first_match(text, pattern, case_strict, to),
    decreases to - from,
{
    if from < to && pattern.len() > 0 && from + pattern.len() <= text.len() {
        assert(!occurs_at(text, pattern, case_strict, from));
        lemma_first_match_skip(text, pattern, case_strict, from + 1, to);
    }
}

/// What [`first_match`] finds is an occurrence with none before it from `from`
/// on, and when it finds nothing, the pattern occurs nowhere from `from` on.
pub proof fn lemma_first_match(text: Seq<char>, pattern: Seq<char>, case_strict: bool, from: int)
    requires
        0 <= from,
    ensures
        first_match(text, pattern, case_strict, from) matches Some(p) ==> occurs_at(
            text,
            pattern,
            case_strict,
            p,
        ) && from <= p && forall|q: int| from <= q < p ==> !#[trigger] occurs_at(text, pattern, case_strict, q),
        first_match(text, pattern, case_strict, from) is None ==> forall|q: int|
            from <= q ==> !#[trigger] occurs_at(text, pattern, case_strict, q),
    decreases text.len() - from,
{
    if pattern.len() > 0 && from + pattern.len() <= text.len() && !occurs_at(text, pattern, case_strict, from) {
        lemma_first_match(text, pattern, case_strict, from + 1);
    }
}

/// A match of a term: the starting and ending positions in the text.
#[derive(Clone, Copy, PartialEq, Eq, Structural, Debug)]
pub struct Match(pub usize, pub usize);

/// The match at `p` of a term of `len` characters, if any.
pub open spec fn match_of(p: Option<int>, len: int) -> Option<Match> {
    match p {
        Some(q) => Some(Match(q as usize, (q + len) as usize)),
        None => None,
    }
}

// ---------------------------------------------------------------------------
// Borders of suffixes, which the good suffix table rests on.
// ---------------------------------------------------------------------------

/// `p[j..]` is a proper border of `p[i..]`: it equals the prefix of `p[i..]` of
/// the same length. The empty border is `j == p.len()`.
pub open spec fn is_border(p: Seq<char>, i: int, j: int) -> bool {
    &&& 0 <= i < j <= p.len()
    &&& forall|t: int| j <= t < p.len() ==> #[trigger] p[t] == p[t - j + i]
}

/// `f` is where the widest proper border of `p[i..]` starts, or `p.len() + 1`
/// for the empty suffix.
pub open spec fn widest_border(p: Seq<char>, i: int, f: int) -> bool {
    &&& i < p.len() ==> is_border(p, i, f) && forall|j: int| i < j < f ==> !#[trigger] is_border(
        p,
        i,
        j,
    )
    &&& i == p.len() ==> f == p.len() + 1
}

/// A border of `p[i..]` that is wider than another border is a border of that
/// other border.
proof fn lemma_border_of_border(p: Seq<char>, i: int, j: int, k: int)
    requires
        is_border(p, i, j),
        is_border(p, i, k),
        j < k,
    ensures
        is_border(p, j, k),
{
    assert forall|t: int| k <= t < p.len() implies #[trigger] p[t] == p[t - k + j] by {
        assert(p[t - k + j] == p[(t - k + j) - j + i]);
        assert(p[t] == p[t - k + i]);
    }
}

/// A border of a border of `p[i..]` is a border of `p[i..]`.
proof fn lemma_border_trans(p: Seq<char>, i: int, j: int, k: int)
    requires
        is_border(p, i, j),
        is_border(p, j, k),
    ensures
        is_border(p, i, k),
{
    assert forall|t: int| k <= t < p.len() implies #[trigger] p[t] == p[t - k + i] by {
        assert(p[t] == p[t - k + j]);
        assert(p[t - k + j] == p[(t - k + j) - j + i]);
    }
}

/// A border extends by one character to the left when the characters before
/// both ends agree.
proof fn lemma_border_extend(p: Seq<char>, i: int, j: int)
    requires
        is_border(p, i, j),
        1 <= i,
        p[i - 1] == p[j - 1],
    ensures
        is_border(p, i - 1, j - 1),
{
    assert forall|t: int| j - 1 <= t < p.len() implies #[trigger] p[t] == p[t - (j - 1) + (i - 1)] by {
        if t >= j {
            assert(p[t] == p[t - j + i]);
        }
    }
}

/// A nonempty border of `p[i - 1..]` shrinks by one character to a border of
/// `p[i..]`.
proof fn lemma_border_shrink(p: Seq<char>, i: int, j: int)
    requires
        1 <= i,
        is_border(p, i - 1, j),
        j < p.len(),
    ensures
        is_border(p, i, j + 1),
        p[i - 1] == p[j],
{
    assert(p[j] == p[j - j + (i - 1)]);
    assert forall|t: int| j + 1 <= t < p.len() implies #[trigger] p[t] == p[t - (j + 1) + i] by {
        assert(p[t] == p[t - j + (i - 1)]);
    }
}

// ---------------------------------------------------------------------------
// Shifts.
// ---------------------------------------------------------------------------

/// After `p[k + 1..]` matched the text and `p[k]` did not, moving the pattern by
/// `s` is consistent with what was seen: the moved pattern agrees with the
/// matched characters, and does not put `p[k]` against the mismatched one.
pub open spec fn compatible(p: Seq<char>, k: int, s: int) -> bool {
    &&& 1 <= s
    &&& forall|t: int| k < t < p.len() && t - s >= 0 ==> #[trigger] p[t - s] == p[t]
    &&& k - s >= 0 ==> p[k - s] != p[k]
}

/// Each entry of `gs` is a shift after a mismatch at its position that passes
/// over no compatible shift, and is at least 1.
pub open spec fn good_suffix_table(p: Seq<char>, gs: Seq<usize>) -> bool {
    &&& gs.len() == p.len()
    &&& forall|k: int|
        0 <= k < p.len() ==> 1 <= #[trigger] gs[k] <= p.len() && forall|s: int|
            1 <= s < gs[k] ==> !compatible(p, k, s)
}

/// A compatible shift that stays within the pattern makes `p[k + 1..]` a border of
/// the suffix where the shifted pattern starts.
proof fn lemma_compatible_border(p: Seq<char>, k: int, s: int)
    requires
        0 <= k < p.len(),
        compatible(p, k, s),
        k - s >= 0,
    ensures
        is_border(p, k + 1 - s, k + 1),
{
    assert forall|t: int| k + 1 <= t < p.len() implies #[trigger] p[t] == p[t - (k + 1) + (k + 1
        - s)] by {
        assert(p[t - s] == p[t]);
    }
}

/// Builds the good suffix table of `pattern`.
fn build_gs_shift(pattern: &Vec<char>) -> (gs: Vec<usize>)
    requires
        pattern@.len() < usize::MAX,
    ensures
        good_suffix_table(pattern@, gs@),
{
    let ghost p = pattern@;
    let len = pattern.len();
    if len == 0 {
        return Vec::new();
    }
    let mut gs_shift: Vec<usize> = vec![len; len];
    let mut border: Vec<usize> = vec![0; len + 1];
    border.set(len, len + 1);
    let mut i: usize = len;
    let mut j: usize = len + 1;
    while i > 0
        invariant
            len == p.len(),
            0 < len < usize::MAX,
            p == pattern@,
            i <= len,
            gs_shift@.len() == len,
            border@.len() == len + 1,
            j == border@[i as int],
            forall|x: int| i <= x <= len ==> widest_border(p, x, #[trigger] border@[x] as int),
            forall|k: int|
                0 <= k < len ==> #[trigger] gs_shift@[k] == len || 1 <= gs_shift@[k] <= k - i,
            forall|k: int, s: int|
                0 <= k < len && #[trigger] compatible(p, k, s) && k + 1 - s >= i + 1 ==> gs_shift@[k]
                    <= s,
        decreases i,
    {
        let ghost gs0 = gs_shift@;
        while j <= len && pattern[i - 1] != pattern[j - 1]
            invariant
                len == p.len(),
                0 < len < usize::MAX,
                p == pattern@,
                1 <= i <= len,
                gs_shift@.len() == len,
                border@.len() == len + 1,
                forall|x: int| i <= x <= len ==> widest_border(p, x, #[trigger] border@[x] as int),
                j == len + 1 || (i < j <= len && is_border(p, i as int, j as int)),
                forall|x: int|
                    i < x < j && x <= len && #[trigger] is_border(p, i as int, x) ==> p[i - 1]
                        != p[x - 1] && gs_shift@[x - 1] <= x - i,
                forall|k: int|
                    0 <= k < len ==> #[trigger] gs_shift@[k] == len || 1 <= gs_shift@[k] <= k + 1
                        - i,
                forall|k: int| 0 <= k < len ==> #[trigger] gs_shift@[k] <= gs0[k],
                forall|k: int, s: int|
                    0 <= k < len && #[trigger] compatible(p, k, s) && k + 1 - s >= i + 1 ==> gs0[k]
                        <= s,
            decreases len + 1 - j,
        {
            if gs_shift[j - 1] == len {
                gs_shift.set(j - 1, j - i);
            }
            let ghost jj = j as int;
            let next = border[j];
            proof {
                if jj < len {
                    assert(widest_border(p, jj, border@[jj] as int));
                    lemma_border_trans(p, i as int, jj, next as int);
                    assert forall|x: int|
                        i < x < next && x <= len && #[trigger] is_border(p, i as int, x) implies p[i
                        - 1] != p[x - 1] && gs_shift@[x - 1] <= x - i by {
                        if x > jj {
                            lemma_border_of_border(p, i as int, jj, x);
                        }
                    }
                } else {
                    assert(widest_border(p, jj, border@[jj] as int));
                }
            }
            j = next;
        }
        proof {
            let jx = j as int;
            let ii = i as int;
            // The widest border of `p[i - 1..]` starts at `j - 1`.
            if jx <= len {
                lemma_border_extend(p, ii, jx);
            }
            assert forall|x: int| ii - 1 < x < jx - 1 implies !#[trigger] is_border(p, ii - 1, x) by {
                if is_border(p, ii - 1, x) && x < len {
                    lemma_border_shrink(p, ii, x);
                    assert(is_border(p, ii, x + 1));
                }
            }
            // Every compatible shift whose shifted pattern starts at `i` is covered.
            assert forall|k: int, s: int|
                0 <= k < len && #[trigger] compatible(p, k, s) && k + 1 - s >= ii implies gs_shift@[k]
                <= s by {
                if k + 1 - s > ii {
                    assert(gs0[k] <= s);
                } else {
                    lemma_compatible_border(p, k, s);
                    assert(is_border(p, ii, k + 1));
                    if k + 1 < jx {
                        assert(gs_shift@[k] <= k + 1 - ii);
                    } else if k + 1 > jx {
                        lemma_border_of_border(p, ii, jx, k + 1);
                        let s2 = k + 1 - jx;
                        assert forall|t: int| k < t < p.len() && t - s2 >= 0 implies #[trigger] p[t
                            - s2] == p[t] by {
                            assert(p[t] == p[t - (k + 1) + jx]);
                        }
                        assert(compatible(p, k, s2));
                        assert(gs0[k] <= s2);
                    }
                }
            }
        }
        i = i - 1;
        j = j - 1;
        border.set(i, j);
        assert(widest_border(p, i as int, border@[i as int] as int));
    }
    // Positions with no compatible shift within the pattern get the shift to the
    // nearest border of the whole pattern.
    j = border[0];
    let mut k: usize = 0;
    while k < len
        invariant
            len == p.len(),
            0 < len < usize::MAX,
            p == pattern@,
            k <= len,
            gs_shift@.len() == len,
            border@.len() == len + 1,
            forall|x: int| 0 <= x <= len ==> widest_border(p, x, #[trigger] border@[x] as int),
            k <= j <= len,
            1 <= j,
            is_border(p, 0, j as int),
            forall|x: int| k <= x < j ==> !#[trigger] is_border(p, 0, x),
            forall|x: int|
                0 <= x < k ==> 1 <= #[trigger] gs_shift@[x] <= len && forall|s: int|
                    1 <= s < gs_shift@[x] ==> !compatible(p, x, s),
            forall|x: int| k <= x < len ==> #[trigger] gs_shift@[x] == len || 1 <= gs_shift@[x] <= x,
            forall|x: int, s: int|
                k <= x < len && #[trigger] compatible(p, x, s) && x - s >= 0 ==> gs_shift@[x] <= s,
        decreases len - k,
    {
        if gs_shift[k] == len {
            gs_shift.set(k, j);
            proof {
                assert forall|s: int| 1 <= s < j implies !compatible(p, k as int, s) by {
                    if compatible(p, k as int, s) && s > k {
                        assert forall|t: int| s <= t < p.len() implies #[trigger] p[t] == p[t - s
                            + 0] by {
                            assert(p[t - s] == p[t]);
                        }
                        assert(is_border(p, 0, s));
                    }
                }
            }
        }
        if k == j {
            let ghost jj = j as int;
            let next = border[j];
            proof {
                assert(widest_border(p, jj, border@[jj] as int));
                lemma_border_trans(p, 0, jj, next as int);
                assert forall|x: int| k + 1 <= x < next implies !#[trigger] is_border(p, 0, x) by {
                    if is_border(p, 0, x) {
                        lemma_border_of_border(p, 0, jj, x);
                    }
                }
            }
            j = next;
        }
        k = k + 1;
    }
    gs_shift
}

/// `m` maps each character of `p[..n]`, as its code, to its rightmost position in
/// `p[..n]`, and nothing else.
pub open spec fn bad_char_table(p: Seq<char>, m: Map<u32, usize>, n: int) -> bool {
    &&& forall|t: int|
        0 <= t < n ==> #[trigger] m.contains_key(p[t] as u32) && t <= m[p[t] as u32]
    &&& forall|c: u32| #[trigger] m.contains_key(c) ==> m[c] < n && p[m[c] as int] as u32 == c
}

/// The length of the part of a pattern of `len` characters that the bad
/// character table covers: all but the last character.
pub open spec fn bad_char_span(len: int) -> int {
    if len > 0 { len - 1 } else { 0 }
}

/// Builds the bad character table of `pattern`.
fn build_bc_shift(pattern: &Vec<char>) -> (m: HashMap<u32, usize>)
    ensures
        bad_char_table(pattern@, m@, bad_char_span(pattern@.len() as int)),
{
    let len = pattern.len();
    let n: usize = len.saturating_sub(1);
    let mut m: HashMap<u32, usize> = HashMap::new();
    let mut i: usize = 0;
    while i < n
        invariant
            n == bad_char_span(pattern@.len() as int),
            i <= n,
            bad_char_table(pattern@, m@, i as int),
        decreases n - i,
    {
        let c = pattern[i];
        let ghost m0 = m@;
        m.insert(c as u32, i);
        proof {
            let p = pattern@;
            assert forall|t: int| 0 <= t < i + 1 implies #[trigger] m@.contains_key(p[t] as u32) && t
                <= m@[p[t] as u32] by {
                if t < i && p[t] as u32 != c as u32 {
                    assert(m0.contains_key(p[t] as u32));
                }
            }
            assert forall|k: u32| #[trigger] m@.contains_key(k) implies m@[k] < i + 1 && p[m@[k] as int] as u32 == k by {
                if k != c as u32 {
                    assert(m0.contains_key(k));
                }
            }
        }
        i = i + 1;
    }
    m
}

/// A term-oriented pattern-matching algorithm implemented using the Boyer-Moore
/// algorithm.
pub struct TermPattern {
    /// The term provided during construction.
    term: String,
    /// The term as compared in a search: lowercased unless case is strict.
    pattern: Vec<char>,
    /// Maps characters of `pattern` but the last to their rightmost position.
    bc_shift: HashMap<u32, usize>,
    /// The shift after a mismatch at each position of `pattern`.
    gs_shift: Vec<usize>,
    /// Indicates the sensitivity of case.
    case_strict: bool,
}

impl TermPattern {
    /// The consistency of the pattern with its term and of its shift tables.
    #[verifier::type_invariant]
    closed spec fn inv(&self) -> bool {
        &&& self.pattern@ == fold(self.term@, self.case_strict)
        &&& self.pattern@.len() < usize::MAX
        &&& bad_char_table(self.pattern@, self.bc_shift@, bad_char_span(self.pattern@.len() as int))
        &&& good_suffix_table(self.pattern@, self.gs_shift@)
    }

    /// The term provided during construction.
    pub closed spec fn term(&self) -> Seq<char> {
        self.term@
    }

    /// The term as compared in a search.
    pub closed spec fn folded(&self) -> Seq<char> {
        self.pattern@
    }

    /// Whether case is significant.
    pub closed spec fn strict(&self) -> bool {
        self.case_strict
    }

    /// Creates a pattern that searches for `term`, with `case_strict` telling whether
    /// case is significant; when it is not, ASCII letters match either case.
    pub fn new(term: &str, case_strict: bool) -> (tp: TermPattern)
        requires
            term@.len() < usize::MAX,
        ensures
            tp.term() == term@,
            tp.strict() == case_strict,
            tp.folded() == fold(term@, case_strict),
    {
        let chars = crate::strings::chars_of(term);
        let mut pattern: Vec<char> = Vec::new();
        let mut i: usize = 0;
        while i < chars.len()
            invariant
                chars@ == term@,
                i <= chars@.len(),
                pattern@ == fold(chars@.take(i as int), case_strict),
            decreases chars@.len() - i,
        {
            let c = chars[i];
            pattern.push(if case_strict { c } else { to_ascii_lower(c) });
            i = i + 1;
            assert(pattern@ =~= fold(chars@.take(i as int), case_strict));
        }
        assert(chars@.take(chars@.len() as int) =~= chars@);
        let bc_shift = build_bc_shift(&pattern);
        let gs_shift = build_gs_shift(&pattern);
        TermPattern { term: to_string(term), pattern, bc_shift, gs_shift, case_strict }
    }

    /// The character of `buffer` at `pos`, as compared in a search.
    fn buf_at(&self, buffer: &Buffer, pos: usize) -> (c: char)
        requires
            buffer.wf(),
            pos < buffer@.len(),
        ensures
            c == fold_case(buffer@[pos as int], self.strict()),
    {
        let c = buffer.char_at(pos);
        if self.case_strict {
            c
        } else {
            to_ascii_lower(c)
        }
    }

    /// Searches `buffer` from `pos` on, without wrapping.
    fn search(&self, buffer: &Buffer, pos: usize) -> (r: Option<Match>)
        requires
            buffer.wf(),
        ensures
            r == match_of(first_match(buffer@, self.folded(), self.strict(), pos as int), self.folded().len() as int),
    {
        proof {
            use_type_invariant(self);
        }
        let ghost text = buffer@;
        let ghost pat = self.pattern@;
        let ghost strict = self.case_strict;
        let len = self.pattern.len();
        let size = buffer.size();
        if len > 0 && pos <= size && len <= size - pos {
            // Since the pattern is compared backwards, this is the last position at
            // which it fits in the buffer.
            let stop_pos = size - len;
            let ghost pos0 = pos as int;
            let mut at = pos;
            while at <= stop_pos
                invariant
                    text == buffer@,
                    buffer.wf(),
                    pat == self.pattern@,
                    strict == self.case_strict,
                    len == pat.len(),
                    size == text.len(),
                    0 < len <= size,
                    stop_pos == size - len,
                    at <= size,
                    pat == fold(self.term@, self.case_strict),
                    bad_char_table(pat, self.bc_shift@, bad_char_span(len as int)),
                    good_suffix_table(pat, self.gs_shift@),
                    pos0 == pos as int,
                    first_match(text, pat, strict, at as int) == first_match(text, pat, strict, pos0),
                decreases size - at,
            {
                let mut i = len;
                while i > 0 && self.pattern[i - 1] == self.buf_at(buffer, at + i - 1)
                    invariant
                        text == buffer@,
                        buffer.wf(),
                        pat == self.pattern@,
                        strict == self.case_strict,
                        len == pat.len(),
                        at + len <= text.len(),
                        size == text.len(),
                        i <= len,
                        forall|t: int| i <= t < len ==> fold_case(#[trigger] text[at + t], strict) == pat[t],
                    decreases i,
                {
                    i = i - 1;
                }
                if i == 0 {
                    assert(occurs_at(text, pat, strict, at as int));
                    assert(first_match(text, pat, strict, at as int) == Some(at as int));
                    return Some(Match(at, at + len));
                }
                let k = i - 1;
                // The bad character that did not match the pattern.
                let bc = self.buf_at(buffer, at + k);
                let bc_shift = match self.bc_shift.get(&(bc as u32)) {
                    Some(p) => {
                        let d = k.saturating_sub(*p);
                        if d < 1 { 1 } else { d }
                    },
                    // The bad character is not in the pattern, so shift past it.
                    None => i,
                };
                let gs_shift = self.gs_shift[k];
                let shift = if bc_shift > gs_shift { bc_shift } else { gs_shift };
                proof {
                    lemma_shift_safe(text, pat, strict, self.bc_shift@, self.gs_shift@, at as int, k as int, bc_shift as int, shift as int);
                    lemma_first_match_skip(text, pat, strict, at as int, at + shift);
                }
                at = at + shift;
            }
            None
        } else {
            None
        }
    }
}

/// The first match at or after `pos`, or else, when `pos` is past the start, the
/// first match from the start: a full search over the text that wraps around.
pub open spec fn wrapped_match(text: Seq<char>, pattern: Seq<char>, case_strict: bool, pos: int) -> Option<int> {
    match first_match(text, pattern, case_strict, pos) {
        Some(p) => Some(p),
        None => if pos > 0 { first_match(text, pattern, case_strict, 0) } else { None },
    }
}

/// Defines an interface for a pattern-matching algorithm.
pub trait Pattern {
    /// The match that a search of `text` from `pos` finds, as [`Pattern::find`]
    /// gives it.
    spec fn found(&self, text: Seq<char>, pos: int) -> Option<Match>;

    /// Returns the pattern.
    fn pattern(&self) -> &str;

    /// Searches `buffer` starting at `pos` for the first pattern match, returning
    /// the starting and ending positions of the match in `buffer`.
    ///
    /// Regardless of `pos`, the search covers all of `buffer`: it wraps to the start
    /// when nothing matches from `pos` on. `None` means that `buffer` holds no
    /// match.
    fn find(&self, buffer: &Buffer, pos: usize) -> (r: Option<Match>)
        requires
            buffer.wf(),
        ensures
            r == self.found(buffer@, pos as int),
    ;

    /// Equivalent to [`find`](Self::find), with the text given as `&str`.
    fn find_str(&self, buffer: &str, pos: usize) -> (r: Option<Match>)
        requires
            buffer@.len() <= MAX_CAPACITY,
        ensures
            r == self.found(buffer@, pos as int),
    ;
}

impl Pattern for TermPattern {
    open spec fn found(&self, text: Seq<char>, pos: int) -> Option<Match> {
        match_of(wrapped_match(text, self.folded(), self.strict(), pos), self.folded().len() as int)
    }

    fn pattern(&self) -> (r: &str)
        ensures
            r@ == self.term(),
    {
        self.term.as_str()
    }

    fn find(&self, buffer: &Buffer, pos: usize) -> (r: Option<Match>)
        ensures
            r == match_of(wrapped_match(buffer@, self.folded(), self.strict(), pos as int), self.folded().len() as int),
    {
        match self.search(buffer, pos) {
            Some(m) => Some(m),
            None => if pos > 0 { self.search(buffer, 0) } else { None },
        }
    }

    fn find_str(&self, buffer: &str, pos: usize) -> (r: Option<Match>)
        ensures
            r == match_of(wrapped_match(buffer@, self.folded(), self.strict(), pos as int), self.folded().len() as int),
    {
        let mut buf = Buffer::new();
        buf.insert_str(buffer);
        assert(buf@ =~= buffer@);
        self.find(&buf, pos)
    }
}

/// Returns a pattern-matching algorithm using `term` as the search string, and
/// `case_strict` to indicate the sensitivity of case when searching.
pub fn using_term(term: &str, case_strict: bool) -> (p: TermPattern)
    requires
        term@.len() < usize::MAX,
    ensures
        p.term() == term@,
        p.strict() == case_strict,
        p.folded() == fold(term@, case_strict),
{
    TermPattern::new(term, case_strict)
}

/// Moving on from `pos` by the larger of the two shifts, after `p[k + 1..]` matched
/// at `pos` and `p[k]` did not, passes over no occurrence.
proof fn lemma_shift_safe(
    text: Seq<char>,
    p: Seq<char>,
    strict: bool,
    bc: Map<u32, usize>,
    gs: Seq<usize>,
    pos: int,
    k: int,
    bc_shift: int,
    shift: int,
)
    requires
        0 <= pos,
        0 <= k < p.len(),
        pos + p.len() <= text.len(),
        forall|t: int| k < t < p.len() ==> fold_case(#[trigger] text[pos + t], strict) == p[t],
        fold_case(text[pos + k], strict) != p[k],
        bad_char_table(p, bc, bad_char_span(p.len() as int)),
        good_suffix_table(p, gs),
        ({
            let c = fold_case(text[pos + k], strict) as u32;
            if bc.contains_key(c) {
                bc_shift == (if k - bc[c] < 1 { 1 } else { k - bc[c] })
            } else {
                bc_shift == k + 1
            }
        }),
        shift == (if bc_shift > gs[k] { bc_shift } else { gs[k] as int }),
    ensures
        1 <= shift <= p.len(),
        forall|q: int| pos <= q < pos + shift ==> !#[trigger] occurs_at(text, p, strict, q),
{
    let c = fold_case(text[pos + k], strict);
    assert forall|q: int| pos <= q < pos + shift implies !#[trigger] occurs_at(text, p, strict, q) by {
        if occurs_at(text, p, strict, q) {
            let s = q - pos;
            if s == 0 {
                assert(fold_case(text[q + k], strict) == p[k]);
            } else {
                assert forall|t: int| k < t < p.len() && t - s >= 0 implies #[trigger] p[t - s] == p[t] by {
                    assert(q + (t - s) == pos + t);
                    assert(fold_case(text[q + (t - s)], strict) == p[t - s]);
                    assert(fold_case(text[pos + t], strict) == p[t]);
                }
                if k - s >= 0 {
                    assert(fold_case(text[q + (k - s)], strict) == p[k - s]);
                }
                assert(compatible(p, k, s));
                assert(s >= gs[k]);
                assert(s < bc_shift);
                assert(k - s >= 0);
                assert(fold_case(text[q + (k - s)], strict) == p[k - s]);
                assert(p[k - s] == c);
                if bc.contains_key(c as u32) {
                    assert(p[bc[c as u32] as int] as u32 == c as u32);
                    assert(k - s > bc[c as u32]);
                    assert(bc.contains_key(p[k - s] as u32) && k - s <= bc[p[k - s] as u32]);
                } else {
                    assert(bc.contains_key(p[k - s] as u32));
                }
            }
        }
    }
}

/// Returns the ASCII lowercase of `c`.
fn to_ascii_lower(c: char) -> (r: char)
    ensures
        r == ascii_lower(c),
{
    if 'A' <= c && c <= 'Z' {
        ((c as u8) + 32) as char
    } else {
        c
    }
}

// ---------------------------------------------------------------------------
// Regular expressions.
// ---------------------------------------------------------------------------

#[verifier::external_type_specification]
#[verifier::external_body]
pub struct ExRegex(regex_lite::Regex);

/// regex-lite's `Regex::clone`, which copies the compiled expression; nothing is
/// stated of the copy.
pub assume_specification[ <regex_lite::Regex as Clone>::clone ](r: &regex_lite::Regex) -> regex_lite::Regex;

/// Where regex-lite's expression built from `source` with the flags given (see
/// [`regex_builds`]) first matches `haystack` at or after byte offset `start`
/// (`Regex::find_at`): the byte range of the match, or `None`.
pub uninterp spec fn regex_find(
    source: Seq<char>,
    case_insensitive: bool,
    multi_line: bool,
    haystack: Seq<char>,
    start: int,
) -> Option<(int, int)>;

/// Builds `source` as a regular expression with case-insensitive and multi-line
/// matching as given (regex-lite's `RegexBuilder::build`), or gives the error's
/// message.
///
/// Whether it builds, and the message, are named by [`regex_builds`] and
/// [`regex_build_error`]; the grammar that decides them is left unsaid.
#[verifier::external_body]
pub(crate) fn build_regex(source: &str, case_insensitive: bool, multi_line: bool) -> (r: core::result::Result<
    Regex,
    String,
>)
    ensures
        (r is Ok) == regex_builds(source@, case_insensitive, multi_line),
        r matches Err(m) ==> m@ == regex_build_error(source@, case_insensitive, multi_line),
{
    match regex_lite::RegexBuilder::new(source).case_insensitive(case_insensitive).multi_line(multi_line).build() {
        Ok(re) => Ok(re),
        Err(e) => Err(e.to_string()),
    }
}

/// Searches `haystack` from byte offset `start` with the expression of `pattern`
/// (regex-lite's `Regex::find_at`), returning the byte range of the match found.
///
/// The expression was built by [`build_regex`] from the pattern's source and flags,
/// as [`RegexPattern::new`] alone makes it, so the result is named by
/// [`regex_find`] over them. As regex-lite documents, the match starts at or after
/// `start` and ends no earlier than it starts and no later than the haystack.
#[verifier::external_body]
fn regex_find_at(pattern: &RegexPattern, haystack: &str, start: usize) -> (r: Option<(usize, usize)>)
    requires
        start <= encode_utf8_len(haystack@),
    ensures
        opt_range(r) == regex_find(pattern.source(), pattern.case_insensitive(), pattern.multi_line(), haystack@, start as int),
        r matches Some((s, e)) ==> start <= s <= e <= encode_utf8_len(haystack@),
{
    match pattern.regex.find_at(haystack, start) {
        Some(m) => Some((m.start(), m.end())),
        None => None,
    }
}

/// A byte range as integers.
pub open spec fn opt_range(r: Option<(usize, usize)>) -> Option<(int, int)> {
    match r {
        Some((s, e)) => Some((s as int, e as int)),
        None => None,
    }
}

/// The length of the `UTF-8` encoding of `s`.
pub open spec fn encode_utf8_len(s: Seq<char>) -> int {
    vstd::utf8::encode_utf8(s).len() as int
}

/// The match that spans bytes `start` to `end` of `text`, in character positions.
pub open spec fn match_at_offsets(text: Seq<char>, start: int, end: int) -> Match {
    Match(pos_of_offset(text, start) as usize, pos_of_offset(text, end) as usize)
}

/// Returns the match that spans bytes `start` to `end` of `buffer`, converted to
/// character positions.
pub fn offsets_to_match(buffer: &str, start: usize, end: usize) -> (m: Match)
    ensures
        m == match_at_offsets(buffer@, start as int, end as int),
{
    let start_pos = offset_to_pos(buffer, start);
    let end_pos = offset_to_pos(buffer, end);
    Match(start_pos, end_pos)
}

/// The first match of the expression `source` with the flags given in `text` at or
/// after character position `pos`, in character positions.
pub open spec fn regex_match_from(source: Seq<char>, ci: bool, ml: bool, text: Seq<char>, pos: int) -> Option<Match> {
    match regex_find(source, ci, ml, text, offset_of_pos(text, pos)) {
        Some((s, e)) => Some(match_at_offsets(text, s, e)),
        None => None,
    }
}

/// The first match at or after `pos`, or else, when `pos` is past the start, the
/// first match from the start: a full search over the text that wraps around.
pub open spec fn regex_match_wrapped(source: Seq<char>, ci: bool, ml: bool, text: Seq<char>, pos: int) -> Option<Match> {
    match regex_match_from(source, ci, ml, text, pos) {
        Some(m) => Some(m),
        None => if pos > 0 { regex_match_from(source, ci, ml, text, 0) } else { None },
    }
}

/// A regex-oriented pattern-matching algorithm: the expression, built from its
/// source with the flags it keeps.
pub struct RegexPattern {
    regex: Regex,
    source: String,
    case_insensitive: bool,
    multi_line: bool,
}

impl RegexPattern {
    /// The source of the expression.
    pub closed spec fn source(&self) -> Seq<char> {
        self.source@
    }

    /// Whether the expression matches without regard to case.
    pub closed spec fn case_insensitive(&self) -> bool {
        self.case_insensitive
    }

    /// Whether `^` and `$` of the expression match at line boundaries.
    pub closed spec fn multi_line(&self) -> bool {
        self.multi_line
    }

    /// Creates a pattern that searches with the expression `source`, matching
    /// without regard to case and at line boundaries as given; fails with an
    /// invalid-regex error where `source` does not build.
    pub fn new(source: &str, case_insensitive: bool, multi_line: bool) -> (r: Result<RegexPattern>)
        ensures
            (r is Ok) == regex_builds(source@, case_insensitive, multi_line),
            r matches Ok(p) ==> p.source() == source@ && p.case_insensitive() == case_insensitive
                && p.multi_line() == multi_line,
            r matches Err(e) ==> (e matches Error::InvalidRegex { pattern, cause } && pattern@ == source@
                && cause@ == regex_build_error(source@, case_insensitive, multi_line)),
    {
        match build_regex(source, case_insensitive, multi_line) {
            Ok(regex) => Ok(RegexPattern { regex, source: to_string(source), case_insensitive, multi_line }),
            Err(m) => Err(Error::invalid_regex(source, m.as_str())),
        }
    }

    /// Searches `buffer` from `pos` on, without wrapping.
    fn search(&self, buffer: &str, pos: usize) -> (r: Option<Match>)
        ensures
            r == regex_match_from(self.source(), self.case_insensitive(), self.multi_line(), buffer@, pos as int),
    {
        let pos_offset = pos_to_offset(buffer, pos);
        proof {
            assert(offset_of_pos(buffer@, pos as int) <= encode_utf8_len(buffer@)) by {
                crate::etc::lemma_offset_bound(buffer@, if (pos as int) < buffer@.len() { pos as int } else { buffer@.len() as int });
            }
        }
        match regex_find_at(self, buffer, pos_offset) {
            Some((start, end)) => Some(offsets_to_match(buffer, start, end)),
            None => None,
        }
    }
}

impl Pattern for RegexPattern {
    open spec fn found(&self, text: Seq<char>, pos: int) -> Option<Match> {
        regex_match_wrapped(self.source(), self.case_insensitive(), self.multi_line(), text, pos)
    }

    fn pattern(&self) -> (r: &str)
        ensures
            r@ == self.source(),
    {
        self.source.as_str()
    }

    fn find(&self, buffer: &Buffer, pos: usize) -> (r: Option<Match>)
        ensures
            r == regex_match_wrapped(self.source(), self.case_insensitive(), self.multi_line(), buffer@, pos as int),
    {
        let text = buffer_text(buffer);
        assert(text@.len() <= MAX_CAPACITY) by {
            buffer.lemma_wf();
        }
        self.find_str(text.as_str(), pos)
    }

    fn find_str(&self, buffer: &str, pos: usize) -> (r: Option<Match>)
        ensures
            r == regex_match_wrapped(self.source(), self.case_insensitive(), self.multi_line(), buffer@, pos as int),
    {
        match self.search(buffer, pos) {
            Some(m) => Some(m),
            None => if pos > 0 { self.search(buffer, 0) } else { None },
        }
    }
}

/// Returns a pattern-matching algorithm using the expression `source`, as
/// [`RegexPattern::new`] builds it.
pub fn using_regex(source: &str, case_insensitive: bool, multi_line: bool) -> (r: Result<RegexPattern>)
    ensures
        (r is Ok) == regex_builds(source@, case_insensitive, multi_line),
        r matches Ok(p) ==> p.source() == source@ && p.case_insensitive() == case_insensitive
            && p.multi_line() == multi_line,
        r matches Err(e) ==> (e matches Error::InvalidRegex { pattern, cause } && pattern@ == source@
            && cause@ == regex_build_error(source@, case_insensitive, multi_line)),
{
    RegexPattern::new(source, case_insensitive, multi_line)
}

/// Searches `buffer` from `pos` for the regular expression `term`, as an
/// incremental search does: multi-line, and without regard to case unless
/// `case_strict`, wrapping to the start; fails with an invalid-regex error where
/// `term` does not build.
pub fn search_regex(buffer: &Buffer, term: &str, case_strict: bool, pos: usize) -> (r: Result<Option<Match>>)
    requires
        buffer.wf(),
    ensures
        (r is Ok) == regex_builds(term@, !case_strict, true),
        r matches Err(e) ==> (e matches Error::InvalidRegex { pattern, cause } && pattern@ == term@
            && cause@ == regex_build_error(term@, !case_strict, true)),
        r matches Ok(m) ==> m == regex_match_wrapped(term@, !case_strict, true, buffer@, pos as int),
{
    match RegexPattern::new(term, !case_strict, true) {
        Ok(p) => Ok(p.find(buffer, pos)),
        Err(e) => Err(e),
    }
}

/// The pattern of a search: a term or a regular expression.
pub enum SearchPattern {
    Term(TermPattern),
    Regex(RegexPattern),
}

impl Pattern for SearchPattern {
    open spec fn found(&self, text: Seq<char>, pos: int) -> Option<Match> {
        match self {
            SearchPattern::Term(t) => t.found(text, pos),
            SearchPattern::Regex(r) => r.found(text, pos),
        }
    }

    fn pattern(&self) -> (r: &str) {
        match self {
            SearchPattern::Term(t) => t.pattern(),
            SearchPattern::Regex(r) => r.pattern(),
        }
    }

    fn find(&self, buffer: &Buffer, pos: usize) -> (r: Option<Match>) {
        match self {
            SearchPattern::Term(t) => t.find(buffer, pos),
            SearchPattern::Regex(r) => r.find(buffer, pos),
        }
    }

    fn find_str(&self, buffer: &str, pos: usize) -> (r: Option<Match>) {
        match self {
            SearchPattern::Term(t) => t.find_str(buffer, pos),
            SearchPattern::Regex(r) => r.find_str(buffer, pos),
        }
    }
}

/// Returns the text of `buffer` as a string.
pub(crate) fn buffer_text(buffer: &Buffer) -> (s: String)
    requires
        buffer.wf(),
    ensures
        s@ == buffer@,
{
    let mut s = String::new();
    let mut i: usize = 0;
    let n = buffer.size();
    while i < n
        invariant
            buffer.wf(),
            n == buffer@.len(),
            i <= n,
            s@ == buffer@.take(i as int),
        decreases n - i,
    {
        crate::strings::push_char(&mut s, buffer.char_at(i));
        i = i + 1;
        assert(s@ =~= buffer@.take(i as int));
    }
    assert(buffer@.take(n as int) =~= buffer@);
    s
}

} // verus!

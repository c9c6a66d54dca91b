//! Tokenization for syntax coloring.
//!
//! A tokenizer divides the text of a buffer into spans: runs of characters that
//! match a token of the syntax, and gaps between them. Positions in the text
//! carry the span that holds them, so that moving a position, inserting and
//! removing text, and finding the color at a position need no search from the
//! start.

use crate::buffer::Buffer;
use crate::etc::{char_width, len_utf8, offset_of_pos, pos_from, pos_of_offset};
use crate::search::{buffer_text, encode_utf8_len};
use crate::strings::chars_of;
use crate::syntax::{capture_views, captures_of, first_group, lookup, Syntax};
use vstd::prelude::*;

verus! {

/// A run of characters: of the token with `id`, or a gap where `id` is `0`.
pub struct Span {
    pub id: usize,
    pub len: usize,
}

/// A span decorated with the positions in the text where it starts and ends.
#[derive(Copy, Clone)]
pub struct Token {
    /// The index of the span.
    pub index: usize,
    /// The position of the span's first character.
    pub start_pos: usize,
    /// The position after the span's last character.
    pub end_pos: usize,
}

/// A position in the tokenized text, with the span that holds it and the color
/// of that span.
#[derive(Copy, Clone)]
pub struct Position {
    /// The position in the text.
    pub pos: usize,
    /// The span that holds the position.
    pub token: Token,
    /// The foreground color of the span's token, or `None` for a gap.
    pub color: Option<u8>,
}

impl Token {
    /// Returns `true` if the span holds `pos`.
    pub fn contains(&self, pos: usize) -> (b: bool)
        ensures
            b == (self.start_pos <= pos < self.end_pos),
    {
        pos >= self.start_pos && pos < self.end_pos
    }
}

impl Position {
    /// Returns the foreground color at this position, or `None` inside a gap.
    pub fn color(&self) -> (c: Option<u8>)
        ensures
            c == self.color,
    {
        self.color
    }
}

/// The spans as (id, length) pairs.
pub open spec fn span_views(spans: Seq<Span>) -> Seq<(usize, usize)> {
    spans.map_values(|s: Span| (s.id, s.len))
}

/// The number of characters in the first `n` spans.
pub open spec fn span_sum(spans: Seq<(usize, usize)>, n: int) -> int
    decreases n,
{
    if n <= 0 || spans.len() == 0 {
        0
    } else if n > spans.len() {
        span_sum(spans, spans.len() as int)
    } else {
        span_sum(spans, n - 1) + spans[n - 1].1
    }
}

/// The state after the captures `caps` of the text `text`: the byte offset after
/// the last token, the position after it, and the spans so far. A capture whose
/// token does not start at or after the last token's end, or that does not lie
/// within the text, is passed over.
pub open spec fn scan(text: Seq<char>, caps: Seq<Seq<Option<(usize, usize)>>>) -> (int, int, Seq<(usize, usize)>)
    decreases caps.len(),
{
    if caps.len() == 0 {
        (0, 0, Seq::empty())
    } else {
        let (offset, pos, spans) = scan(text, caps.drop_last());
        match first_group(caps.last()) {
            Some((k, (s, e))) => if offset <= s && s <= e && e <= encode_utf8_len(text) {
                let sp = pos_of_offset(text, s as int);
                let ep = pos_of_offset(text, e as int);
                let gapped = if sp > pos {
                    spans.push((0usize, (sp - pos) as usize))
                } else {
                    spans
                };
                (e as int, ep, gapped.push(((k + 1) as usize, (ep - sp) as usize)))
            } else {
                (offset, pos, spans)
            },
            None => (offset, pos, spans),
        }
    }
}

/// The spans of `text` given its captures `caps`: a gap before each token that
/// does not follow the previous one directly, the token, and a gap after the last
/// token up to the end; an empty text has a single empty gap.
pub open spec fn spans_of(text: Seq<char>, caps: Seq<Seq<Option<(usize, usize)>>>) -> Seq<(usize, usize)> {
    if text.len() == 0 {
        seq![(0usize, 0usize)]
    } else {
        let (offset, pos, spans) = scan(text, caps);
        if offset < encode_utf8_len(text) {
            spans.push((0usize, (text.len() - pos) as usize))
        } else {
            spans
        }
    }
}

/// Adding a span leaves the sums of the spans before it as they were.
proof fn lemma_sum_push(spans: Seq<(usize, usize)>, x: (usize, usize))
    ensures
        forall|k: int| 0 <= k <= spans.len() ==> #[trigger] span_sum(spans.push(x), k) == span_sum(spans, k),
        span_sum(spans.push(x), spans.len() + 1int) == span_sum(spans, spans.len() as int) + x.1,
{
    assert forall|k: int| 0 <= k <= spans.len() implies #[trigger] span_sum(spans.push(x), k) == span_sum(spans, k) by {
        lemma_sum_push_at(spans, x, k);
    }
    lemma_sum_push_at(spans, x, spans.len() as int);
    assert(spans.push(x)[spans.len() as int] == x);
}

proof fn lemma_sum_push_at(spans: Seq<(usize, usize)>, x: (usize, usize), k: int)
    requires
        0 <= k <= spans.len(),
    ensures
        span_sum(spans.push(x), k) == span_sum(spans, k),
    decreases k,
{
    if k > 0 {
        lemma_sum_push_at(spans, x, k - 1);
    }
}

/// Returns the position of the first character of `cs` from `pos` on that starts
/// at or after byte `target`, with the byte at which it starts; `cur` is the byte
/// at which position `pos` starts.
fn advance(cs: &Vec<char>, pos: usize, cur: usize, target: usize, total: usize) -> (r: (usize, usize))
    requires
        pos <= cs@.len(),
        cur == offset_of_pos(cs@, pos as int),
        total == vstd::utf8::encode_utf8(cs@).len(),
    ensures
        r.0 == pos_from(cs@, target as int, pos as int),
        r.1 == offset_of_pos(cs@, r.0 as int),
        pos <= r.0 <= cs@.len(),
{
    let mut p = pos;
    let mut c = cur;
    while p < cs.len() && c < target
        invariant
            pos <= p <= cs@.len(),
            c == offset_of_pos(cs@, p as int),
            total == vstd::utf8::encode_utf8(cs@).len(),
            pos_from(cs@, target as int, pos as int) == pos_from(cs@, target as int, p as int),
        decreases cs@.len() - p,
    {
        proof {
            crate::etc::lemma_offset_step(cs@, p as int);
            crate::etc::lemma_offset_bound(cs@, p + 1);
        }
        c = c + len_utf8(cs[p]);
        p = p + 1;
    }
    (p, c)
}

/// The index of the span that a forward search from span `i` finds for `pos`:
/// the first from `i` on that ends after `pos`, or the last.
pub open spec fn fwd_index(spans: Seq<(usize, usize)>, i: int, pos: int) -> int
    decreases spans.len() - i,
{
    if i < 0 || i + 1 >= spans.len() || pos < span_sum(spans, i + 1) {
        i
    } else {
        fwd_index(spans, i + 1, pos)
    }
}

/// The index of the span that a backward search from span `i` finds for `pos`:
/// the last up to `i` that starts at or before `pos`, or the first.
pub open spec fn bwd_index(spans: Seq<(usize, usize)>, i: int, pos: int) -> int
    decreases i,
{
    if i <= 0 || span_sum(spans, i) <= pos {
        i
    } else {
        bwd_index(spans, i - 1, pos)
    }
}

/// One more span adds its length.
proof fn lemma_sum_step(spans: Seq<(usize, usize)>, k: int)
    requires
        0 <= k < spans.len(),
    ensures
        span_sum(spans, k + 1) == span_sum(spans, k) + spans[k].1,
{
}

/// Sums grow with the number of spans and stay within the total.
proof fn lemma_sum_mono(spans: Seq<(usize, usize)>, j: int, k: int)
    requires
        0 <= j <= k <= spans.len(),
    ensures
        0 <= span_sum(spans, j) <= span_sum(spans, k),
    decreases k - j,
{
    if j < k {
        lemma_sum_mono(spans, j, k - 1);
        lemma_sum_step(spans, k - 1);
    } else if j > 0 {
        lemma_sum_nonneg(spans, j);
    }
}

proof fn lemma_sum_nonneg(spans: Seq<(usize, usize)>, k: int)
    ensures
        span_sum(spans, k) >= 0,
    decreases k,
{
    if k > 0 && spans.len() > 0 {
        if k > spans.len() {
            lemma_sum_nonneg(spans, spans.len() as int);
        } else {
            lemma_sum_nonneg(spans, k - 1);
        }
    }
}

/// A forward search from a span that starts at or before `pos` finds a span that
/// starts at or before `pos` and ends after it, or the last span.
proof fn lemma_fwd(spans: Seq<(usize, usize)>, i: int, pos: int)
    requires
        0 <= i < spans.len(),
        span_sum(spans, i) <= pos,
    ensures
        i <= fwd_index(spans, i, pos) < spans.len(),
        span_sum(spans, fwd_index(spans, i, pos)) <= pos,
        pos < span_sum(spans, fwd_index(spans, i, pos) + 1) || fwd_index(spans, i, pos) == spans.len() - 1,
    decreases spans.len() - i,
{
    if !(i + 1 >= spans.len() || pos < span_sum(spans, i + 1)) {
        lemma_fwd(spans, i + 1, pos);
    }
}

/// A backward search for a position before the end of span `i` finds a span that
/// starts at or before it and ends after it.
proof fn lemma_bwd(spans: Seq<(usize, usize)>, i: int, pos: int)
    requires
        0 <= i < spans.len(),
        0 <= pos < span_sum(spans, i + 1),
    ensures
        0 <= bwd_index(spans, i, pos) <= i,
        span_sum(spans, bwd_index(spans, i, pos)) <= pos < span_sum(spans, bwd_index(spans, i, pos) + 1),
    decreases i,
{
    if !(i <= 0 || span_sum(spans, i) <= pos) {
        lemma_bwd(spans, i - 1, pos);
    }
}

/// Changing the length of span `j` changes the sums that include it by as much.
proof fn lemma_sum_update(spans: Seq<(usize, usize)>, j: int, x: (usize, usize), k: int)
    requires
        0 <= j < spans.len(),
        0 <= k <= spans.len(),
    ensures
        k <= j ==> span_sum(spans.update(j, x), k) == span_sum(spans, k),
        k > j ==> span_sum(spans.update(j, x), k) == span_sum(spans, k) - spans[j].1 + x.1,
    decreases k,
{
    if k > 0 {
        lemma_sum_update(spans, j, x, k - 1);
    }
}

/// The sums of a concatenation: those of the first part, then its total plus those
/// of the second part.
proof fn lemma_sum_concat(a: Seq<(usize, usize)>, b: Seq<(usize, usize)>, k: int)
    requires
        0 <= k <= a.len() + b.len(),
    ensures
        k <= a.len() ==> span_sum(a + b, k) == span_sum(a, k),
        k > a.len() ==> span_sum(a + b, k) == span_sum(a, a.len() as int) + span_sum(b, k - a.len()),
    decreases k,
{
    if k > 0 {
        lemma_sum_concat(a, b, k - 1);
        if k > a.len() {
            assert((a + b)[k - 1] == b[k - 1 - a.len()]);
            lemma_sum_step(b, k - 1 - a.len());
            assert(span_sum(b, 0) == 0);
        } else {
            assert((a + b)[k - 1] == a[k - 1]);
        }
    }
}

/// The sums of a run of spans are differences of the sums of the whole.
proof fn lemma_sum_subrange(spans: Seq<(usize, usize)>, x: int, y: int, k: int)
    requires
        0 <= x <= y <= spans.len(),
        0 <= k <= y - x,
    ensures
        span_sum(spans.subrange(x, y), k) == span_sum(spans, x + k) - span_sum(spans, x),
    decreases k,
{
    if k > 0 {
        lemma_sum_subrange(spans, x, y, k - 1);
        assert(spans.subrange(x, y)[k - 1] == spans[x + k - 1]);
    }
}

/// The spans after removing the characters from `ppos`, in span `i`, to `qpos`, in
/// a later span `e`: span `i` keeps what lies before `ppos` and span `e` what lies
/// from `qpos` on; the spans between them, and `i` and `e` where nothing of them
/// is kept, are dropped; a single empty gap stands in for no spans at all. Also
/// the index of the first span after the removal point.
pub open spec fn cut_spans(spans: Seq<(usize, usize)>, i: int, ppos: int, e: int, qpos: int) -> (
    Seq<(usize, usize)>,
    int,
) {
    let start_i = span_sum(spans, i);
    let end_e = span_sum(spans, e + 1);
    let s1 = if ppos > start_i {
        spans.update(i, (spans[i].0, (ppos - start_i) as usize))
    } else {
        spans
    };
    let si = if ppos > start_i { i + 1 } else { i };
    let s2 = if qpos < end_e {
        s1.update(e, (spans[e].0, (end_e - qpos) as usize))
    } else {
        s1
    };
    let ei = if qpos < end_e { e - 1 } else { e };
    if si <= ei {
        let d = s2.subrange(0, si) + s2.subrange(ei + 1, s2.len() as int);
        if d.len() == 0 {
            (seq![(0usize, 0usize)], si)
        } else {
            (d, si)
        }
    } else {
        (s2, si)
    }
}

/// The span that holds the removal point `ppos` after the removal: the first
/// span after it, or the one before it where no span follows.
pub open spec fn token_after(spans: Seq<(usize, usize)>, si: int, ppos: int) -> Token {
    if si < spans.len() {
        Token { index: si as usize, start_pos: ppos as usize, end_pos: (ppos + spans[si].1) as usize }
    } else {
        Token {
            index: (si - 1) as usize,
            start_pos: (ppos - spans[si - 1].1) as usize,
            end_pos: ppos as usize,
        }
    }
}

/// What cutting spans keeps: at least one span, as many characters as there were
/// less those removed, the removal point right before the first span after it,
/// and no id that was not there.
proof fn lemma_cut(spans: Seq<(usize, usize)>, i: int, ppos: int, e: int, qpos: int, m: nat)
    requires
        0 <= i < e < spans.len(),
        span_sum(spans, i) <= ppos <= span_sum(spans, i + 1),
        span_sum(spans, e) <= qpos <= span_sum(spans, e + 1),
        forall|j: int| 0 <= j < spans.len() ==> #[trigger] spans[j].0 <= m,
    ensures
        ({
            let (cut, si) = cut_spans(spans, i, ppos, e, qpos);
            &&& cut.len() > 0
            &&& span_sum(cut, cut.len() as int) == span_sum(spans, spans.len() as int) - (qpos - ppos)
            &&& 0 <= si <= cut.len()
            &&& si == cut.len() ==> si >= 1
            &&& span_sum(cut, si) == ppos
            &&& forall|j: int| 0 <= j < cut.len() ==> #[trigger] cut[j].0 <= m
        }),
{
    let len = spans.len() as int;
    let start_i = span_sum(spans, i);
    let end_i = span_sum(spans, i + 1);
    let start_e = span_sum(spans, e);
    let end_e = span_sum(spans, e + 1);
    lemma_sum_step(spans, i);
    lemma_sum_step(spans, e);
    lemma_sum_mono(spans, i + 1, e);
    lemma_sum_mono(spans, e + 1, len);
    let trim_start = ppos > start_i;
    let trim_end = qpos < end_e;
    let x1 = (spans[i].0, (ppos - start_i) as usize);
    let s1 = if trim_start { spans.update(i, x1) } else { spans };
    let si = if trim_start { i + 1 } else { i };
    let x2 = (spans[e].0, (end_e - qpos) as usize);
    let s2 = if trim_end { s1.update(e, x2) } else { s1 };
    let ei = if trim_end { e - 1 } else { e };
    // Sums of s1: unchanged up to i, less the trimmed tail of span i after it.
    let t1 = if trim_start { end_i - ppos } else { 0 };
    assert forall|k: int| 0 <= k <= len implies #[trigger] span_sum(s1, k) == (if k > i { span_sum(spans, k) - t1 } else { span_sum(spans, k) }) by {
        if trim_start {
            lemma_sum_update(spans, i, x1, k);
        }
    }
    assert(s1.len() == len);
    assert(s1[e] == spans[e]);
    // Sums of s2: unchanged up to e, less the trimmed head of span e after it.
    let t2 = if trim_end { qpos - start_e } else { 0 };
    assert forall|k: int| 0 <= k <= len implies #[trigger] span_sum(s2, k) == (if k > e { span_sum(s1, k) - t2 } else { span_sum(s1, k) }) by {
        if trim_end {
            lemma_sum_update(s1, e, x2, k);
        }
    }
    assert(s2.len() == len);
    assert(span_sum(s2, si) == ppos);
    assert(span_sum(s2, len) == span_sum(spans, len) - t1 - t2);
    assert forall|j: int| 0 <= j < len implies #[trigger] s2[j].0 <= m by {
        assert(s2[j].0 == spans[j].0);
    }
    if si <= ei {
        let a = s2.subrange(0, si);
        let b = s2.subrange(ei + 1, len);
        let d = a + b;
        lemma_sum_subrange(s2, 0, si, si);
        lemma_sum_subrange(s2, ei + 1, len, len - ei - 1);
        lemma_sum_concat(a, b, d.len() as int);
        lemma_sum_concat(a, b, si);
        assert(span_sum(s2, 0) == 0);
        assert(span_sum(s2, ei + 1) == span_sum(spans, ei + 1) - t1);
        if trim_end {
            assert(span_sum(spans, ei + 1) == start_e);
        } else {
            assert(span_sum(spans, ei + 1) == end_e);
        }
        assert(span_sum(d, d.len() as int) == span_sum(spans, len) - (qpos - ppos));
        assert forall|j: int| 0 <= j < d.len() implies #[trigger] d[j].0 <= m by {
            if j < si {
                assert(d[j] == s2[j]);
            } else {
                assert(d[j] == s2[ei + 1 + j - si]);
            }
        }
        if d.len() == 0 {
            let g = seq![(0usize, 0usize)];
            assert(span_sum(g, 0) == 0);
            assert(span_sum(g, 1) == 0);
        }
    } else {
        assert(si == i + 1 && ei == i && e == i + 1);
    }
}

/// Returns the number of characters in the first `n` spans.
fn span_sum_exec(spans: &Vec<Span>, n: usize) -> (r: usize)
    requires
        n <= spans@.len(),
        span_sum(span_views(spans@), n as int) <= usize::MAX,
    ensures
        r == span_sum(span_views(spans@), n as int),
{
    let ghost sv = span_views(spans@);
    let mut k: usize = 0;
    let mut total: usize = 0;
    proof {
        lemma_sum_mono(sv, 0, n as int);
    }
    while k < n
        invariant
            sv == span_views(spans@),
            k <= n <= spans@.len(),
            total == span_sum(sv, k as int),
            span_sum(sv, n as int) <= usize::MAX,
        decreases n - k,
    {
        proof {
            lemma_sum_step(sv, k as int);
            lemma_sum_mono(sv, k + 1, n as int);
        }
        total = total + spans[k].len;
        k = k + 1;
    }
    total
}

/// A means of tokenizing the contents of a [`Buffer`].
pub struct Tokenizer {
    /// The syntax configuration that drives tokenization.
    syntax: Syntax,
    /// The number of characters tokenized.
    chars: usize,
    /// The spans generated during tokenization.
    spans: Vec<Span>,
}

impl Tokenizer {
    /// The spans as (id, length) pairs.
    pub closed spec fn spans(&self) -> Seq<(usize, usize)> {
        span_views(self.spans@)
    }

    /// The number of characters tokenized.
    pub closed spec fn size(&self) -> nat {
        self.chars as nat
    }

    /// The syntax that drives tokenization.
    pub closed spec fn syntax_spec(&self) -> &Syntax {
        &self.syntax
    }

    /// The tokenizer holds spans that cover exactly the characters tokenized, each
    /// of a token of the syntax or a gap.
    pub open spec fn ready(&self) -> bool {
        &&& self.syntax_spec().wf()
        &&& self.spans().len() > 0
        &&& span_sum(self.spans(), self.spans().len() as int) == self.size()
        &&& forall|i: int|
            0 <= i < self.spans().len() ==> #[trigger] self.spans()[i].0 <= self.syntax_spec().token_list().len()
    }

    /// The position of the first character of span `i`.
    pub open spec fn start_of(&self, i: int) -> int {
        span_sum(self.spans(), i)
    }

    /// The position after the last character of span `i`.
    pub open spec fn end_of(&self, i: int) -> int {
        span_sum(self.spans(), i + 1)
    }

    /// The foreground color of span `i`'s token, or `None` for a gap.
    pub open spec fn color_of(&self, i: int) -> Option<u8> {
        let id = self.spans()[i].0;
        if id == 0 {
            None
        } else {
            Some(self.syntax_spec().token_list()[id - 1].1.fg)
        }
    }

    /// `t` decorates span `t.index` with its bounds.
    pub open spec fn token_ok(&self, t: Token) -> bool {
        &&& t.index < self.spans().len()
        &&& t.start_pos == self.start_of(t.index as int)
        &&& t.end_pos == self.end_of(t.index as int)
    }

    /// `p` is a position within the tokenized text whose token and color are those
    /// of a span that holds it, at one of its ends at most.
    pub open spec fn valid(&self, p: Position) -> bool {
        &&& self.token_ok(p.token)
        &&& p.token.start_pos <= p.pos <= p.token.end_pos
        &&& p.pos <= self.size()
        &&& p.color == self.color_of(p.token.index as int)
    }

    /// Creates a tokenizer driven by `syntax`, which has not tokenized anything.
    pub fn new(syntax: Syntax) -> (t: Tokenizer)
        ensures
            t.syntax_spec() == syntax,
            t.size() == 0,
            t.spans().len() == 0,
    {
        Tokenizer { syntax, chars: 0, spans: Vec::new() }
    }

    /// Returns the foreground color of span `index`'s token, or `None` for a gap.
    pub fn color(&self, index: usize) -> (c: Option<u8>)
        requires
            self.ready(),
            index < self.spans().len(),
        ensures
            c == self.color_of(index as int),
    {
        let id = self.spans[index].id;
        assert(id == self.spans()[index as int].0);
        match self.syntax.color(id) {
            Some(color) => Some(color.fg),
            None => None,
        }
    }

    /// Tokenizes the text of `buffer` and returns the position at its start.
    pub fn tokenize(&mut self, buffer: &Buffer) -> (p: Position)
        requires
            buffer.wf(),
            old(self).syntax_spec().wf(),
        ensures
            final(self).syntax_spec() == old(self).syntax_spec(),
            final(self).ready(),
            final(self).size() == buffer@.len(),
            final(self).spans() == spans_of(
                buffer@,
                captures_of(old(self).syntax_spec().source(), buffer@, old(self).syntax_spec().group_names()),
            ),
            final(self).valid(p),
            p.pos == 0,
            p.token.index == 0,
    {
        let n = buffer.size();
        let ghost text = buffer@;
        let ghost caps_all = captures_of(self.syntax.source(), text, self.syntax.group_names());
        let ghost ntok = self.syntax.token_list().len();
        let mut spans: Vec<Span> = Vec::new();
        if n > 0 {
            let s = buffer_text(buffer);
            let cs = chars_of(s.as_str());
            let total = s.as_str().as_bytes().len();
            let caps = self.syntax.captures(s.as_str());
            let mut offset: usize = 0;
            let mut pos: usize = 0;
            let mut cur: usize = 0;
            let mut i: usize = 0;
            assert(capture_views(caps@).take(0) =~= Seq::<Seq<Option<(usize, usize)>>>::empty());
            assert(span_views(spans@) =~= Seq::<(usize, usize)>::empty());
            proof {
                crate::etc::lemma_pos_from(text, 0, 0);
            }
            while i < caps.len()
                invariant
                    cs@ == text,
                    text.len() == n,
                    total == vstd::utf8::encode_utf8(text).len(),
                    capture_views(caps@) == caps_all,
                    forall|j: int| 0 <= j < caps@.len() ==> (#[trigger] caps@[j])@.len() == ntok,
                    i <= caps@.len(),
                    scan(text, caps_all.take(i as int)) == (offset as int, pos as int, span_views(spans@)),
                    offset <= total,
                    pos <= n,
                    pos == pos_of_offset(text, offset as int),
                    cur == offset_of_pos(text, pos as int),
                    span_sum(span_views(spans@), spans@.len() as int) == pos,
                    forall|j: int| 0 <= j < spans@.len() ==> #[trigger] spans@[j].id <= ntok,
                decreases caps@.len() - i,
            {
                let ghost before = span_views(spans@);
                assert(caps_all.take(i + 1).drop_last() =~= caps_all.take(i as int));
                assert(caps_all.take(i + 1).last() == caps@[i as int]@);
                match lookup(&caps[i]) {
                    Some((id, (start, end))) => {
                        if offset <= start && start <= end && end <= total {
                            proof {
                                crate::etc::lemma_pos_from(text, offset as int, 0);
                                crate::etc::lemma_pos_from_skip(text, start as int, pos as int);
                            }
                            let (sp, c1) = advance(&cs, pos, cur, start, total);
                            proof {
                                crate::etc::lemma_pos_from(text, start as int, 0);
                                crate::etc::lemma_pos_from_skip(text, end as int, sp as int);
                            }
                            if sp > pos {
                                proof {
                                    lemma_sum_push(span_views(spans@), (0usize, (sp - pos) as usize));
                                }
                                spans.push(Span { id: 0, len: sp - pos });
                                assert(span_views(spans@) =~= before.push((0usize, (sp - pos) as usize)));
                            }
                            let ghost gapped = span_views(spans@);
                            let (ep, c2) = advance(&cs, sp, c1, end, total);
                            proof {
                                lemma_sum_push(gapped, (id, (ep - sp) as usize));
                            }
                            spans.push(Span { id, len: ep - sp });
                            assert(span_views(spans@) =~= gapped.push((id, (ep - sp) as usize)));
                            offset = end;
                            pos = ep;
                            cur = c2;
                        }
                    },
                    None => {},
                }
                i = i + 1;
            }
            assert(caps_all.take(caps@.len() as int) =~= caps_all);
            if offset < total {
                let ghost before = span_views(spans@);
                proof {
                    lemma_sum_push(before, (0usize, (n - pos) as usize));
                }
                spans.push(Span { id: 0, len: n - pos });
                assert(span_views(spans@) =~= before.push((0usize, (n - pos) as usize)));
            } else {
                proof {
                    crate::etc::lemma_pos_of_offset_end(text);
                    assert(pos == n);
                    if spans@.len() == 0 {
                        assert(span_views(spans@) =~= Seq::<(usize, usize)>::empty());
                    }
                }
            }
        } else {
            spans.push(Span { id: 0, len: 0 });
            assert(span_views(spans@) =~= seq![(0usize, 0usize)]);
            assert(span_sum(span_views(spans@), 0) == 0);
        }
        assert(spans@.len() > 0);
        assert(span_sum(span_views(spans@), spans@.len() as int) == n);
        self.spans = spans;
        self.chars = n;
        let first = self.spans[0].len;
        assert(span_sum(self.spans(), 0) == 0);
        assert(span_sum(self.spans(), 1) == first);
        let color = self.color(0);
        Position { pos: 0, token: Token { index: 0, start_pos: 0, end_pos: first }, color }
    }

    /// The position that [`find`](Self::find) gives for `pos` from `p`: `pos`,
    /// held to the end of the text, in the span that holds it, searched from
    /// `p`'s span backward or forward.
    pub open spec fn found(&self, p: Position, pos: int) -> Position {
        let q = if pos < self.size() { pos } else { self.size() as int };
        if p.token.start_pos <= q < p.token.end_pos {
            Position { pos: q as usize, ..p }
        } else {
            let i = if q < p.pos {
                bwd_index(self.spans(), p.token.index as int, q)
            } else {
                fwd_index(self.spans(), p.token.index as int, q)
            };
            Position {
                pos: q as usize,
                token: Token {
                    index: i as usize,
                    start_pos: self.start_of(i) as usize,
                    end_pos: self.end_of(i) as usize,
                },
                color: self.color_of(i),
            }
        }
    }

    /// Returns the span that a forward search from `from` finds for `pos`.
    fn find_forward(&self, from: Token, pos: usize) -> (t: Token)
        requires
            self.ready(),
            self.token_ok(from),
            from.start_pos <= pos <= self.size(),
        ensures
            t.index == fwd_index(self.spans(), from.index as int, pos as int),
            self.token_ok(t),
    {
        proof {
            lemma_fwd(self.spans(), from.index as int, pos as int);
        }
        let mut t = from;
        let n = self.spans.len();
        while t.index + 1 < n && pos >= t.end_pos
            invariant
                self.ready(),
                n == self.spans().len(),
                self.token_ok(t),
                from.index <= t.index,
                t.start_pos <= pos <= self.size(),
                fwd_index(self.spans(), from.index as int, pos as int) == fwd_index(
                    self.spans(),
                    t.index as int,
                    pos as int,
                ),
            decreases n - t.index,
        {
            let next = t.index + 1;
            proof {
                lemma_sum_step(self.spans(), next as int);
                lemma_sum_mono(self.spans(), next + 1, n as int);
            }
            let len = self.spans[next].len;
            assert(len == self.spans()[next as int].1);
            t = Token { index: next, start_pos: t.end_pos, end_pos: t.end_pos + len };
        }
        t
    }

    /// Returns the span that a backward search from `from` finds for `pos`.
    fn find_backward(&self, from: Token, pos: usize) -> (t: Token)
        requires
            self.ready(),
            self.token_ok(from),
            pos < from.end_pos,
        ensures
            t.index == bwd_index(self.spans(), from.index as int, pos as int),
            self.token_ok(t),
    {
        let mut t = from;
        while t.index > 0 && pos < t.start_pos
            invariant
                self.ready(),
                self.token_ok(t),
                pos < t.end_pos,
                bwd_index(self.spans(), from.index as int, pos as int) == bwd_index(
                    self.spans(),
                    t.index as int,
                    pos as int,
                ),
            decreases t.index,
        {
            let prev = t.index - 1;
            proof {
                lemma_sum_step(self.spans(), prev as int);
                lemma_sum_mono(self.spans(), 0, prev as int);
            }
            let len = self.spans[prev].len;
            assert(len == self.spans()[prev as int].1);
            t = Token { index: prev, start_pos: t.start_pos - len, end_pos: t.start_pos };
        }
        t
    }

    /// Finds the position `pos`, held to the end of the text, relative to `p`.
    pub fn find(&self, p: Position, pos: usize) -> (r: Position)
        requires
            self.ready(),
            self.valid(p),
        ensures
            r == self.found(p, pos as int),
            self.valid(r),
    {
        let q = if pos < self.chars { pos } else { self.chars };
        if p.token.contains(q) {
            Position { pos: q, ..p }
        } else {
            let token = if q < p.pos {
                proof {
                    lemma_sum_mono(self.spans(), 0, p.token.index as int);
                    lemma_bwd(self.spans(), p.token.index as int, q as int);
                }
                self.find_backward(p.token, q)
            } else {
                proof {
                    lemma_fwd(self.spans(), p.token.index as int, q as int);
                    lemma_sum_mono(self.spans(), p.token.index + 1, self.spans().len() as int);
                }
                self.find_forward(p.token, q)
            };
            proof {
                let i = token.index as int;
                if q < p.pos {
                    lemma_bwd(self.spans(), p.token.index as int, q as int);
                } else {
                    lemma_fwd(self.spans(), p.token.index as int, q as int);
                }
            }
            let color = self.color(token.index);
            Position { pos: q, token, color }
        }
    }

    /// Finds the position `n` characters after `p`.
    pub fn forward(&self, p: Position, n: usize) -> (r: Position)
        requires
            self.ready(),
            self.valid(p),
            p.pos + n <= usize::MAX,
        ensures
            r == self.found(p, p.pos + n),
            self.valid(r),
    {
        self.find(p, p.pos + n)
    }

    /// Finds the position `n` characters before `p`, or the start.
    pub fn backward(&self, p: Position, n: usize) -> (r: Position)
        requires
            self.ready(),
            self.valid(p),
        ensures
            r == self.found(p, if p.pos >= n { p.pos - n } else { 0 }),
            self.valid(r),
    {
        let pos = if p.pos >= n { p.pos - n } else { 0 };
        self.find(p, pos)
    }

    /// Inserts `len` characters at `p` by lengthening the span that holds it,
    /// returning the updated position.
    pub fn insert(&mut self, p: Position, len: usize) -> (r: Position)
        requires
            old(self).ready(),
            old(self).valid(p),
            old(self).size() + len <= usize::MAX,
        ensures
            final(self).ready(),
            final(self).syntax_spec() == old(self).syntax_spec(),
            final(self).valid(r),
            len == 0 ==> final(self).spans() == old(self).spans() && final(self).size() == old(self).size()
                && r == p,
            len > 0 ==> {
                let i = p.token.index as int;
                &&& final(self).spans() == old(self).spans().update(i, (old(self).spans()[i].0, (old(self).spans()[i].1 + len) as usize))
                &&& final(self).size() == old(self).size() + len
                &&& r == (Position { token: Token { end_pos: (p.token.end_pos + len) as usize, ..p.token }, ..p })
            },
    {
        if len > 0 {
            let i = p.token.index;
            let ghost sp = self.spans();
            let ghost x = (sp[i as int].0, (sp[i as int].1 + len) as usize);
            proof {
                lemma_sum_step(sp, i as int);
                lemma_sum_mono(sp, i + 1, sp.len() as int);
            }
            let span = Span { id: self.spans[i].id, len: self.spans[i].len + len };
            self.spans.set(i, span);
            self.chars = self.chars + len;
            proof {
                assert(self.spans() =~= sp.update(i as int, x));
                lemma_sum_update(sp, i as int, x, i as int);
                lemma_sum_update(sp, i as int, x, i + 1);
                lemma_sum_update(sp, i as int, x, sp.len() as int);
                assert forall|k: int| 0 <= k < self.spans().len() implies #[trigger] self.spans()[k].0
                    <= self.syntax_spec().token_list().len() by {
                    assert(self.spans()[k].0 == sp[k].0);
                }
            }
            Position { token: Token { end_pos: p.token.end_pos + len, ..p.token }, ..p }
        } else {
            p
        }
    }

    /// The spans, the span at `p` and the number of characters removed when `len`
    /// characters, or as many as there are, are removed at `p`.
    pub open spec fn removal(&self, p: Position, len: int) -> (Seq<(usize, usize)>, Token, int) {
        let q = self.found(p, p.pos + len);
        let n = q.pos - p.pos;
        let i = p.token.index as int;
        if q.token.index == p.token.index {
            (
                self.spans().update(i, (self.spans()[i].0, (self.spans()[i].1 - n) as usize)),
                Token { end_pos: (p.token.end_pos - n) as usize, ..p.token },
                n,
            )
        } else {
            let (cut, si) = cut_spans(self.spans(), i, p.pos as int, q.token.index as int, q.pos as int);
            (cut, token_after(cut, si, p.pos as int), n)
        }
    }

    /// Sets the length of span `i` to `len`, keeping its id.
    fn set_len(&mut self, i: usize, len: usize)
        requires
            i < old(self).spans().len(),
        ensures
            final(self).spans() == old(self).spans().update(i as int, (old(self).spans()[i as int].0, len)),
            final(self).size() == old(self).size(),
            final(self).syntax_spec() == old(self).syntax_spec(),
    {
        let span = Span { id: self.spans[i].id, len };
        self.spans.set(i, span);
        assert(self.spans() =~= old(self).spans().update(i as int, (old(self).spans()[i as int].0, len)));
    }

    /// Cuts the spans for a removal from `ppos`, in span `i`, to `qpos`, in the
    /// later span `e`, returning the index of the first span after the removal
    /// point.
    fn cut(&mut self, i: usize, ppos: usize, e: usize, qpos: usize) -> (si: usize)
        requires
            0 <= i < e < old(self).spans().len(),
            old(self).start_of(i as int) <= ppos <= old(self).end_of(i as int),
            old(self).start_of(e as int) <= qpos <= old(self).end_of(e as int),
            old(self).end_of(e as int) <= usize::MAX,
        ensures
            (final(self).spans(), si as int) == cut_spans(old(self).spans(), i as int, ppos as int, e as int, qpos as int),
            final(self).size() == old(self).size(),
            final(self).syntax_spec() == old(self).syntax_spec(),
    {
        let ghost sp = self.spans();
        let _ = self.spans.len();
        let start_i = span_sum_exec(&self.spans, i);
        let end_e = span_sum_exec(&self.spans, e + 1);
        let si = if ppos > start_i {
            self.set_len(i, ppos - start_i);
            i + 1
        } else {
            i
        };
        let ei = if qpos < end_e {
            self.set_len(e, end_e - qpos);
            e - 1
        } else {
            e
        };
        let ghost s2 = self.spans();
        assert(self.spans@.len() == s2.len());
        if si <= ei {
            let mut tail = self.spans.split_off(ei + 1);
            self.spans.truncate(si);
            self.spans.append(&mut tail);
            assert(self.spans() =~= s2.subrange(0, si as int) + s2.subrange(ei + 1, s2.len() as int));
            if self.spans.len() == 0 {
                self.spans.push(Span { id: 0, len: 0 });
                assert(self.spans() =~= seq![(0usize, 0usize)]);
            }
        }
        si
    }

    /// Removes `len` characters at `p`, or as many as there are, shortening or
    /// dropping the spans they were in, and returns the updated position.
    pub fn remove(&mut self, p: Position, len: usize) -> (r: Position)
        requires
            old(self).ready(),
            old(self).valid(p),
            p.pos + len <= usize::MAX,
        ensures
            final(self).ready(),
            final(self).syntax_spec() == old(self).syntax_spec(),
            final(self).valid(r),
            len == 0 ==> final(self).spans() == old(self).spans() && final(self).size() == old(self).size()
                && r == p,
            len > 0 ==> {
                let (spans, token, n) = old(self).removal(p, len as int);
                &&& final(self).spans() == spans
                &&& final(self).size() == old(self).size() - n
                &&& r.pos == p.pos
                &&& r.token == token
            },
    {
        if len > 0 {
            let count = self.spans.len();
            let end_p = self.find(p, p.pos + len);
            proof {
                assert(end_p.pos >= p.pos);
                if !(p.token.start_pos <= end_p.pos < p.token.end_pos) {
                    lemma_fwd(self.spans(), p.token.index as int, end_p.pos as int);
                    assert(end_p.token.index >= p.token.index);
                }
                lemma_sum_mono(self.spans(), end_p.token.index + 1, self.spans().len() as int);
                lemma_sum_mono(self.spans(), p.token.index as int, p.token.index + 1);
            }
            let n = end_p.pos - p.pos;
            let i = p.token.index;
            let e = end_p.token.index;
            let ghost sp = self.spans();
            let ghost m = self.syntax_spec().token_list().len();
            let token = if i == e {
                proof {
                    lemma_sum_step(sp, i as int);
                }
                let l = self.spans[i].len;
                assert(l == sp[i as int].1);
                self.set_len(i, l - n);
                proof {
                    let x = (sp[i as int].0, (l - n) as usize);
                    lemma_sum_update(sp, i as int, x, i as int);
                    lemma_sum_update(sp, i as int, x, i + 1);
                    lemma_sum_update(sp, i as int, x, sp.len() as int);
                    assert forall|k: int| 0 <= k < self.spans().len() implies #[trigger] self.spans()[k].0 <= m by {
                        assert(self.spans()[k].0 == sp[k].0);
                    }
                }
                Token { end_pos: p.token.end_pos - n, ..p.token }
            } else {
                proof {
                    lemma_cut(sp, i as int, p.pos as int, e as int, end_p.pos as int, m);
                }
                let si = self.cut(i, p.pos, e, end_p.pos);
                proof {
                    if si < self.spans().len() {
                        lemma_sum_step(self.spans(), si as int);
                        lemma_sum_mono(self.spans(), si + 1, self.spans().len() as int);
                    } else {
                        lemma_sum_step(self.spans(), si - 1);
                        lemma_sum_mono(self.spans(), 0, si - 1);
                    }
                }
                if si < self.spans.len() {
                    let l = self.spans[si].len;
                    Token { index: si, start_pos: p.pos, end_pos: p.pos + l }
                } else {
                    let l = self.spans[si - 1].len;
                    Token { index: si - 1, start_pos: p.pos - l, end_pos: p.pos }
                }
            };
            self.chars = self.chars - n;
            let color = self.color(token.index);
            Position { pos: p.pos, token, color }
        } else {
            p
        }
    }

    /// Returns the syntax configuration.
    pub fn syntax(&self) -> (s: &Syntax)
        ensures
            s == self.syntax_spec(),
    {
        &self.syntax
    }

    /// Returns the number of characters tokenized.
    pub fn chars(&self) -> (n: usize)
        ensures
            n == self.size(),
    {
        self.chars
    }

    /// Returns the span at `index` as an (id, length) pair.
    pub fn span(&self, index: usize) -> (s: (usize, usize))
        requires
            index < self.spans().len(),
        ensures
            s == self.spans()[index as int],
    {
        (self.spans[index].id, self.spans[index].len)
    }

    /// Returns the number of spans.
    pub fn span_count(&self) -> (n: usize)
        ensures
            n == self.spans().len(),
    {
        self.spans.len()
    }
}

/// The syntax colors of the positions that spans `0..n` of `t` cover, in order:
/// each position the color of its span's token, `None` in a gap.
pub open spec fn span_colors(t: Tokenizer, n: int) -> Seq<Option<u8>>
    decreases n,
{
    if n <= 0 {
        Seq::empty()
    } else {
        span_colors(t, n - 1) + Seq::new(t.spans()[n - 1].1 as nat, |k: int| t.color_of(n - 1))
    }
}

impl Tokenizer {
    /// Returns the syntax color of every position tokenized, in order.
    pub fn colors(&self) -> (v: Vec<Option<u8>>)
        requires
            self.ready(),
        ensures
            v@ == span_colors(*self, self.spans().len() as int),
    {
        let mut v: Vec<Option<u8>> = Vec::new();
        let n = self.spans.len();
        let mut i: usize = 0;
        while i < n
            invariant
                self.ready(),
                n == self.spans().len(),
                i <= n,
                v@ == span_colors(*self, i as int),
            decreases n - i,
        {
            let (_, len) = self.span(i);
            let c = self.color(i);
            let ghost before = v@;
            let mut k: usize = 0;
            while k < len
                invariant
                    k <= len,
                    v@ == before + Seq::new(k as nat, |x: int| c),
                decreases len - k,
            {
                v.push(c);
                k = k + 1;
                assert(v@ =~= before + Seq::new(k as nat, |x: int| c));
            }
            proof {
                assert(span_colors(*self, i + 1) =~= before + Seq::new(len as nat, |x: int| self.color_of(i as int)));
            }
            i = i + 1;
        }
        v
    }
}

} // verus!

//! Conversions between character positions and byte offsets in `UTF-8` text.

use crate::buffer::{char_to_u32, lemma_encode_utf8_push, utf8_of_char};
use crate::strings::{chars_of, push_str};
use vstd::prelude::*;
use vstd::utf8::*;

verus! {

/// The byte offset in the `UTF-8` encoding of `s` at which its `pos`-th character
/// starts: the length of the encoding of the characters before it, or of all of
/// `s` when it holds fewer than `pos` characters.
pub open spec fn offset_of_pos(s: Seq<char>, pos: int) -> int {
    encode_utf8(s.take(if pos < s.len() { pos } else { s.len() as int })).len() as int
}

/// The first position from `k` on at which a character of `s` starts at or after
/// byte `offset`, or `s.len()`.
pub open spec fn pos_from(s: Seq<char>, offset: int, k: int) -> int
    decreases s.len() - k,
{
    if k >= s.len() || offset_of_pos(s, k) >= offset {
        k
    } else {
        pos_from(s, offset, k + 1)
    }
}

/// The number of characters of `s` that start before byte `offset` of its
/// `UTF-8` encoding.
pub open spec fn pos_of_offset(s: Seq<char>, offset: int) -> int {
    pos_from(s, offset, 0)
}

/// The length of the `UTF-8` encoding of `c`.
pub open spec fn char_width(c: char) -> int {
    let v = c as u32;
    if v < 0x80 {
        1
    } else if v < 0x800 {
        2
    } else if v < 0x10000 {
        3
    } else {
        4
    }
}

/// A character takes as many bytes as [`char_width`] says.
pub proof fn lemma_char_width(c: char)
    ensures
        utf8_of_char(c).len() == char_width(c),
{
    char_is_scalar(c);
    reveal_with_fuel(encode_utf8, 2);
    assert(seq![c].drop_first() =~= Seq::<char>::empty());
    assert(encode_utf8(seq![c]) =~= encode_scalar(c as u32) + encode_utf8(Seq::<char>::empty()));
}

/// One more character adds its width to the length of the encoding.
pub proof fn lemma_offset_step(s: Seq<char>, k: int)
    requires
        0 <= k < s.len(),
    ensures
        offset_of_pos(s, k + 1) == offset_of_pos(s, k) + char_width(s[k]),
{
    assert(s.take(k + 1) =~= s.take(k).push(s[k]));
    lemma_encode_utf8_push(s.take(k), s[k]);
    lemma_char_width(s[k]);
}

/// The encoding of a prefix is no longer than the encoding of the whole.
pub proof fn lemma_offset_bound(s: Seq<char>, k: int)
    requires
        0 <= k <= s.len(),
    ensures
        offset_of_pos(s, k) <= encode_utf8(s).len(),
    decreases s.len() - k,
{
    if k < s.len() {
        lemma_offset_step(s, k);
        lemma_offset_bound(s, k + 1);
    } else {
        assert(s.take(k) =~= s);
    }
}

/// Character offsets grow with positions: a character takes at least a byte.
pub proof fn lemma_offset_mono(s: Seq<char>, j: int, k: int)
    requires
        0 <= j <= k <= s.len(),
    ensures
        offset_of_pos(s, j) <= offset_of_pos(s, k),
        j < k ==> offset_of_pos(s, j) < offset_of_pos(s, k),
    decreases k - j,
{
    if j < k {
        lemma_offset_step(s, k - 1);
        lemma_char_width(s[k - 1]);
        lemma_offset_mono(s, j, k - 1);
    }
}

/// The position that [`pos_from`] finds lies between `k` and the end, and every
/// character it passes over starts before `offset`.
pub proof fn lemma_pos_from(s: Seq<char>, offset: int, k: int)
    requires
        0 <= k <= s.len(),
    ensures
        k <= pos_from(s, offset, k) <= s.len(),
        forall|j: int| k <= j < pos_from(s, offset, k) ==> #[trigger] offset_of_pos(s, j) < offset,
        pos_from(s, offset, k) < s.len() ==> offset_of_pos(s, pos_from(s, offset, k)) >= offset,
    decreases s.len() - k,
{
    if k < s.len() && offset_of_pos(s, k) < offset {
        lemma_pos_from(s, offset, k + 1);
    }
}

/// Searching from `k` finds what searching from the start finds, when every
/// character before `k` starts before `offset`.
pub proof fn lemma_pos_from_skip(s: Seq<char>, offset: int, k: int)
    requires
        0 <= k <= s.len(),
        forall|j: int| 0 <= j < k ==> #[trigger] offset_of_pos(s, j) < offset,
    ensures
        pos_of_offset(s, offset) == pos_from(s, offset, k),
    decreases k,
{
    if k > 0 {
        lemma_pos_from_skip(s, offset, k - 1);
        assert(offset_of_pos(s, k - 1) < offset);
    }
}

/// A larger offset has at least as many characters before it.
pub proof fn lemma_pos_of_offset_mono(s: Seq<char>, a: int, b: int)
    requires
        a <= b,
    ensures
        pos_of_offset(s, a) <= pos_of_offset(s, b),
{
    lemma_pos_from(s, a, 0);
    lemma_pos_from(s, b, 0);
    let pa = pos_of_offset(s, a);
    let pb = pos_of_offset(s, b);
    if pb < pa {
        assert(offset_of_pos(s, pb) < a);
        assert(offset_of_pos(s, pb) >= b);
    }
}

/// All characters start before the end of the encoding.
pub proof fn lemma_pos_of_offset_end(s: Seq<char>)
    ensures
        pos_of_offset(s, encode_utf8(s).len() as int) == s.len(),
{
    let total = encode_utf8(s).len() as int;
    lemma_pos_from(s, total, 0);
    let p = pos_of_offset(s, total);
    assert(s.take(s.len() as int) =~= s);
    if p < s.len() {
        lemma_offset_mono(s, p, s.len() as int);
    }
}

/// Returns the number of bytes in the `UTF-8` encoding of `c`.
pub fn len_utf8(c: char) -> (n: usize)
    ensures
        n == char_width(c),
        n == utf8_of_char(c).len(),
{
    proof {
        lemma_char_width(c);
    }
    let v = char_to_u32(c);
    if v < 0x80 {
        1
    } else if v < 0x800 {
        2
    } else if v < 0x10000 {
        3
    } else {
        4
    }
}

/// Returns the byte offset in `buf` corresponding to the `pos`-th character, which is
/// guaranteed to be aligned to a `UTF-8` code point boundary in `buf`.
///
/// If `buf` contains less than `pos` characters, then `buf.len()` is returned.
pub fn pos_to_offset(buf: &str, pos: usize) -> (offset: usize)
    ensures
        offset == offset_of_pos(buf@, pos as int),
{
    let cs = chars_of(buf);
    let ghost s = buf@;
    let total = buf.as_bytes().len();
    let n = if pos < cs.len() { pos } else { cs.len() };
    let mut offset: usize = 0;
    let mut i: usize = 0;
    while i < n
        invariant
            cs@ == s,
            total == encode_utf8(s).len(),
            n <= s.len(),
            n == (if pos < s.len() { pos as int } else { s.len() as int }),
            i <= n,
            offset == offset_of_pos(s, i as int),
        decreases n - i,
    {
        proof {
            lemma_offset_step(s, i as int);
            lemma_offset_bound(s, i + 1);
        }
        offset = offset + len_utf8(cs[i]);
        i = i + 1;
    }
    offset
}

/// Returns the position of the character at byte `offset` in `buf`: the number of
/// characters that start before `offset`.
///
/// If `buf` contains less than `offset` bytes, then the value returned is the number
/// of characters in `buf`. An `offset` that is not aligned to a character boundary
/// counts the character it falls in.
pub fn offset_to_pos(buf: &str, offset: usize) -> (pos: usize)
    ensures
        pos == pos_of_offset(buf@, offset as int),
{
    let cs = chars_of(buf);
    let ghost s = buf@;
    let total = buf.as_bytes().len();
    let mut ofs: usize = 0;
    let mut pos: usize = 0;
    while pos < cs.len() && ofs < offset
        invariant
            cs@ == s,
            total == encode_utf8(s).len(),
            pos <= s.len(),
            ofs == offset_of_pos(s, pos as int),
            pos_from(s, offset as int, 0) == pos_from(s, offset as int, pos as int),
        decreases s.len() - pos,
    {
        proof {
            lemma_offset_step(s, pos as int);
            lemma_offset_bound(s, pos + 1);
        }
        ofs = ofs + len_utf8(cs[pos]);
        pos = pos + 1;
    }
    pos
}

/// Returns version information: the package name and version, then the first
/// seven characters of the build hash and the build date in parentheses.
pub fn version(name: &str, package_version: &str, build_hash: &str, build_date: &str) -> (s: String)
    requires
        build_hash@.len() >= 7,
    ensures
        s@ == name@ + " "@ + package_version@ + " ("@ + build_hash@.take(7) + " "@ + build_date@ + ")"@,
{
    let hash = chars_of(build_hash);
    let mut short: Vec<char> = Vec::new();
    let mut i: usize = 0;
    while i < 7
        invariant
            hash@ == build_hash@,
            hash@.len() >= 7,
            i <= 7,
            short@ == hash@.take(i as int),
        decreases 7 - i,
    {
        short.push(hash[i]);
        i = i + 1;
        assert(short@ =~= hash@.take(i as int));
    }
    let mut s = String::new();
    push_str(&mut s, name);
    push_str(&mut s, " ");
    push_str(&mut s, package_version);
    push_str(&mut s, " (");
    crate::strings::push_chars(&mut s, &short);
    push_str(&mut s, " ");
    push_str(&mut s, build_date);
    push_str(&mut s, ")");
    assert(s@ =~= name@ + " "@ + package_version@ + " ("@ + build_hash@.take(7) + " "@ + build_date@ + ")"@);
    s
}

/// A position and its byte offset convert back to each other: the characters
/// that start before the offset of position `p` are the first `p` of them (all of
/// them where `s` holds fewer).
pub proof fn lemma_offset_round_trip(s: Seq<char>, p: int)
    requires
        0 <= p,
    ensures
        pos_of_offset(s, offset_of_pos(s, p)) == if p < s.len() { p } else { s.len() as int },
{
    let q = if p < s.len() { p } else { s.len() as int };
    let off = offset_of_pos(s, p);
    assert(off == offset_of_pos(s, q));
    assert forall|j: int| 0 <= j < q implies #[trigger] offset_of_pos(s, j) < off by {
        lemma_offset_mono(s, j, q);
    }
    lemma_pos_from_skip(s, off, q);
}

} // verus!

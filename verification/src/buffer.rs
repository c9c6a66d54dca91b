//! An implementation of a gap buffer, which is the primary data structure for
//! representing and manipulating text.
//!
//! The text is held in a vector of `capacity` cells, of which `gap_len` cells starting
//! at `gap` form the gap; the text is everything before the gap followed by everything
//! after it. The gap position doubles as the insertion point.

use crate::text::{count_nl, lemma_count_nl_le_len, lemma_count_nl_take_step, line_from, line_start, next_line, nth_line_start};
use vstd::prelude::*;
use vstd::utf8::*;
use crate::strings::chars_of;
use crate::error::{Error, Result};

verus! {

/// A gap buffer of characters.
#[derive(Clone, Debug)]
pub struct Buffer {
    buf: Vec<char>,
    capacity: usize,
    size: usize,
    gap: usize,
    gap_len: usize,
}

/// The capacity of a buffer created without an explicit capacity.
pub const INIT_CAPACITY: usize = 65_536;

/// The granularity by which a buffer grows.
pub const GROW_CAPACITY: usize = 65_536;

/// The largest capacity a buffer may have.
pub const MAX_CAPACITY: usize = 2_147_483_648;

impl View for Buffer {
    type V = Seq<char>;

    /// The text held by the buffer: the cells before the gap followed by the cells
    /// after it.
    closed spec fn view(&self) -> Seq<char> {
        self.buf@.subrange(0, self.gap as int) + self.buf@.subrange(
            (self.gap + self.gap_len) as int,
            self.capacity as int,
        )
    }
}

/// Rounds `n` up to the next multiple of [`GROW_CAPACITY`].
pub open spec fn grown_capacity(n: int) -> int {
    (n + GROW_CAPACITY - 1) / (GROW_CAPACITY as int) * (GROW_CAPACITY as int)
}

/// The smaller of `a` and `b`.
pub open spec fn min_usize(a: usize, b: usize) -> usize {
    if a < b { a } else { b }
}

/// The larger of `a` and `b`.
pub open spec fn max_usize(a: usize, b: usize) -> usize {
    if a < b { b } else { a }
}

/// The UTF-8 encoding of `c`.
pub open spec fn utf8_of_char(c: char) -> Seq<u8> {
    encode_utf8(seq![c])
}

impl Buffer {
    /// The buffer's internal consistency: the cell vector is `capacity` long, the gap
    /// lies within it, and the text fills everything but the gap.
    pub closed spec fn wf(&self) -> bool {
        &&& self.buf@.len() == self.capacity
        &&& 0 < self.capacity <= MAX_CAPACITY
        &&& self.gap + self.gap_len <= self.capacity
        &&& self.size + self.gap_len == self.capacity
        &&& self.gap <= self.size
    }

    /// The insertion point, which is a position in the text.
    pub closed spec fn pos(&self) -> nat {
        self.gap as nat
    }

    /// The number of cells allocated.
    pub closed spec fn cap(&self) -> nat {
        self.capacity as nat
    }

    /// Facts that every well-formed buffer satisfies, for callers.
    pub proof fn lemma_wf(&self)
        requires
            self.wf(),
        ensures
            self.pos() <= self@.len(),
            self@.len() <= self.cap(),
            self.cap() <= MAX_CAPACITY,
    {
    }

    /// Creates an empty buffer of [`INIT_CAPACITY`] cells.
    pub fn new() -> (b: Buffer)
        ensures
            b.wf(),
            b@ == Seq::<char>::empty(),
            b.pos() == 0,
            b.cap() == INIT_CAPACITY,
    {
        Buffer::with_capacity(INIT_CAPACITY)
    }

    /// Creates an empty buffer of `capacity` cells, or [`INIT_CAPACITY`] cells when
    /// `capacity` is `0`.
    pub fn with_capacity(capacity: usize) -> (b: Buffer)
        requires
            capacity <= MAX_CAPACITY,
        ensures
            b.wf(),
            b@ == Seq::<char>::empty(),
            b.pos() == 0,
            b.cap() == (if capacity > 0 { capacity } else { INIT_CAPACITY }),
    {
        let n = if capacity > 0 {
            capacity
        } else {
            INIT_CAPACITY
        };
        let buf = vec!['\0'; n];
        let b = Buffer { buf, capacity: n, size: 0, gap: 0, gap_len: n };
        assert(b@ =~= Seq::<char>::empty());
        b
    }

    /// Returns the number of characters in the buffer.
    pub fn size(&self) -> (n: usize)
        requires
            self.wf(),
        ensures
            n == self@.len(),
    {
        self.size
    }

    /// Returns the number of cells allocated.
    pub fn capacity(&self) -> (n: usize)
        ensures
            n == self.cap(),
    {
        self.capacity
    }

    /// Returns the number of free cells, which is the length of the gap.
    pub fn gap_len(&self) -> (n: usize)
        requires
            self.wf(),
        ensures
            n == self.cap() - self@.len(),
    {
        self.gap_len
    }

    /// Returns the insertion point.
    pub fn get_pos(&self) -> (p: usize)
        ensures
            p == self.pos(),
    {
        self.gap
    }

    /// Moves the insertion point to `pos`, bounded by the end of the buffer, and
    /// returns the new insertion point. The text is unchanged.
    pub fn set_pos(&mut self, pos: usize) -> (p: usize)
        requires
            old(self).wf(),
        ensures
            final(self).wf(),
            final(self)@ == old(self)@,
            final(self).cap() == old(self).cap(),
            p == (if pos < old(self)@.len() { pos as nat } else { old(self)@.len() }),
            final(self).pos() == p,
    {
        let pos = if pos < self.size {
            pos
        } else {
            self.size
        };
        let ghost text = self@;
        while self.gap > pos
            invariant
                self.wf(),
                self@ == text,
                pos <= self.size,
                self.capacity == old(self).capacity,
            decreases self.gap,
        {
            let ghost before = self.buf@;
            let g = self.gap;
            let l = self.gap_len;
            let c = self.buf[g - 1];
            self.buf.set(g + l - 1, c);
            self.gap = g - 1;
            assert(self.buf@.subrange(0, (g - 1) as int) =~= before.subrange(0, (g - 1) as int));
            assert(self.buf@.subrange((g - 1 + l) as int, self.capacity as int) =~= seq![c]
                + before.subrange((g + l) as int, self.capacity as int));
            assert(before.subrange(0, g as int) =~= before.subrange(0, (g - 1) as int) + seq![c]);
            assert(self@ =~= text);
        }
        while self.gap < pos
            invariant
                self.wf(),
                self@ == text,
                self.gap <= pos,
                pos <= self.size,
                self.capacity == old(self).capacity,
            decreases pos - self.gap,
        {
            let ghost before = self.buf@;
            let g = self.gap;
            let l = self.gap_len;
            let c = self.buf[g + l];
            self.buf.set(g, c);
            self.gap = g + 1;
            assert(self.buf@.subrange(0, (g + 1) as int) =~= before.subrange(0, g as int) + seq![c]);
            assert(self.buf@.subrange((g + 1 + l) as int, self.capacity as int) =~= before.subrange(
                (g + 1 + l) as int,
                self.capacity as int,
            ));
            assert(before.subrange((g + l) as int, self.capacity as int) =~= seq![c]
                + before.subrange((g + 1 + l) as int, self.capacity as int));
            assert(self@ =~= text);
        }
        self.gap
    }

    /// Returns the character at `pos`, or `None` if `pos` is at or beyond the end
    /// of the buffer.
    pub fn get_char(&self, pos: usize) -> (r: Option<char>)
        requires
            self.wf(),
        ensures
            r == (if pos < self@.len() { Some(self@[pos as int]) } else { None::<char> }),
    {
        if pos < self.size {
            Some(self.char_at(pos))
        } else {
            None
        }
    }

    /// Returns the character at `pos`, which must lie within the buffer.
    pub fn char_at(&self, pos: usize) -> (c: char)
        requires
            self.wf(),
            pos < self@.len(),
        ensures
            c == self@[pos as int],
    {
        if pos < self.gap {
            self.buf[pos]
        } else {
            self.buf[pos + self.gap_len]
        }
    }

    /// Inserts `c` at the insertion point and returns the new insertion point, which
    /// follows `c`.
    pub fn insert_char(&mut self, c: char) -> (p: usize)
        requires
            old(self).wf(),
            old(self)@.len() < MAX_CAPACITY,
        ensures
            final(self).wf(),
            final(self)@ == old(self)@.take(old(self).pos() as int) + seq![c] + old(self)@.skip(
                old(self).pos() as int,
            ),
            p == old(self).pos() + 1,
            final(self).pos() == p,
            old(self).cap() - old(self)@.len() >= 1 ==> final(self).cap() == old(self).cap(),
            old(self).cap() - old(self)@.len() < 1 ==> final(self).cap() == grown_capacity((old(self)@.len() + 1) as int),
    {
        self.ensure(1);
        let ghost before = self.buf@;
        let g = self.gap;
        self.buf.set(g, c);
        self.gap = g + 1;
        self.gap_len = self.gap_len - 1;
        self.size = self.size + 1;
        assert(self.buf@.subrange(0, (g + 1) as int) =~= before.subrange(0, g as int) + seq![c]);
        assert(self.buf@.subrange((self.gap + self.gap_len) as int, self.capacity as int)
            =~= before.subrange((g + self.gap_len + 1) as int, self.capacity as int));
        assert(self@ =~= old(self)@.take(old(self).pos() as int) + seq![c] + old(self)@.skip(
            old(self).pos() as int,
        ));
        self.gap
    }

    /// Inserts the characters of `cs` at the insertion point and returns the new
    /// insertion point, which follows them.
    pub fn insert_str(&mut self, cs: &str) -> (p: usize)
        requires
            old(self).wf(),
            old(self)@.len() + cs@.len() <= MAX_CAPACITY,
        ensures
            final(self).wf(),
            final(self)@ == old(self)@.take(old(self).pos() as int) + cs@ + old(self)@.skip(
                old(self).pos() as int,
            ),
            p == old(self).pos() + cs@.len(),
            final(self).pos() == p,
            old(self).cap() - old(self)@.len() >= cs@.len() ==> final(self).cap() == old(self).cap(),
            old(self).cap() - old(self)@.len() < cs@.len() ==> final(self).cap() == grown_capacity((old(self)@.len() + cs@.len()) as int),
    {
        let chars = chars_of(cs);
        self.insert(chars.as_slice())
    }

    /// Inserts the characters of `cs` at the insertion point and returns the new
    /// insertion point, which follows them.
    pub fn insert(&mut self, cs: &[char]) -> (p: usize)
        requires
            old(self).wf(),
            old(self)@.len() + cs@.len() <= MAX_CAPACITY,
        ensures
            final(self).wf(),
            final(self)@ == old(self)@.take(old(self).pos() as int) + cs@ + old(self)@.skip(
                old(self).pos() as int,
            ),
            p == old(self).pos() + cs@.len(),
            final(self).pos() == p,
            old(self).cap() - old(self)@.len() >= cs@.len() ==> final(self).cap() == old(self).cap(),
            old(self).cap() - old(self)@.len() < cs@.len() ==> final(self).cap() == grown_capacity((old(self)@.len() + cs@.len()) as int),
    {
        let n = cs.len();
        self.ensure(n);
        let ghost before = self.buf@;
        let ghost cap0 = self.capacity;
        let ghost gl0 = self.gap_len;
        let g = self.gap;
        let mut i: usize = 0;
        while i < n
            invariant
                self.wf(),
                self.gap == g,
                self.capacity == cap0,
                self.gap_len >= n,
                0 <= i <= n,
                n == cs@.len(),
                self.buf@.len() == before.len(),
                forall|j: int| 0 <= j < g ==> self.buf@[j] == before[j],
                forall|j: int| g + n <= j < before.len() ==> self.buf@[j] == before[j],
                forall|j: int| 0 <= j < i ==> self.buf@[g + j] == cs@[j],
                self.size == before.len() - self.gap_len,
                self.gap_len == gl0,
            decreases n - i,
        {
            self.buf.set(g + i, cs[i]);
            i = i + 1;
        }
        proof {
            assert(self@ == before.subrange(0, g as int) + before.subrange(
                (g + self.gap_len) as int,
                self.capacity as int,
            ));
        }
        let ghost mid = self@;
        self.gap = g + n;
        self.gap_len = self.gap_len - n;
        self.size = self.size + n;
        assert(self.buf@.subrange(0, (g + n) as int) =~= before.subrange(0, g as int) + cs@);
        assert(self.buf@.subrange((self.gap + self.gap_len) as int, self.capacity as int)
            =~= before.subrange((g + self.gap_len + n) as int, self.capacity as int));
        assert(mid.take(g as int) =~= before.subrange(0, g as int));
        assert(mid.skip(g as int) =~= before.subrange(
            (g + self.gap_len + n) as int,
            self.capacity as int,
        ));
        assert(self@ =~= mid.take(g as int) + cs@ + mid.skip(g as int));
        self.gap
    }

    /// Removes and returns the character following the insertion point, or `None`
    /// if the insertion point is at the end of the buffer.
    pub fn remove_char(&mut self) -> (r: Option<char>)
        requires
            old(self).wf(),
        ensures
            final(self).wf(),
            final(self).pos() == old(self).pos(),
            final(self).cap() == old(self).cap(),
            old(self).pos() < old(self)@.len() ==> r == Some(old(self)@[old(self).pos() as int])
                && final(self)@ == old(self)@.remove(old(self).pos() as int),
            old(self).pos() >= old(self)@.len() ==> r is None && final(self)@ == old(self)@,
    {
        if self.gap < self.size {
            let ghost v = self@;
            let c = self.buf[self.gap + self.gap_len];
            self.gap_len = self.gap_len + 1;
            self.size = self.size - 1;
            assert(self@ =~= v.remove(self.gap as int));
            Some(c)
        } else {
            None
        }
    }

    /// Removes and returns up to `count` characters following the insertion point.
    pub fn remove(&mut self, count: usize) -> (cs: Vec<char>)
        requires
            old(self).wf(),
        ensures
            final(self).wf(),
            final(self).pos() == old(self).pos(),
            final(self).cap() == old(self).cap(),
            ({
                let p = old(self).pos() as int;
                let n = if count < old(self)@.len() - p { count as int } else { old(self)@.len() - p };
                &&& cs@ == old(self)@.subrange(p, p + n)
                &&& final(self)@ == old(self)@.take(p) + old(self)@.skip(p + n)
            }),
    {
        let ghost v = self@;
        if self.gap < self.size {
            let end = self.gap + self.gap_len;
            let avail = self.capacity - end;
            let n = if count < avail {
                count
            } else {
                avail
            };
            let mut cs: Vec<char> = Vec::with_capacity(n);
            let mut i: usize = 0;
            while i < n
                invariant
                    self.wf(),
                    self@ == v,
                    end == self.gap + self.gap_len,
                    n <= self.capacity - end,
                    0 <= i <= n,
                    cs@ == self.buf@.subrange(end as int, (end + i) as int),
                decreases n - i,
            {
                cs.push(self.buf[end + i]);
                i = i + 1;
                assert(cs@ =~= self.buf@.subrange(end as int, (end + i) as int));
            }
            let ghost b = self.buf@;
            self.gap_len = self.gap_len + n;
            self.size = self.size - n;
            assert(cs@ =~= v.subrange(self.gap as int, (self.gap + n) as int));
            assert(self@ =~= v.take(self.gap as int) + v.skip((self.gap + n) as int));
            cs
        } else {
            assert(v.take(self.gap as int) + v.skip(self.gap as int) =~= v);
            assert(v.subrange(self.gap as int, self.gap as int) =~= Seq::<char>::empty());
            Vec::new()
        }
    }

    /// Returns a copy of the characters between `from_pos` and `to_pos`, taken in
    /// either order, where the upper bound is exclusive and limited to the end of the
    /// buffer. The lower bound must lie within the buffer.
    pub fn copy(&self, from_pos: usize, to_pos: usize) -> (cs: Vec<char>)
        requires
            self.wf(),
            from_pos == to_pos || min_usize(from_pos, to_pos) <= self@.len(),
        ensures
            cs@ == (if from_pos == to_pos {
                Seq::<char>::empty()
            } else {
                self@.subrange(
                    min_usize(from_pos, to_pos) as int,
                    min_usize(max_usize(from_pos, to_pos), self@.len() as usize) as int,
                )
            }),
    {
        if from_pos == to_pos {
            Vec::new()
        } else {
            let (lo, hi) = if from_pos < to_pos {
                (from_pos, to_pos)
            } else {
                (to_pos, from_pos)
            };
            let hi = if hi < self.size {
                hi
            } else {
                self.size
            };
            let mut cs: Vec<char> = Vec::new();
            let mut i = lo;
            while i < hi
                invariant
                    self.wf(),
                    lo <= i <= hi,
                    hi <= self@.len(),
                    cs@ == self@.subrange(lo as int, i as int),
                decreases hi - i,
            {
                cs.push(self.char_at(i));
                i = i + 1;
                assert(cs@ =~= self@.subrange(lo as int, i as int));
            }
            cs
        }
    }

    /// Returns the `0`-based line number corresponding to `pos`, which is the number of
    /// `\n` characters before `pos` (bounded by the end of the buffer).
    pub fn line_of(&self, pos: usize) -> (line: u32)
        requires
            self.wf(),
        ensures
            line == count_nl(self@.take(if pos < self@.len() { pos as int } else { self@.len() as int })),
    {
        let end = if pos < self.size {
            pos
        } else {
            self.size
        };
        let ghost s = self@;
        let mut n: u32 = 0;
        let mut i: usize = 0;
        proof {
            assert(s.take(0) =~= Seq::<char>::empty());
        }
        while i < end
            invariant
                self.wf(),
                s == self@,
                end <= s.len(),
                s.len() <= MAX_CAPACITY,
                0 <= i <= end,
                n == count_nl(s.take(i as int)),
            decreases end - i,
        {
            proof {
                lemma_count_nl_take_step(s, i as int);
                lemma_count_nl_le_len(s.take(i as int));
            }
            if self.char_at(i) == '\n' {
                n = n + 1;
            }
            i = i + 1;
        }
        n
    }

    /// Returns the position of the first character of the `0`-based `line` number, or
    /// the end of the buffer if `line` would extend beyond it.
    pub fn find_line(&self, line: u32) -> (pos: usize)
        requires
            self.wf(),
        ensures
            pos == nth_line_start(self@, line as nat),
    {
        if line > 0 {
            let ghost s = self@;
            let mut l: u32 = 0;
            let mut i: usize = 0;
            while i < self.size
                invariant
                    self.wf(),
                    s == self@,
                    0 <= i <= s.len(),
                    l < line,
                    line_from(s, i as int, l as nat, line as nat) == line_from(s, 0, 0, line as nat),
                decreases s.len() - i,
            {
                if self.char_at(i) == '\n' {
                    if l + 1 == line {
                        return i + 1;
                    }
                    l = l + 1;
                }
                i = i + 1;
            }
            self.size
        } else {
            0
        }
    }

    /// Returns the position of the first character of the line relative to `pos`:
    /// the position following the first `\n` encountered when scanning backwards from
    /// `pos` (an exclusive bound, limited to the end of the buffer), or `0` if the
    /// beginning of the buffer is reached.
    pub fn find_start_line(&self, pos: usize) -> (start: usize)
        requires
            self.wf(),
        ensures
            start == line_start(self@, if pos < self@.len() { pos as int } else { self@.len() as int }),
    {
        let p = if pos < self.size {
            pos
        } else {
            self.size
        };
        let mut i = p;
        while i > 0 && self.char_at(i - 1) != '\n'
            invariant
                self.wf(),
                i <= p <= self@.len(),
                line_start(self@, i as int) == line_start(self@, p as int),
            decreases i,
        {
            i = i - 1;
        }
        i
    }

    /// Returns the position following the first `\n` encountered when scanning
    /// forward from `pos` (an inclusive bound) paired with `true`, or the end of the
    /// buffer paired with `false` if the end is reached first.
    pub fn find_next_line(&self, pos: usize) -> (r: (usize, bool))
        requires
            self.wf(),
        ensures
            r.0 == next_line(self@, pos as int).0,
            r.1 == next_line(self@, pos as int).1,
    {
        let mut i = pos;
        while i < self.size
            invariant
                self.wf(),
                pos <= i,
                next_line(self@, i as int) == next_line(self@, pos as int),
            decreases self@.len() - i,
        {
            if self.char_at(i) == '\n' {
                return (i + 1, true);
            }
            i = i + 1;
        }
        (self.size, false)
    }

    /// Inserts all characters of `text` at the insertion point and returns the number
    /// of characters inserted.
    ///
    /// This is the part of reading a file that happens after the bytes were decoded.
    pub fn read_str(&mut self, text: &str) -> (n: usize)
        requires
            old(self).wf(),
            old(self)@.len() + text@.len() <= MAX_CAPACITY,
        ensures
            final(self).wf(),
            final(self)@ == old(self)@.take(old(self).pos() as int) + text@ + old(self)@.skip(
                old(self).pos() as int,
            ),
            n == text@.len(),
            final(self).pos() == old(self).pos() + n,
            old(self).cap() - old(self)@.len() >= text@.len() ==> final(self).cap() == old(self).cap(),
            old(self).cap() - old(self)@.len() < text@.len() ==> final(self).cap() == grown_capacity((old(self)@.len() + text@.len()) as int),
    {
        let start = self.gap;
        let end = self.insert_str(text);
        end - start
    }

    /// Returns the UTF-8 encoding of the whole buffer, which is what writing the buffer
    /// to a file sends.
    pub fn write(&self) -> (bytes: Vec<u8>)
        requires
            self.wf(),
        ensures
            bytes@ == encode_utf8(self@),
    {
        let ghost s = self@;
        let mut out: Vec<u8> = Vec::new();
        let mut i: usize = 0;
        proof {
            assert(s.take(0) =~= Seq::<char>::empty());
            assert(encode_utf8(Seq::<char>::empty()) =~= Seq::<u8>::empty()) by {
                reveal_with_fuel(encode_utf8, 1);
            }
        }
        while i < self.size
            invariant
                self.wf(),
                s == self@,
                0 <= i <= s.len(),
                out@ == encode_utf8(s.take(i as int)),
            decreases s.len() - i,
        {
            let c = self.char_at(i);
            encode_char_into(c, &mut out);
            proof {
                lemma_encode_utf8_push(s.take(i as int), c);
                assert(s.take(i + 1) =~= s.take(i as int).push(c));
            }
            i = i + 1;
        }
        proof {
            assert(s.take(s.len() as int) =~= s);
        }
        out
    }

    /// Returns a cursor that moves forward through the buffer starting at `pos`,
    /// bounded by the end of the buffer.
    pub fn forward(&self, pos: usize) -> (it: Forward<'_>)
        requires
            self.wf(),
        ensures
            it.buffer() == self,
            it.pos() == (if pos < self@.len() { pos as nat } else { self@.len() }),
    {
        Forward { buffer: self, pos: if pos < self.size { pos } else { self.size } }
    }

    /// Returns a cursor that moves backward through the buffer starting at `pos`,
    /// bounded by the end of the buffer.
    pub fn backward(&self, pos: usize) -> (it: Backward<'_>)
        requires
            self.wf(),
        ensures
            it.buffer() == self,
            it.pos() == (if pos < self@.len() { pos as nat } else { self@.len() }),
    {
        Backward { buffer: self, pos: if pos < self.size { pos } else { self.size } }
    }

    /// Returns a cursor that moves forward through the whole buffer.
    pub fn iter(&self) -> (it: Forward<'_>)
        requires
            self.wf(),
        ensures
            it.buffer() == self,
            it.pos() == 0,
    {
        self.forward(0)
    }

    /// Ensures that at least `n` cells are free.
    fn ensure(&mut self, n: usize)
        requires
            old(self).wf(),
            old(self)@.len() + n <= MAX_CAPACITY,
        ensures
            final(self).wf(),
            final(self)@ == old(self)@,
            final(self).gap == old(self).gap,
            final(self).gap_len >= n,
            final(self).capacity >= old(self).capacity,
            final(self).gap_len == old(self).gap_len + (final(self).capacity - old(self).capacity),
            old(self).capacity - old(self).size >= n ==> final(self).capacity == old(self).capacity,
            old(self).capacity - old(self).size < n ==> final(self).capacity == grown_capacity(
                old(self)@.len() + n,
            ),
    {
        let free = self.capacity - self.size;
        if n > free {
            self.grow(n - free);
        }
    }

    /// Increases the capacity by at least `need` cells, rounding up to a multiple of
    /// [`GROW_CAPACITY`].
    fn grow(&mut self, need: usize)
        requires
            old(self).wf(),
            need > 0,
            old(self).capacity + need <= MAX_CAPACITY,
        ensures
            final(self).wf(),
            final(self)@ == old(self)@,
            final(self).gap == old(self).gap,
            final(self).capacity == grown_capacity(old(self).capacity + need),
            final(self).gap_len == old(self).gap_len + (final(self).capacity - old(self).capacity),
    {
        let capacity = (self.capacity + need + GROW_CAPACITY - 1) / GROW_CAPACITY * GROW_CAPACITY;
        proof {
            let t = (self.capacity + need + GROW_CAPACITY - 1) as int;
            let q = t / (GROW_CAPACITY as int);
            assert(q * (GROW_CAPACITY as int) <= t) by (nonlinear_arith)
                requires
                    q == t / (GROW_CAPACITY as int),
                    t >= 0,
            ;
            assert(q * (GROW_CAPACITY as int) > t - (GROW_CAPACITY as int)) by (nonlinear_arith)
                requires
                    q == t / (GROW_CAPACITY as int),
                    t >= 0,
            ;
            assert(q <= 32768) by (nonlinear_arith)
                requires
                    q == t / (GROW_CAPACITY as int),
                    t < 2_147_483_648 + 65_536,
            ;
            assert(q * (GROW_CAPACITY as int) <= MAX_CAPACITY) by (nonlinear_arith)
                requires
                    q <= 32768,
            ;
        }
        let gap_len = self.gap_len + (capacity - self.capacity);
        let mut buf: Vec<char> = Vec::with_capacity(capacity);
        let mut i: usize = 0;
        while i < self.gap
            invariant
                self.wf(),
                0 <= i <= self.gap,
                buf@ == self.buf@.subrange(0, i as int),
            decreases self.gap - i,
        {
            buf.push(self.buf[i]);
            i = i + 1;
            assert(buf@ =~= self.buf@.subrange(0, i as int));
        }
        let mut k: usize = 0;
        while k < gap_len
            invariant
                self.wf(),
                0 <= k <= gap_len,
                buf@.len() == self.gap + k,
                buf@.subrange(0, self.gap as int) == self.buf@.subrange(0, self.gap as int),
            decreases gap_len - k,
        {
            buf.push('\0');
            k = k + 1;
            assert(buf@.subrange(0, self.gap as int) =~= self.buf@.subrange(0, self.gap as int));
        }
        let start = self.gap + self.gap_len;
        let mut j: usize = start;
        while j < self.capacity
            invariant
                self.wf(),
                start == self.gap + self.gap_len,
                start <= j <= self.capacity,
                buf@.len() == self.gap + gap_len + (j - start),
                buf@.subrange(0, self.gap as int) == self.buf@.subrange(0, self.gap as int),
                buf@.subrange((self.gap + gap_len) as int, buf@.len() as int) == self.buf@.subrange(
                    start as int,
                    j as int,
                ),
            decreases self.capacity - j,
        {
            let ghost prev = buf@;
            buf.push(self.buf[j]);
            j = j + 1;
            assert(buf@.subrange(0, self.gap as int) =~= prev.subrange(0, self.gap as int));
            assert(buf@.subrange((self.gap + gap_len) as int, buf@.len() as int)
                =~= self.buf@.subrange(start as int, j as int));
        }
        let ghost v = self@;
        self.buf = buf;
        self.capacity = capacity;
        self.gap_len = gap_len;
        assert(self@ =~= v);
    }
}

/// Appends the UTF-8 encoding of `c` to `out`.
fn encode_char_into(c: char, out: &mut Vec<u8>)
    ensures
        final(out)@ == old(out)@ + utf8_of_char(c),
{
    proof {
        char_is_scalar(c);
        reveal_with_fuel(encode_utf8, 2);
        assert(seq![c].drop_first() =~= Seq::<char>::empty());
        assert(encode_utf8(seq![c]) =~= encode_scalar(c as u32) + encode_utf8(Seq::<char>::empty()));
        assert(encode_utf8(Seq::<char>::empty()) =~= Seq::<u8>::empty());
    }
    let v = char_to_u32(c);
    if v < 0x80 {
        let b = v as u8;
        out.push(b);
        assert(b == leading_byte_width_1(v)) by (bit_vector)
            requires
                v < 0x80,
                b == v as u8,
        ;
        assert(out@ =~= old(out)@ + utf8_of_char(c));
    } else if v < 0x800 {
        let b1 = (0xc0 + v / 64) as u8;
        let b2 = (0x80 + v % 64) as u8;
        out.push(b1);
        out.push(b2);
        assert(b1 == leading_byte_width_2(v) && b2 == last_continuation_byte(v)) by (bit_vector)
            requires
                0x80 <= v < 0x800,
                b1 == (0xc0 + v / 64) as u8,
                b2 == (0x80 + v % 64) as u8,
        ;
        assert(out@ =~= old(out)@ + utf8_of_char(c));
    } else if v < 0x10000 {
        let b1 = (0xe0 + v / 4096) as u8;
        let b2 = (0x80 + (v / 64) % 64) as u8;
        let b3 = (0x80 + v % 64) as u8;
        out.push(b1);
        out.push(b2);
        out.push(b3);
        assert(b1 == leading_byte_width_3(v) && b2 == second_last_continuation_byte(v) && b3
            == last_continuation_byte(v)) by (bit_vector)
            requires
                0x800 <= v < 0x10000,
                b1 == (0xe0 + v / 4096) as u8,
                b2 == (0x80 + (v / 64) % 64) as u8,
                b3 == (0x80 + v % 64) as u8,
        ;
        assert(out@ =~= old(out)@ + utf8_of_char(c));
    } else {
        let b1 = (0xf0 + v / 262144) as u8;
        let b2 = (0x80 + (v / 4096) % 64) as u8;
        let b3 = (0x80 + (v / 64) % 64) as u8;
        let b4 = (0x80 + v % 64) as u8;
        out.push(b1);
        out.push(b2);
        out.push(b3);
        out.push(b4);
        assert(b1 == leading_byte_width_4(v) && b2 == third_last_continuation_byte(v) && b3
            == second_last_continuation_byte(v) && b4 == last_continuation_byte(v)) by (bit_vector)
            requires
                0x10000 <= v <= 0x10ffff,
                b1 == (0xf0 + v / 262144) as u8,
                b2 == (0x80 + (v / 4096) % 64) as u8,
                b3 == (0x80 + (v / 64) % 64) as u8,
                b4 == (0x80 + v % 64) as u8,
        ;
        assert(out@ =~= old(out)@ + utf8_of_char(c));
    }
}

/// Returns the code point of `c`.
pub(crate) fn char_to_u32(c: char) -> (v: u32)
    ensures
        v == c as u32,
        v <= 0x10ffff,
{
    proof {
        char_is_scalar(c);
    }
    c as u32
}

/// Encoding a sequence extended by one character appends that character's encoding.
pub proof fn lemma_encode_utf8_push(s: Seq<char>, c: char)
    ensures
        encode_utf8(s.push(c)) == encode_utf8(s) + utf8_of_char(c),
    decreases s.len(),
{
    reveal_with_fuel(encode_utf8, 2);
    if s.len() == 0 {
        assert(s.push(c) =~= seq![c]);
        assert(encode_utf8(s) =~= Seq::<u8>::empty());
        assert(encode_utf8(s) + utf8_of_char(c) =~= utf8_of_char(c));
    } else {
        lemma_encode_utf8_push(s.drop_first(), c);
        assert(s.push(c).drop_first() =~= s.drop_first().push(c));
        assert(s.push(c)[0] == s[0]);
        assert(encode_utf8(s.push(c)) =~= encode_scalar(s[0] as u32) + encode_utf8(s.drop_first().push(c)));
        assert(encode_utf8(s) =~= encode_scalar(s[0] as u32) + encode_utf8(s.drop_first()));
        assert(encode_utf8(s.push(c)) =~= encode_utf8(s) + utf8_of_char(c));
    }
}

/// A cursor that reads a buffer forward from a position.
pub struct Forward<'a> {
    buffer: &'a Buffer,
    pos: usize,
}

/// A cursor that reads a buffer forward, yielding positions with characters.
pub struct ForwardIndex<'a> {
    it: Forward<'a>,
}

/// A cursor that reads a buffer backward from a position (exclusive).
pub struct Backward<'a> {
    buffer: &'a Buffer,
    pos: usize,
}

/// A cursor that reads a buffer backward, yielding positions with characters.
pub struct BackwardIndex<'a> {
    it: Backward<'a>,
}

impl<'a> Forward<'a> {
    /// The buffer being read.
    pub closed spec fn buffer(&self) -> &'a Buffer {
        self.buffer
    }

    /// The position of the next character to be read.
    pub closed spec fn pos(&self) -> nat {
        self.pos as nat
    }

    /// The cursor's consistency: the buffer is well formed and the position lies
    /// within it.
    pub closed spec fn wf(&self) -> bool {
        self.buffer.wf() && self.pos <= self.buffer@.len()
    }

    /// Turns this cursor into one that also yields positions.
    pub fn index(self) -> (it: ForwardIndex<'a>)
        ensures
            it.buffer() == self.buffer(),
            it.pos() == self.pos(),
    {
        ForwardIndex { it: self }
    }

    /// Returns the next character and advances, or `None` at the end of the buffer.
    pub fn next(&mut self) -> (r: Option<char>)
        requires
            old(self).buffer().wf(),
            old(self).pos() <= old(self).buffer()@.len(),
        ensures
            final(self).buffer() == old(self).buffer(),
            old(self).pos() < old(self).buffer()@.len() ==> r == Some(
                old(self).buffer()@[old(self).pos() as int],
            ) && final(self).pos() == old(self).pos() + 1,
            old(self).pos() >= old(self).buffer()@.len() ==> r is None && final(self).pos()
                == old(self).pos(),
    {
        if self.pos < self.buffer.size() {
            let c = self.buffer.char_at(self.pos);
            self.pos = self.pos + 1;
            Some(c)
        } else {
            None
        }
    }
}

impl<'a> ForwardIndex<'a> {
    /// The buffer being read.
    pub closed spec fn buffer(&self) -> &'a Buffer {
        self.it.buffer
    }

    /// The position of the next character to be read.
    pub closed spec fn pos(&self) -> nat {
        self.it.pos as nat
    }

    /// Returns the next position and character and advances, or `None` at the end of
    /// the buffer.
    pub fn next(&mut self) -> (r: Option<(usize, char)>)
        requires
            old(self).buffer().wf(),
            old(self).pos() <= old(self).buffer()@.len(),
        ensures
            final(self).buffer() == old(self).buffer(),
            old(self).pos() < old(self).buffer()@.len() ==> r == Some(
                (old(self).pos() as usize, old(self).buffer()@[old(self).pos() as int]),
            ) && final(self).pos() == old(self).pos() + 1,
            old(self).pos() >= old(self).buffer()@.len() ==> r is None && final(self).pos()
                == old(self).pos(),
    {
        let p = self.it.pos;
        match self.it.next() {
            Some(c) => Some((p, c)),
            None => None,
        }
    }
}

impl<'a> Backward<'a> {
    /// The buffer being read.
    pub closed spec fn buffer(&self) -> &'a Buffer {
        self.buffer
    }

    /// The position just past the next character to be read.
    pub closed spec fn pos(&self) -> nat {
        self.pos as nat
    }

    /// Turns this cursor into one that also yields positions.
    pub fn index(self) -> (it: BackwardIndex<'a>)
        ensures
            it.buffer() == self.buffer(),
            it.pos() == self.pos(),
    {
        BackwardIndex { it: self }
    }

    /// Returns the previous character and retreats, or `None` at the beginning of
    /// the buffer.
    pub fn next(&mut self) -> (r: Option<char>)
        requires
            old(self).buffer().wf(),
            old(self).pos() <= old(self).buffer()@.len(),
        ensures
            final(self).buffer() == old(self).buffer(),
            old(self).pos() > 0 ==> r == Some(old(self).buffer()@[old(self).pos() - 1])
                && final(self).pos() == old(self).pos() - 1,
            old(self).pos() == 0 ==> r is None && final(self).pos() == 0,
    {
        if self.pos > 0 {
            self.pos = self.pos - 1;
            Some(self.buffer.char_at(self.pos))
        } else {
            None
        }
    }
}

impl<'a> BackwardIndex<'a> {
    /// The buffer being read.
    pub closed spec fn buffer(&self) -> &'a Buffer {
        self.it.buffer
    }

    /// The position just past the next character to be read.
    pub closed spec fn pos(&self) -> nat {
        self.it.pos as nat
    }

    /// Returns the previous position and character and retreats, or `None` at the
    /// beginning of the buffer.
    pub fn next(&mut self) -> (r: Option<(usize, char)>)
        requires
            old(self).buffer().wf(),
            old(self).pos() <= old(self).buffer()@.len(),
        ensures
            final(self).buffer() == old(self).buffer(),
            old(self).pos() > 0 ==> r == Some(
                ((old(self).pos() - 1) as usize, old(self).buffer()@[old(self).pos() - 1]),
            ) && final(self).pos() == old(self).pos() - 1,
            old(self).pos() == 0 ==> r is None && final(self).pos() == 0,
    {
        match self.it.next() {
            Some(c) => Some((self.it.pos, c)),
            None => None,
        }
    }
}

/// The message of std's `Utf8Error` for the bytes `bytes`, which are not valid
/// `UTF-8`.
pub uninterp spec fn utf8_error_text(bytes: Seq<u8>) -> Seq<char>;

/// Decodes `bytes` as `UTF-8` text (std's `str::from_utf8`), or gives the error's
/// message.
///
/// As std documents, decoding fails exactly where the bytes are not valid `UTF-8`;
/// the text decoded is what the bytes encode. The message is named by
/// [`utf8_error_text`].
#[verifier::external_body]
fn utf8_text(bytes: &[u8]) -> (r: core::result::Result<&str, String>)
    ensures
        r is Ok <==> vstd::utf8::valid_utf8(bytes@),
        r matches Ok(t) ==> t@ == vstd::utf8::decode_utf8(bytes@),
        r matches Err(m) ==> m@ == utf8_error_text(bytes@),
{
    match core::str::from_utf8(bytes) {
        Ok(t) => Ok(t),
        Err(e) => Err(e.to_string()),
    }
}

/// What writing a buffer gives, reading gives back: the `UTF-8` encoding of any
/// text is valid and decodes to that text.
pub proof fn lemma_write_read(text: Seq<char>)
    ensures
        vstd::utf8::valid_utf8(vstd::utf8::encode_utf8(text)),
        vstd::utf8::decode_utf8(vstd::utf8::encode_utf8(text)) == text,
{
    vstd::utf8::encode_utf8_valid_utf8(text);
    vstd::utf8::encode_utf8_decode_utf8(text);
}

impl Buffer {
    /// Reads the `UTF-8` encoded `bytes` into the buffer at the insertion point,
    /// returning the number of characters read; fails with a `UTF-8` error, the
    /// buffer unchanged, where the bytes are not valid `UTF-8`, or with a general
    /// error where the text would not fit.
    pub fn read(&mut self, bytes: &[u8]) -> (r: Result<usize>)
        requires
            old(self).wf(),
        ensures
            final(self).wf(),
            !vstd::utf8::valid_utf8(bytes@) ==> *final(self) == *old(self) && (r matches Err(Error::Utf8 { bytes: b, cause: c })
                && b@ == bytes@ && c@ == utf8_error_text(bytes@)),
            vstd::utf8::valid_utf8(bytes@) && old(self)@.len() + vstd::utf8::decode_utf8(bytes@).len() <= MAX_CAPACITY
                ==> r == Ok::<usize, Error>(vstd::utf8::decode_utf8(bytes@).len() as usize) && final(self)@
                == old(self)@.take(old(self).pos() as int) + vstd::utf8::decode_utf8(bytes@) + old(self)@.skip(
                old(self).pos() as int,
            ),
            vstd::utf8::valid_utf8(bytes@) && old(self)@.len() + vstd::utf8::decode_utf8(bytes@).len() > MAX_CAPACITY
                ==> *final(self) == *old(self) && r is Err,
    {
        match utf8_text(bytes) {
            Ok(text) => {
                let n = text.unicode_len();
                if n > MAX_CAPACITY - self.size {
                    proof {
                        self.lemma_wf();
                    }
                    Err(Error::general("text too large for the buffer"))
                } else {
                    proof {
                        self.lemma_wf();
                    }
                    let k = self.read_str(text);
                    Ok(k)
                }
            },
            Err(m) => Err(Error::utf8(bytes, m.as_str())),
        }
    }
}

} // verus!

//! A collection of types and functions for navigating [`Buffer`]s.

use crate::buffer::Buffer;
use crate::error::{Error, Result};
use crate::num::{parse_unsigned, parse_unsigned_chars};
use crate::strings::{nonempty_trimmed, push_str, split_on, split_trimmed, string_of, to_string};
use crate::text::{
    col_stop, count_nl, lemma_col_stop_at, lemma_count_nl_flat, lemma_count_nl_le_len, lemma_count_nl_take_step,
    lemma_line_start_bounds, lemma_line_start_is, lemma_lines_agree, line_start, next_line, nth_line_start,
};
use vstd::prelude::*;

verus! {

/// Represents a logical position in a [`Buffer`] denoted by _line_ and _column_,
/// both of which are `0`-based.
#[derive(Copy, Clone, Eq, PartialEq, Ord, PartialOrd, Debug, Structural)]
pub struct Location {
    pub line: u32,
    pub col: u32,
}

/// `n - 1`, or `0` when `n` is `0`.
pub open spec fn dec_sat(n: nat) -> u32 {
    if n == 0 { 0 } else { (n - 1) as u32 }
}

/// The location that the fields of a location string denote, if they are well
/// formed: one or two decimal numbers, both `1`-based.
pub open spec fn location_of(fs: Seq<Seq<char>>) -> Option<Location> {
    if fs.len() == 1 {
        match parse_unsigned(fs[0], 10, u32::MAX as nat) {
            Some(l) => Some(Location { line: dec_sat(l), col: 0 }),
            None => None,
        }
    } else if fs.len() == 2 {
        match (parse_unsigned(fs[0], 10, u32::MAX as nat), parse_unsigned(fs[1], 10, u32::MAX as nat)) {
            (Some(l), Some(c)) => Some(Location { line: dec_sat(l), col: dec_sat(c) }),
            _ => None,
        }
    } else {
        None
    }
}

/// The fields of a location string: its parts between `,` and `:`, trimmed, without
/// the empty ones.
pub open spec fn location_fields(value: Seq<char>) -> Seq<Seq<char>> {
    nonempty_trimmed(split_on(value, ',', ':'))
}

impl Location {
    /// A location of (`0`, `0`).
    pub fn top() -> (loc: Location)
        ensures
            loc.line == 0 && loc.col == 0,
    {
        Location { line: 0, col: 0 }
    }

    /// Creates a new location with `line` and `col`.
    pub fn new(line: u32, col: u32) -> (loc: Location)
        ensures
            loc.line == line && loc.col == col,
    {
        Location { line, col }
    }

    /// Creates a new location from `1`-based `line` and `col`, both of which are
    /// decremented by `1` without going below `0`.
    fn from_user(line: u32, col: u32) -> (loc: Location)
        ensures
            loc.line == dec_sat(line as nat) && loc.col == dec_sat(col as nat),
    {
        Location {
            line: if line > 0 { line - 1 } else { 0 },
            col: if col > 0 { col - 1 } else { 0 },
        }
    }

    /// Parses the location in `value`, which has the syntax
    /// _line_ \[ (`,` | `:`) _col_ \] with `1`-based values.
    pub fn parse(value: &str) -> (r: Result<Location>)
        ensures
            r is Ok <==> location_of(location_fields(value@)) is Some,
            r matches Ok(loc) ==> Some(loc) == location_of(location_fields(value@)),
            r matches Err(e) ==> ({
                let fs = location_fields(value@);
                &&& fs.len() == 1 ==> (e matches Error::ParseLocation { value: v } && v@ == fs[0])
                &&& fs.len() == 2 ==> (e matches Error::ParseLocation { value: v } && (if parse_unsigned(
                    fs[0],
                    10,
                    u32::MAX as nat,
                ) is None {
                    v@ == fs[0]
                } else {
                    v@ == fs[1]
                }))
                &&& fs.len() != 1 && fs.len() != 2 ==> (e matches Error::General { message: m }
                    && m@ == value@ + ": too many arguments"@)
            }),
    {
        let vs = split_trimmed(value, ',', ':');
        let ghost fs = location_fields(value@);
        if vs.len() == 1 {
            assert(vs@[0]@ == fs[0]);
            match parse_unsigned_chars(&vs[0], 10, 0xffff_ffff) {
                Some(l) => Ok(Location::from_user(l as u32, 1)),
                None => Err(Error::parse_location(string_of(&vs[0]).as_str())),
            }
        } else if vs.len() == 2 {
            assert(vs@[0]@ == fs[0]);
            assert(vs@[1]@ == fs[1]);
            match (parse_unsigned_chars(&vs[0], 10, 0xffff_ffff), parse_unsigned_chars(&vs[1], 10, 0xffff_ffff)) {
                (Some(l), Some(c)) => Ok(Location::from_user(l as u32, c as u32)),
                (None, _) => Err(Error::parse_location(string_of(&vs[0]).as_str())),
                (_, None) => Err(Error::parse_location(string_of(&vs[1]).as_str())),
            }
        } else {
            let mut msg = to_string(value);
            push_str(&mut msg, ": too many arguments");
            Err(Error::general(msg.as_str()))
        }
    }
}

/// Returns the location corresponding to `pos` in `buf`: the number of `\n`
/// characters before `pos` and the distance from the start of that line. A `pos`
/// beyond the end of `buf` is anchored to the end.
pub fn find_location(buf: &Buffer, pos: usize) -> (loc: Location)
    requires
        buf.wf(),
    ensures
        ({
            let p = if pos < buf@.len() { pos as int } else { buf@.len() as int };
            &&& loc.line == count_nl(buf@.take(p))
            &&& loc.col == p - line_start(buf@, p)
        }),
{
    let ghost s = buf@;
    let end = if pos < buf.size() {
        pos
    } else {
        buf.size()
    };
    proof {
        buf.lemma_wf();
        assert(s.take(0) =~= Seq::<char>::empty());
    }
    let mut line: u32 = 0;
    let mut col: u32 = 0;
    let mut i: usize = 0;
    while i < end
        invariant
            buf.wf(),
            s == buf@,
            end <= s.len(),
            s.len() <= 2_147_483_648,
            0 <= i <= end,
            line == count_nl(s.take(i as int)),
            col == i - line_start(s, i as int),
            0 <= line_start(s, i as int) <= i,
        decreases end - i,
    {
        proof {
            crate::text::lemma_line_start_bounds(s, i as int);
        }
        proof {
            lemma_count_nl_take_step(s, i as int);
            lemma_count_nl_le_len(s.take(i as int));
        }
        if buf.char_at(i) == '\n' {
            line = line + 1;
            col = 0;
        } else {
            col = col + 1;
        }
        i = i + 1;
    }
    Location { line, col }
}

/// Returns the position in `buf` of the location `loc`.
///
/// If `loc.col` would extend beyond the end of `loc.line`, the position is anchored
/// to the `\n` that ends the line; if `loc.line` would extend beyond the end of the
/// buffer, the end of the buffer is returned.
/// The buffer position of `loc` in `t`: the column `loc.col` of line `loc.line`,
/// where a column past the end of the line stops at the line's end, and a line
/// past the last line is the end of the text.
pub open spec fn pos_of_location(t: Seq<char>, loc: Location) -> int {
    let start = nth_line_start(t, loc.line as nat);
    if start < t.len() && loc.col > 0 {
        col_stop(t, start, start, loc.col as int)
    } else {
        start
    }
}

pub fn find_pos(buf: &Buffer, loc: Location) -> (pos: usize)
    requires
        buf.wf(),
    ensures
        pos == pos_of_location(buf@, loc),
{
    let pos = buf.find_line(loc.line);
    proof {
        crate::text::lemma_nth_line_start_bounds(buf@, loc.line as nat);
    }
    if pos < buf.size() && loc.col > 0 {
        let mut j = pos;
        while j < buf.size()
            invariant
                buf.wf(),
                pos <= j,
                pos == nth_line_start(buf@, loc.line as nat),
                pos < buf@.len(),
                loc.col > 0,
                j - pos <= loc.col,
                col_stop(buf@, pos as int, j as int, loc.col as int) == col_stop(
                    buf@,
                    pos as int,
                    pos as int,
                    loc.col as int,
                ),
            decreases buf@.len() - j,
        {
            if j - pos == loc.col as usize || buf.char_at(j) == '\n' {
                assert(col_stop(buf@, pos as int, j as int, loc.col as int) == j as int);
                return j;
            }
            j = j + 1;
        }
        buf.size()
    } else {
        pos
    }
}

/// Returns the position of the first character of the line relative to `pos`: the
/// position following the first `\n` found when scanning backwards from `pos` (an
/// exclusive bound), or `0` if the beginning of the buffer is reached.
pub fn find_start_line(buf: &Buffer, pos: usize) -> (start: usize)
    requires
        buf.wf(),
    ensures
        start == line_start(buf@, if pos < buf@.len() { pos as int } else { buf@.len() as int }),
{
    buf.find_start_line(pos)
}

/// Returns the position following the first `\n` found when scanning forward from
/// `pos` (an inclusive bound) paired with `false`, or the end of the buffer paired
/// with `true` when the end is reached first.
pub fn find_next_line(buf: &Buffer, pos: usize) -> (r: (usize, bool))
    requires
        buf.wf(),
    ensures
        r.0 == next_line(buf@, pos as int).0,
        r.1 == !next_line(buf@, pos as int).1,
{
    let (p, found) = buf.find_next_line(pos);
    (p, !found)
}

/// A position and its location convert back to each other: the location of `p`
/// (the newlines before it, and its distance from the start of its line) leads
/// back to `p`; and a location within the text (a line that exists, and a column
/// no further than the end of that line) leads to a position whose location it is.
pub proof fn lemma_location_round_trip(t: Seq<char>, p: int, loc: Location)
    requires
        0 <= p <= t.len(),
    ensures
        loc.line == count_nl(t.take(p)) && loc.col == p - line_start(t, p) ==> pos_of_location(t, loc) == p,
        ({
            let start = nth_line_start(t, loc.line as nat);
            let q = pos_of_location(t, loc);
            loc.line <= count_nl(t) && start + loc.col <= t.len() && (forall|k: int|
                start <= k < start + loc.col ==> t[k] != '\n') ==> q == start + loc.col && count_nl(t.take(q))
                == loc.line && q - line_start(t, q) == loc.col
        }),
{
    lemma_line_start_bounds(t, p);
    lemma_lines_agree(t, p, loc.line as nat);
    if loc.line == count_nl(t.take(p)) && loc.col == p - line_start(t, p) {
        let start = nth_line_start(t, loc.line as nat);
        if loc.col > 0 {
            lemma_col_stop_at(t, start, start, loc.col as int);
        }
    }
    let start = nth_line_start(t, loc.line as nat);
    if loc.line <= count_nl(t) && start + loc.col <= t.len() && (forall|k: int|
        start <= k < start + loc.col ==> t[k] != '\n') {
        crate::text::lemma_nth_line_start_bounds(t, loc.line as nat);
        if loc.col > 0 {
            lemma_col_stop_at(t, start, start, loc.col as int);
        }
        let q = start + loc.col;
        lemma_count_nl_flat(t, start, q);
        lemma_line_start_is(t, q, start);
    }
}

} // verus!

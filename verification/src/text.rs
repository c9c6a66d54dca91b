//! Mathematical descriptions of positions in a sequence of characters: lines,
//! line starts and column scans. The buffer and navigation functions are stated
//! over these.

use vstd::prelude::*;

verus! {

/// The number of `\n` characters in `s`.
pub open spec fn count_nl(s: Seq<char>) -> nat
    decreases s.len(),
{
    if s.len() == 0 {
        0
    } else {
        count_nl(s.drop_last()) + (if s.last() == '\n' { 1nat } else { 0nat })
    }
}

/// The position of the first character of the line containing the character just
/// before `p`: one past the last `\n` strictly before `p`, or `0` if there is none.
pub open spec fn line_start(s: Seq<char>, p: int) -> int
    decreases p,
{
    if p <= 0 {
        0
    } else if s[p - 1] == '\n' {
        p
    } else {
        line_start(s, p - 1)
    }
}

/// Scanning forward from `p` (inclusive): the position following the first `\n`
/// paired with `true`, or the end of `s` paired with `false` if no `\n` is found.
pub open spec fn next_line(s: Seq<char>, p: int) -> (int, bool)
    decreases s.len() - p,
{
    if p >= s.len() {
        (s.len() as int, false)
    } else if s[p] == '\n' {
        (p + 1, true)
    } else {
        next_line(s, p + 1)
    }
}

/// Scanning forward from `i` having seen `l` newlines so far: the position following
/// the newline that makes the count reach `line`, or the end of `s`.
pub open spec fn line_from(s: Seq<char>, i: int, l: nat, line: nat) -> int
    decreases s.len() - i,
{
    if i >= s.len() {
        s.len() as int
    } else if s[i] == '\n' {
        if l + 1 == line {
            i + 1
        } else {
            line_from(s, i + 1, l + 1, line)
        }
    } else {
        line_from(s, i + 1, l, line)
    }
}

/// The position of the first character of the `0`-based `line`, or the end of `s`
/// if `s` has fewer lines.
pub open spec fn nth_line_start(s: Seq<char>, line: nat) -> int {
    if line == 0 {
        0
    } else {
        line_from(s, 0, 0, line)
    }
}

/// Scanning forward from `j`, where `start` is the beginning of the scan: the first
/// position that is `col` characters past `start` or holds `\n`, or the end of `s`.
pub open spec fn col_stop(s: Seq<char>, start: int, j: int, col: int) -> int
    decreases s.len() - j,
{
    if j >= s.len() {
        s.len() as int
    } else if j - start == col || s[j] == '\n' {
        j
    } else {
        col_stop(s, start, j + 1, col)
    }
}

/// `count_nl` over a prefix grows by one exactly at a newline.
pub proof fn lemma_count_nl_take_step(s: Seq<char>, i: int)
    requires
        0 <= i < s.len(),
    ensures
        count_nl(s.take(i + 1)) == count_nl(s.take(i)) + (if s[i] == '\n' { 1nat } else { 0nat }),
{
    assert(s.take(i + 1).drop_last() =~= s.take(i));
}

/// The number of newlines in a sequence never exceeds its length.
pub proof fn lemma_count_nl_le_len(s: Seq<char>)
    ensures
        count_nl(s) <= s.len(),
    decreases s.len(),
{
    if s.len() > 0 {
        lemma_count_nl_le_len(s.drop_last());
    }
}

/// A line start lies between `0` and `p`.
pub proof fn lemma_line_start_bounds(s: Seq<char>, p: int)
    requires
        0 <= p <= s.len(),
    ensures
        0 <= line_start(s, p) <= p,
        line_start(s, p) == 0 || s[line_start(s, p) - 1] == '\n',
        forall|k: int| line_start(s, p) <= k < p ==> s[k] != '\n',
    decreases p,
{
    if p > 0 && s[p - 1] != '\n' {
        lemma_line_start_bounds(s, p - 1);
    }
}

/// The next-line scan stays within `p..=s.len()`.
pub proof fn lemma_next_line_bounds(s: Seq<char>, p: int)
    requires
        0 <= p <= s.len(),
    ensures
        p <= next_line(s, p).0 <= s.len(),
        next_line(s, p).1 ==> next_line(s, p).0 >= p + 1 && s[next_line(s, p).0 - 1] == '\n',
        !next_line(s, p).1 ==> next_line(s, p).0 == s.len(),
        forall|k: int| p <= k < next_line(s, p).0 - (if next_line(s, p).1 { 1int } else { 0int }) ==> s[k] != '\n',
    decreases s.len() - p,
{
    if p < s.len() && s[p] != '\n' {
        lemma_next_line_bounds(s, p + 1);
    }
}

/// A scan for a line start from `i` stays between `i` and the end.
pub proof fn lemma_line_from_bounds(s: Seq<char>, i: int, l: nat, line: nat)
    requires
        0 <= i <= s.len(),
    ensures
        i <= line_from(s, i, l, line) <= s.len(),
    decreases s.len() - i,
{
    if i < s.len() {
        lemma_line_from_bounds(s, i + 1, if s[i] == '\n' { l + 1 } else { l }, line);
    }
}

/// A line start lies within the sequence.
pub proof fn lemma_nth_line_start_bounds(s: Seq<char>, line: nat)
    ensures
        0 <= nth_line_start(s, line) <= s.len(),
{
    if line > 0 {
        lemma_line_from_bounds(s, 0, 0, line);
    }
}

/// Newlines are counted no fewer over a longer prefix, and strictly more where the
/// longer one adds a newline.
pub proof fn lemma_count_nl_mono(s: Seq<char>, a: int, b: int)
    requires
        0 <= a <= b <= s.len(),
    ensures
        count_nl(s.take(a)) <= count_nl(s.take(b)),
        (exists|k: int| a <= k < b && s[k] == '\n') ==> count_nl(s.take(a)) < count_nl(s.take(b)),
    decreases b - a,
{
    if a < b {
        lemma_count_nl_take_step(s, b - 1);
        lemma_count_nl_mono(s, a, b - 1);
        if exists|k: int| a <= k < b && s[k] == '\n' {
            let k = choose|k: int| a <= k < b && s[k] == '\n';
            if k < b - 1 {
                assert(exists|k2: int| a <= k2 < b - 1 && s[k2] == '\n');
            }
        }
    }
}

/// The start of the line at `p` is `q` exactly when `q` follows a newline (or is
/// `0`) and no newline lies between `q` and `p`.
pub proof fn lemma_line_start_is(s: Seq<char>, p: int, q: int)
    requires
        0 <= q <= p <= s.len(),
        q == 0 || s[q - 1] == '\n',
        forall|k: int| q <= k < p ==> s[k] != '\n',
    ensures
        line_start(s, p) == q,
{
    lemma_line_start_bounds(s, p);
    let ls = line_start(s, p);
    if ls > q {
        assert(s[ls - 1] == '\n');
    } else if ls < q {
        assert(s[q - 1] == '\n');
    }
}

/// Scanning for line `line` from `i`, having counted the newlines before `i`, ends
/// at the start of the line of any `p` whose prefix holds `line` newlines.
proof fn lemma_line_from_start(s: Seq<char>, i: int, p: int, line: nat)
    requires
        0 <= i <= p <= s.len(),
        count_nl(s.take(i)) < line,
        count_nl(s.take(p)) == line,
    ensures
        line_from(s, i, count_nl(s.take(i)), line) == line_start(s, p),
    decreases s.len() - i,
{
    let l = count_nl(s.take(i));
    if i == p {
    } else {
        lemma_count_nl_take_step(s, i);
        if s[i] == '\n' && l + 1 == line {
            assert forall|k: int| i + 1 <= k < p implies s[k] != '\n' by {
                if s[k] == '\n' {
                    lemma_count_nl_mono(s, i + 1, p);
                }
            }
            lemma_line_start_is(s, p, i + 1);
        } else {
            lemma_line_from_start(s, i + 1, p, line);
        }
    }
}

/// Scanning for line `line` from `i`, when the text holds at least `line`
/// newlines, ends at a position whose prefix holds exactly `line` newlines, just
/// after a newline.
proof fn lemma_line_from_count(s: Seq<char>, i: int, line: nat)
    requires
        0 <= i <= s.len(),
        count_nl(s.take(i)) < line <= count_nl(s),
    ensures
        count_nl(s.take(line_from(s, i, count_nl(s.take(i)), line))) == line,
        line_from(s, i, count_nl(s.take(i)), line) >= 1,
        s[line_from(s, i, count_nl(s.take(i)), line) - 1] == '\n',
    decreases s.len() - i,
{
    let l = count_nl(s.take(i));
    if i >= s.len() {
        assert(s.take(i) =~= s);
    } else {
        lemma_count_nl_take_step(s, i);
        if !(s[i] == '\n' && l + 1 == line) {
            lemma_line_from_count(s, i + 1, line);
        }
    }
}

/// Scanning for a line past the last one reaches the end.
proof fn lemma_line_from_past(s: Seq<char>, i: int, line: nat)
    requires
        0 <= i <= s.len(),
        count_nl(s) < line,
    ensures
        line_from(s, i, count_nl(s.take(i)), line) == s.len(),
    decreases s.len() - i,
{
    if i < s.len() {
        lemma_count_nl_take_step(s, i);
        lemma_count_nl_mono(s, i + 1, s.len() as int);
        assert(s.take(s.len() as int) =~= s);
        lemma_line_from_past(s, i + 1, line);
    }
}

/// The line functions agree: the line holding `p` starts where the line with the
/// number of newlines before `p` starts; line `line` of a text with at least that
/// many newlines starts just after its `line`-th newline, so that the prefix before
/// it holds `line` newlines; and a line past the last one starts at the end.
pub proof fn lemma_lines_agree(s: Seq<char>, p: int, line: nat)
    requires
        0 <= p <= s.len(),
    ensures
        nth_line_start(s, count_nl(s.take(p))) == line_start(s, p),
        nth_line_start(s, 0) == 0,
        line <= count_nl(s) ==> count_nl(s.take(nth_line_start(s, line))) == line,
        1 <= line <= count_nl(s) ==> nth_line_start(s, line) >= 1 && s[nth_line_start(s, line) - 1] == '\n',
        line > count_nl(s) ==> nth_line_start(s, line) == s.len(),
{
    assert(s.take(0) =~= Seq::<char>::empty());
    let n = count_nl(s.take(p));
    if n == 0 {
        assert forall|k: int| 0 <= k < p implies s[k] != '\n' by {
            if s[k] == '\n' {
                lemma_count_nl_mono(s, 0, p);
            }
        }
        lemma_line_start_is(s, p, 0);
    } else {
        lemma_line_from_start(s, 0, p, n);
    }
    if 1 <= line <= count_nl(s) {
        lemma_line_from_count(s, 0, line);
    }
    if line > count_nl(s) {
        lemma_line_from_past(s, 0, line);
    }
}

/// A column scan from `j` over a stretch free of newlines stops `col` characters
/// past `start`.
pub proof fn lemma_col_stop_at(s: Seq<char>, start: int, j: int, col: int)
    requires
        start <= j <= start + col <= s.len(),
        forall|k: int| j <= k < start + col ==> s[k] != '\n',
    ensures
        col_stop(s, start, j, col) == start + col,
    decreases s.len() - j,
{
    if j < s.len() && j - start != col {
        lemma_col_stop_at(s, start, j + 1, col);
    }
}

/// Over a stretch free of newlines the count of newlines stays.
pub proof fn lemma_count_nl_flat(s: Seq<char>, a: int, b: int)
    requires
        0 <= a <= b <= s.len(),
        forall|k: int| a <= k < b ==> s[k] != '\n',
    ensures
        count_nl(s.take(a)) == count_nl(s.take(b)),
    decreases b - a,
{
    if a < b {
        lemma_count_nl_take_step(s, b - 1);
        lemma_count_nl_flat(s, a, b - 1);
    }
}

} // verus!

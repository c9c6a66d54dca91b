//! Parsing of unsigned numbers written in a given radix, with the same rules as
//! std's `from_str_radix` for unsigned types: an optional leading `+`, at least one
//! digit, every digit valid in the radix, and no overflow.

use vstd::prelude::*;

verus! {

/// The value of `c` as a digit in any radix up to 36, or `36` if `c` is not a digit.
pub open spec fn digit_value(c: char) -> nat {
    if '0' <= c <= '9' {
        (c as nat - '0' as nat) as nat
    } else if 'a' <= c <= 'z' {
        (c as nat - 'a' as nat + 10) as nat
    } else if 'A' <= c <= 'Z' {
        (c as nat - 'A' as nat + 10) as nat
    } else {
        36
    }
}

/// Every character of `s` is a digit in `radix`.
pub open spec fn all_digits(s: Seq<char>, radix: nat) -> bool {
    forall|i: int| 0 <= i < s.len() ==> digit_value(#[trigger] s[i]) < radix
}

/// The value of the digits `s` in `radix`, most significant first.
pub open spec fn digits_value(s: Seq<char>, radix: nat) -> nat
    decreases s.len(),
{
    if s.len() == 0 {
        0
    } else {
        digits_value(s.drop_last(), radix) * radix + digit_value(s.last())
    }
}

/// The digits of `s` after an optional leading `+`.
pub open spec fn unsigned_digits(s: Seq<char>) -> Seq<char> {
    if s.len() > 0 && s[0] == '+' {
        s.drop_first()
    } else {
        s
    }
}

/// The number that `s` denotes in `radix`, if it is well formed and at most `max`.
pub open spec fn parse_unsigned(s: Seq<char>, radix: nat, max: nat) -> Option<nat> {
    let d = unsigned_digits(s);
    if d.len() > 0 && all_digits(d, radix) && digits_value(d, radix) <= max {
        Some(digits_value(d, radix))
    } else {
        None
    }
}

/// Returns the digit value of `c`, or `36` if it is not a digit.
fn digit_of(c: char) -> (d: u64)
    ensures
        d == digit_value(c),
{
    if '0' <= c && c <= '9' {
        (c as u64) - ('0' as u64)
    } else if 'a' <= c && c <= 'z' {
        (c as u64) - ('a' as u64) + 10
    } else if 'A' <= c && c <= 'Z' {
        (c as u64) - ('A' as u64) + 10
    } else {
        36
    }
}

proof fn lemma_digits_value_mono(s: Seq<char>, radix: nat)
    requires
        radix >= 2,
        all_digits(s, radix),
        s.len() > 0,
    ensures
        digits_value(s, radix) >= digits_value(s.drop_last(), radix),
{
    assert(digits_value(s.drop_last(), radix) * radix >= digits_value(s.drop_last(), radix))
        by (nonlinear_arith)
        requires
            radix >= 2,
    ;
}

/// Parses the characters `s` as an unsigned number in `radix` no larger than `max`.
pub fn parse_unsigned_chars(s: &Vec<char>, radix: u32, max: u64) -> (r: Option<u64>)
    requires
        2 <= radix <= 36,
    ensures
        r == (match parse_unsigned(s@, radix as nat, max as nat) {
            Some(v) => Some(v as u64),
            None => None::<u64>,
        }),
{
    let ghost d = unsigned_digits(s@);
    let start: usize = if s.len() > 0 && s[0] == '+' {
        1
    } else {
        0
    };
    assert(d =~= s@.skip(start as int));
    if start >= s.len() {
        return None;
    }
    let mut value: u64 = 0;
    let mut i: usize = start;
    while i < s.len()
        invariant
            start <= i <= s@.len(),
            d == s@.skip(start as int),
            d == unsigned_digits(s@),
            2 <= radix <= 36,
            all_digits(d.take(i - start), radix as nat),
            value == digits_value(d.take(i - start), radix as nat),
            value <= max,
        decreases s@.len() - i,
    {
        let dv = digit_of(s[i]);
        let ghost pre = d.take(i - start);
        let ghost next = d.take(i - start + 1);
        assert(next.drop_last() =~= pre);
        assert(next.last() == s@[i as int]);
        if dv >= radix as u64 {
            proof {
                assert(d[i - start] == s@[i as int]);
                assert(digit_value(d[i - start]) >= radix);
                assert(!all_digits(d, radix as nat));
            }
            return None;
        }
        assert(all_digits(next, radix as nat));
        if dv > max {
            proof {
                lemma_prefix_value_bound_if(d, (i - start + 1) as int, radix as nat);
                assert(digits_value(next, radix as nat) >= dv) by (nonlinear_arith)
                    requires
                        digits_value(next, radix as nat) == digits_value(pre, radix as nat) * radix
                            + dv,
                        digits_value(pre, radix as nat) >= 0,
                        radix >= 2,
                ;
            }
            return None;
        }
        if value > (max - dv) / (radix as u64) {
            proof {
                assert(value * radix + dv > max) by (nonlinear_arith)
                    requires
                        value > (max - dv) / (radix as int),
                        radix >= 2,
                        dv <= max,
                ;
                lemma_prefix_value_bound_if(d, (i - start + 1) as int, radix as nat);
            }
            return None;
        }
        assert(value * (radix as u64) + dv <= max) by (nonlinear_arith)
            requires
                value <= (max - dv) / (radix as int),
                radix >= 2,
                dv <= max,
        ;
        value = value * (radix as u64) + dv;
        i = i + 1;
    }
    assert(d.take(s@.len() - start) =~= d);
    Some(value)
}

/// The value of digits never decreases when more digits are appended.
proof fn lemma_prefix_value_bound(d: Seq<char>, k: int, radix: nat)
    requires
        0 <= k <= d.len(),
        radix >= 2,
        all_digits(d, radix),
    ensures
        digits_value(d, radix) >= digits_value(d.take(k), radix),
    decreases d.len() - k,
{
    if k < d.len() {
        lemma_prefix_value_bound(d, k + 1, radix);
        let t = d.take(k + 1);
        assert(t.drop_last() =~= d.take(k));
        assert(all_digits(t, radix));
        lemma_digits_value_mono(t, radix);
    } else {
        assert(d.take(k) =~= d);
    }
}

/// When all of `d` are digits, its value is at least that of any prefix.
proof fn lemma_prefix_value_bound_if(d: Seq<char>, k: int, radix: nat)
    requires
        0 <= k <= d.len(),
        radix >= 2,
    ensures
        all_digits(d, radix) ==> digits_value(d, radix) >= digits_value(d.take(k), radix),
{
    if all_digits(d, radix) {
        lemma_prefix_value_bound(d, k, radix);
    }
}

/// Parses `s` as an unsigned number in `radix` no larger than `max`.
pub fn parse_unsigned_str(s: &str, radix: u32, max: u64) -> (r: Option<u64>)
    requires
        2 <= radix <= 36,
    ensures
        r == (match parse_unsigned(s@, radix as nat, max as nat) {
            Some(v) => Some(v as u64),
            None => None::<u64>,
        }),
{
    let cs = crate::strings::chars_of(s);
    parse_unsigned_chars(&cs, radix, max)
}

/// Parses `s` as a decimal `u32` as std's `str::parse::<u32>` does.
pub fn parse_u32(s: &str) -> (r: Option<u32>)
    ensures
        r == (match parse_unsigned(s@, 10, u32::MAX as nat) {
            Some(v) => Some(v as u32),
            None => None::<u32>,
        }),
{
    match parse_unsigned_str(s, 10, u32::MAX as u64) {
        Some(v) => Some(v as u32),
        None => None,
    }
}

/// Parses `s` as a decimal `u8` as std's `str::parse::<u8>` does.
pub fn parse_u8(s: &str) -> (r: Option<u8>)
    ensures
        r == (match parse_unsigned(s@, 10, u8::MAX as nat) {
            Some(v) => Some(v as u8),
            None => None::<u8>,
        }),
{
    match parse_unsigned_str(s, 10, u8::MAX as u64) {
        Some(v) => Some(v as u8),
        None => None,
    }
}

} // verus!

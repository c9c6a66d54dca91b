//! Sorting of named entries: by name, in the order of strings, or by a number.

use crate::strings::chars_of;
use vstd::prelude::*;

verus! {

broadcast use vstd::seq_lib::group_to_multiset_ensures;

/// `a` comes before `b`, or equals it, in the order of strings: character by
/// character, a prefix first. (std orders strings by their `UTF-8` bytes, which
/// order as their characters do.)
pub open spec fn lex_le(a: Seq<char>, b: Seq<char>) -> bool
    decreases a.len(),
{
    if a.len() == 0 {
        true
    } else if b.len() == 0 {
        false
    } else if a[0] != b[0] {
        a[0] < b[0]
    } else {
        lex_le(a.drop_first(), b.drop_first())
    }
}

/// The order of strings is total.
pub proof fn lemma_lex_total(a: Seq<char>, b: Seq<char>)
    ensures
        lex_le(a, b) || lex_le(b, a),
    decreases a.len(),
{
    if a.len() > 0 && b.len() > 0 && a[0] == b[0] {
        lemma_lex_total(a.drop_first(), b.drop_first());
    }
}

/// The order of strings is transitive.
pub proof fn lemma_lex_trans(a: Seq<char>, b: Seq<char>, c: Seq<char>)
    requires
        lex_le(a, b),
        lex_le(b, c),
    ensures
        lex_le(a, c),
    decreases a.len(),
{
    if a.len() > 0 && b.len() > 0 && c.len() > 0 && a[0] == b[0] && b[0] == c[0] {
        lemma_lex_trans(a.drop_first(), b.drop_first(), c.drop_first());
    }
}

/// Returns `true` if `a` comes before `b`, or equals it, in the order of strings.
pub fn str_le(a: &str, b: &str) -> (r: bool)
    ensures
        r == lex_le(a@, b@),
{
    let x = chars_of(a);
    let y = chars_of(b);
    let mut i: usize = 0;
    assert(x@.skip(0) =~= x@);
    assert(y@.skip(0) =~= y@);
    while i < x.len() && i < y.len() && x[i] == y[i]
        invariant
            i <= x@.len(),
            i <= y@.len(),
            lex_le(a@, b@) == lex_le(x@.skip(i as int), y@.skip(i as int)),
            x@ == a@,
            y@ == b@,
        decreases x@.len() - i,
    {
        assert(x@.skip(i as int).drop_first() =~= x@.skip(i + 1));
        assert(y@.skip(i as int).drop_first() =~= y@.skip(i + 1));
        i = i + 1;
    }
    if i == x.len() {
        true
    } else if i == y.len() {
        false
    } else {
        assert(x@.skip(i as int)[0] == x@[i as int]);
        assert(y@.skip(i as int)[0] == y@[i as int]);
        x[i] < y[i]
    }
}

/// The entries as (name, text) values.
pub open spec fn entry_views(v: Seq<(String, String)>) -> Seq<(Seq<char>, Seq<char>)> {
    v.map_values(|e: (String, String)| (e.0@, e.1@))
}

/// The entries are in the order of their names.
pub open spec fn sorted_by_name(s: Seq<(Seq<char>, Seq<char>)>) -> bool {
    forall|i: int, j: int| 0 <= i < j < s.len() ==> lex_le(s[i].0, s[j].0)
}

/// The entries are in the order of their numbers.
pub open spec fn sorted_by_number(s: Seq<(Seq<char>, u8)>) -> bool {
    forall|i: int, j: int| 0 <= i < j < s.len() ==> s[i].1 <= s[j].1
}

/// The named numbers as values.
pub open spec fn number_views(v: Seq<(String, u8)>) -> Seq<(Seq<char>, u8)> {
    v.map_values(|e: (String, u8)| (e.0@, e.1))
}

/// Inserting an element adds it to the multiset of elements.
proof fn lemma_insert_multiset<A>(s: Seq<A>, k: int, x: A)
    requires
        0 <= k <= s.len(),
    ensures
        s.insert(k, x).to_multiset() =~= s.to_multiset().insert(x),
{
    let t = s.insert(k, x);
    assert(t.remove(k) =~= s);
    assert(t[k] == x);
    assert(t.to_multiset().count(x) > 0) by {
        assert(t.contains(x));
    }
    assert forall|y: A| #[trigger] t.to_multiset().count(y) == s.to_multiset().insert(x).count(y) by {
        assert(t.remove(k).to_multiset() =~= t.to_multiset().remove(x));
    }
}

/// Returns the entries of `v` in the order of their names; entries with equal
/// names keep their order.
pub fn sort_by_name(v: &Vec<(String, String)>) -> (r: Vec<(String, String)>)
    ensures
        sorted_by_name(entry_views(r@)),
        entry_views(r@).to_multiset() == entry_views(v@).to_multiset(),
{
    let mut out: Vec<(String, String)> = Vec::new();
    let mut i: usize = 0;
    assert(entry_views(v@).take(0) =~= Seq::<(Seq<char>, Seq<char>)>::empty());
    assert(entry_views(out@) =~= Seq::<(Seq<char>, Seq<char>)>::empty());
    while i < v.len()
        invariant
            i <= v@.len(),
            sorted_by_name(entry_views(out@)),
            entry_views(out@).to_multiset() == entry_views(v@).take(i as int).to_multiset(),
        decreases v@.len() - i,
    {
        let name = v[i].0.as_str();
        let mut k: usize = out.len();
        while k > 0 && !str_le(out[k - 1].0.as_str(), name)
            invariant
                k <= out@.len(),
                forall|j: int| k <= j < out@.len() ==> !lex_le(#[trigger] entry_views(out@)[j].0, name@),
            decreases k,
        {
            k = k - 1;
        }
        let ghost before = entry_views(out@);
        let ghost x = (v@[i as int].0@, v@[i as int].1@);
        let entry = (v[i].0.clone(), v[i].1.clone());
        out.insert(k, entry);
        proof {
            assert(entry_views(out@) =~= before.insert(k as int, x));
            lemma_insert_multiset(before, k as int, x);
            assert(entry_views(v@).take(i + 1) =~= entry_views(v@).take(i as int).push(x));
            let after = entry_views(out@);
            assert forall|a: int, b: int| 0 <= a < b < after.len() implies lex_le(after[a].0, after[b].0) by {
                if a < k && b < k {
                    assert(after[a] == before[a] && after[b] == before[b]);
                } else if a < k && b == k {
                    if k > 0 {
                        assert(lex_le(before[k - 1].0, x.0));
                        if a < k - 1 {
                            lemma_lex_trans(before[a].0, before[k - 1].0, x.0);
                        }
                    }
                } else if a < k && b > k {
                    assert(after[b] == before[b - 1]);
                    assert(after[a] == before[a]);
                } else if a == k {
                    assert(after[b] == before[b - 1]);
                    assert(!lex_le(before[b - 1].0, x.0));
                    lemma_lex_total(before[b - 1].0, x.0);
                } else {
                    assert(after[a] == before[a - 1] && after[b] == before[b - 1]);
                }
            }
        }
        i = i + 1;
    }
    assert(entry_views(v@).take(v@.len() as int) =~= entry_views(v@));
    out
}

/// Returns the named numbers of `v` in the order of their numbers; entries with
/// equal numbers keep their order.
pub fn sort_by_number(v: &Vec<(String, u8)>) -> (r: Vec<(String, u8)>)
    ensures
        sorted_by_number(number_views(r@)),
        number_views(r@).to_multiset() == number_views(v@).to_multiset(),
{
    let mut out: Vec<(String, u8)> = Vec::new();
    let mut i: usize = 0;
    assert(number_views(v@).take(0) =~= Seq::<(Seq<char>, u8)>::empty());
    assert(number_views(out@) =~= Seq::<(Seq<char>, u8)>::empty());
    while i < v.len()
        invariant
            i <= v@.len(),
            sorted_by_number(number_views(out@)),
            number_views(out@).to_multiset() == number_views(v@).take(i as int).to_multiset(),
        decreases v@.len() - i,
    {
        let n = v[i].1;
        let mut k: usize = out.len();
        while k > 0 && out[k - 1].1 > n
            invariant
                k <= out@.len(),
                forall|j: int| k <= j < out@.len() ==> #[trigger] number_views(out@)[j].1 > n,
            decreases k,
        {
            k = k - 1;
        }
        let ghost before = number_views(out@);
        let ghost x = (v@[i as int].0@, n);
        let entry = (v[i].0.clone(), n);
        out.insert(k, entry);
        proof {
            assert(number_views(out@) =~= before.insert(k as int, x));
            lemma_insert_multiset(before, k as int, x);
            assert(number_views(v@).take(i + 1) =~= number_views(v@).take(i as int).push(x));
            let after = number_views(out@);
            assert forall|a: int, b: int| 0 <= a < b < after.len() implies after[a].1 <= after[b].1 by {
                if a < k && b < k {
                    assert(after[a] == before[a] && after[b] == before[b]);
                } else if a < k && b == k {
                    assert(after[a] == before[a]);
                    if k > 0 {
                        assert(before[k - 1].1 <= n);
                    }
                } else if a < k && b > k {
                    assert(after[b] == before[b - 1]);
                    assert(after[a] == before[a]);
                } else if a == k {
                    assert(after[b] == before[b - 1]);
                } else {
                    assert(after[a] == before[a - 1] && after[b] == before[b - 1]);
                }
            }
        }
        i = i + 1;
    }
    assert(number_views(v@).take(v@.len() as int) =~= number_views(v@));
    out
}

} // verus!

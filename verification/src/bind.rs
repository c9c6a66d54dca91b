//! Binds key sequences to editing operations.
//!
//! A key sequence is written as key names separated by `:`, such as `C-x:C-s`,
//! where `M-<key>` stands for `ESC` followed by `<key>`. The names are those of
//! [`key_of_name`], and any single character names itself. Operations are named as
//! in [`op_description`](crate::op::op_description).

use crate::error::{Error, Result};
use crate::key::{key_named, key_of_name, Key};
use crate::op::{describe, is_op, op_description};
use crate::strings::{char_views, split_fields, split_on, string_of, to_string};
use vstd::prelude::*;

verus! {

// ---------------------------------------------------------------------------
// Key sequences.
// ---------------------------------------------------------------------------

/// The key names that a field of a key sequence stands for: `M-<key>` is `ESC`
/// followed by what `<key>` stands for, and anything else is itself.
pub open spec fn expand_meta_field(f: Seq<char>) -> Seq<Seq<char>>
    decreases f.len(),
{
    if f.len() >= 2 && f[0] == 'M' && f[1] == '-' {
        seq!["ESC"@] + expand_meta_field(f.skip(2))
    } else {
        seq![f]
    }
}

/// The key names that the fields `fs` stand for, in order.
pub open spec fn expand_meta(fs: Seq<Seq<char>>) -> Seq<Seq<char>>
    decreases fs.len(),
{
    if fs.len() == 0 {
        seq![]
    } else {
        expand_meta(fs.drop_last()) + expand_meta_field(fs.last())
    }
}

/// The key with the name `name`: a predefined name, or a single character.
pub open spec fn key_for(name: Seq<char>) -> Option<Key> {
    match key_of_name(name) {
        Some(k) => Some(k),
        None => if name.len() == 1 {
            Some(Key::Char(name[0]))
        } else {
            None
        },
    }
}

/// The keys with the names `names`, or the first name that names no key.
pub open spec fn keys_of(names: Seq<Seq<char>>) -> core::result::Result<Seq<Key>, Seq<char>>
    decreases names.len(),
{
    if names.len() == 0 {
        Ok(seq![])
    } else {
        match keys_of(names.drop_last()) {
            Err(name) => Err(name),
            Ok(ks) => match key_for(names.last()) {
                Some(k) => Ok(ks.push(k)),
                None => Err(names.last()),
            },
        }
    }
}

/// The keys of the key sequence `key_seq`, or the first name in it that names no
/// key.
pub open spec fn key_seq_keys(key_seq: Seq<char>) -> core::result::Result<Seq<Key>, Seq<char>> {
    keys_of(expand_meta(split_on(key_seq, ':', ':')))
}

/// The key sequences that cannot be rebound: `C-g`, `C-q` and `ESC`.
pub open spec fn is_restricted(keys: Seq<Key>) -> bool {
    ||| keys == seq![Key::Control(7)]
    ||| keys == seq![Key::Control(17)]
    ||| keys == seq![Key::Control(27)]
}

/// The views of a sequence of key vectors.
pub open spec fn key_views(v: Seq<Vec<Key>>) -> Seq<Seq<Key>> {
    v.map_values(|k: Vec<Key>| k@)
}

/// Returns the names that the field `f` of a key sequence stands for.
fn expand_field(f: &Vec<char>, names: &mut Vec<Vec<char>>)
    ensures
        char_views(final(names)@) == char_views(old(names)@) + expand_meta_field(f@),
{
    let mut i: usize = 0;
    let ghost start = char_views(names@);
    assert(f@.skip(0) =~= f@);
    while f.len() - i >= 2 && f[i] == 'M' && f[i + 1] == '-'
        invariant
            i <= f@.len(),
            start + expand_meta_field(f@) == char_views(names@) + expand_meta_field(f@.skip(i as int)),
        decreases f@.len() - i,
    {
        let ghost before = char_views(names@);
        let esc = crate::strings::chars_of("ESC");
        names.push(esc);
        proof {
            let g = f@.skip(i as int);
            assert(g[0] == 'M' && g[1] == '-');
            assert(g.skip(2) =~= f@.skip(i + 2));
            assert(char_views(names@) =~= before + seq!["ESC"@]);
        }
        i = i + 2;
    }
    let ghost before = char_views(names@);
    let mut rest: Vec<char> = Vec::new();
    let mut j: usize = i;
    while j < f.len()
        invariant
            i <= j <= f@.len(),
            rest@ == f@.subrange(i as int, j as int),
        decreases f@.len() - j,
    {
        rest.push(f[j]);
        j = j + 1;
        assert(rest@ =~= f@.subrange(i as int, j as int));
    }
    assert(rest@ =~= f@.skip(i as int));
    assert(expand_meta_field(f@.skip(i as int)) =~= seq![rest@]);
    names.push(rest);
    assert(char_views(names@) =~= before + seq![f@.skip(i as int)]);
}

/// Returns the key named `name`.
fn key_for_name(name: &Vec<char>) -> (r: Option<Key>)
    ensures
        r == key_for(name@),
{
    let s = string_of(name);
    match key_named(s.as_str()) {
        Some(k) => Some(k),
        None => {
            if name.len() == 1 {
                Some(Key::Char(name[0]))
            } else {
                None
            }
        },
    }
}

/// Returns `true` if `a` and `b` hold the same keys.
fn keys_eq(a: &Vec<Key>, b: &Vec<Key>) -> (r: bool)
    ensures
        r == (a@ == b@),
{
    if a.len() != b.len() {
        return false;
    }
    let mut i: usize = 0;
    while i < a.len()
        invariant
            a@.len() == b@.len(),
            i <= a@.len(),
            forall|k: int| 0 <= k < i ==> a@[k] == b@[k],
        decreases a@.len() - i,
    {
        if a[i] != b[i] {
            return false;
        }
        i = i + 1;
    }
    assert(a@ =~= b@);
    true
}

/// Converts the key sequence `key_seq` to keys.
///
/// If `strict` is `true`, then a restricted key sequence is an error.
pub fn to_keys(key_seq: &str, strict: bool) -> (r: Result<Vec<Key>>)
    ensures
        match key_seq_keys(key_seq@) {
            Err(name) => r matches Err(Error::InvalidKey { key }) && key@ == name,
            Ok(ks) => if strict && is_restricted(ks) {
                r matches Err(Error::RestrictedKey { key_seq: k }) && k@ == key_seq@
            } else {
                r matches Ok(v) && v@ == ks
            },
        },
{
    // Preprocess key sequence by expanding occurrences of `M-<key>` into `ESC` +
    // `<key>`.
    let fields = split_fields(key_seq, ':');
    let ghost fs = char_views(fields@);
    let mut names: Vec<Vec<char>> = Vec::new();
    let mut i: usize = 0;
    while i < fields.len()
        invariant
            fs == char_views(fields@),
            i <= fields@.len(),
            char_views(names@) == expand_meta(fs.take(i as int)),
        decreases fields@.len() - i,
    {
        proof {
            let t = fs.take(i + 1);
            assert(t.drop_last() =~= fs.take(i as int));
            assert(t.last() == fields@[i as int]@);
        }
        expand_field(&fields[i], &mut names);
        i = i + 1;
    }
    assert(fs.take(fs.len() as int) =~= fs);
    let ghost ns = char_views(names@);
    // Check validity of key names and produce vector of keys.
    let mut keys: Vec<Key> = Vec::new();
    let mut j: usize = 0;
    while j < names.len()
        invariant
            ns == char_views(names@),
            ns == expand_meta(split_on(key_seq@, ':', ':')),
            j <= names@.len(),
            keys_of(ns.take(j as int)) == Ok::<Seq<Key>, Seq<char>>(keys@),
        decreases names@.len() - j,
    {
        proof {
            let t = ns.take(j + 1);
            assert(t.drop_last() =~= ns.take(j as int));
            assert(t.last() == names@[j as int]@);
        }
        match key_for_name(&names[j]) {
            Some(k) => {
                keys.push(k);
            },
            None => {
                proof {
                    lemma_keys_of_err(ns, j as int);
                }
                let s = string_of(&names[j]);
                return Err(Error::invalid_key(s.as_str()));
            },
        }
        j = j + 1;
    }
    assert(ns.take(ns.len() as int) =~= ns);
    // A restricted key sequence cannot be bound when strict.
    if strict && is_restricted_keys(&keys) {
        Err(Error::restricted_key(key_seq))
    } else {
        Ok(keys)
    }
}

/// An error for the name at `j` carries over to the whole sequence.
proof fn lemma_keys_of_err(ns: Seq<Seq<char>>, j: int)
    requires
        0 <= j < ns.len(),
        keys_of(ns.take(j)) is Ok,
        key_for(ns[j]) is None,
    ensures
        keys_of(ns) == Err::<Seq<Key>, Seq<char>>(ns[j]),
    decreases ns.len() - j,
{
    lemma_keys_of_err_at(ns, j, ns.len() as int);
    assert(ns.take(ns.len() as int) =~= ns);
}

proof fn lemma_keys_of_err_at(ns: Seq<Seq<char>>, j: int, n: int)
    requires
        0 <= j < n <= ns.len(),
        keys_of(ns.take(j)) is Ok,
        key_for(ns[j]) is None,
    ensures
        keys_of(ns.take(n)) == Err::<Seq<Key>, Seq<char>>(ns[j]),
    decreases n - j,
{
    if n == j + 1 {
        let t = ns.take(j + 1);
        assert(t.drop_last() =~= ns.take(j));
    } else {
        lemma_keys_of_err_at(ns, j, n - 1);
        assert(ns.take(n).drop_last() =~= ns.take(n - 1));
    }
}

/// Returns `true` if `keys` is one of the restricted key sequences.
fn is_restricted_keys(keys: &Vec<Key>) -> (r: bool)
    ensures
        r == is_restricted(keys@),
{
    if keys.len() == 1 {
        let k = keys[0];
        let r = k == Key::Control(7) || k == Key::Control(17) || k == Key::Control(27);
        proof {
            if r {
                assert(keys@ =~= seq![k]);
            }
        }
        r
    } else {
        false
    }
}

// ---------------------------------------------------------------------------
// Bindings.
// ---------------------------------------------------------------------------

/// The map denoted by a list of binding entries, where later entries take
/// precedence.
pub open spec fn binding_map(entries: Seq<(Vec<Key>, String)>) -> Map<Seq<Key>, Seq<char>>
    decreases entries.len(),
{
    if entries.len() == 0 {
        Map::empty()
    } else {
        binding_map(entries.drop_last()).insert(entries.last().0@, entries.last().1@)
    }
}

/// No two entries share a key sequence.
pub open spec fn distinct_keys(entries: Seq<(Vec<Key>, String)>) -> bool {
    forall|i: int, j: int|
        0 <= i < entries.len() && 0 <= j < entries.len() && i != j ==> entries[i].0@ != entries[j].0@
}

/// The proper, nonempty prefixes of `keys`.
pub open spec fn proper_prefixes(keys: Seq<Key>) -> Set<Seq<Key>> {
    Set::new(|p: Seq<Key>| exists|n: int| 1 <= n < keys.len() && p == keys.take(n))
}

proof fn lemma_binding_map_entry(entries: Seq<(Vec<Key>, String)>, i: int)
    requires
        distinct_keys(entries),
        0 <= i < entries.len(),
    ensures
        binding_map(entries).contains_key(entries[i].0@),
        binding_map(entries)[entries[i].0@] == entries[i].1@,
    decreases entries.len(),
{
    if i < entries.len() - 1 {
        let d = entries.drop_last();
        assert(d[i] == entries[i]);
        lemma_binding_map_entry(d, i);
    }
}

proof fn lemma_binding_map_absent(entries: Seq<(Vec<Key>, String)>, keys: Seq<Key>)
    requires
        forall|i: int| 0 <= i < entries.len() ==> entries[i].0@ != keys,
    ensures
        !binding_map(entries).contains_key(keys),
    decreases entries.len(),
{
    if entries.len() > 0 {
        lemma_binding_map_absent(entries.drop_last(), keys);
    }
}

proof fn lemma_binding_map_update(entries: Seq<(Vec<Key>, String)>, i: int, e: (Vec<Key>, String))
    requires
        distinct_keys(entries),
        0 <= i < entries.len(),
        entries[i].0@ == e.0@,
    ensures
        binding_map(entries.update(i, e)) == binding_map(entries).insert(e.0@, e.1@),
    decreases entries.len(),
{
    let u = entries.update(i, e);
    if i == entries.len() - 1 {
        assert(u.drop_last() =~= entries.drop_last());
        assert(binding_map(u) =~= binding_map(entries).insert(e.0@, e.1@));
    } else {
        let d = entries.drop_last();
        assert(u.drop_last() =~= d.update(i, e));
        lemma_binding_map_update(d, i, e);
        assert(binding_map(u) =~= binding_map(entries).insert(e.0@, e.1@));
    }
}

/// A mapping of key sequences to the names of editing operations.
pub struct Bindings {
    bind_map: Vec<(Vec<Key>, String)>,
    bind_prefixes: Vec<Vec<Key>>,
}

impl Bindings {
    /// The bindings' consistency: no key sequence is bound twice.
    pub closed spec fn wf(&self) -> bool {
        distinct_keys(self.bind_map@)
    }

    /// The operation bound to each key sequence.
    pub closed spec fn map(&self) -> Map<Seq<Key>, Seq<char>> {
        binding_map(self.bind_map@)
    }

    /// The bindings in the order in which they were first made.
    pub closed spec fn binding_list(&self) -> Seq<(Vec<Key>, String)> {
        self.bind_map@
    }

    /// The proper prefixes of bound key sequences.
    pub closed spec fn prefixes(&self) -> Set<Seq<Key>> {
        key_views(self.bind_prefixes@).to_set()
    }

    /// Creates bindings with none bound.
    pub fn empty() -> (b: Bindings)
        ensures
            b.wf(),
            b.map() == Map::<Seq<Key>, Seq<char>>::empty(),
            b.prefixes() == Set::<Seq<Key>>::empty(),
            b.binding_list() == Seq::<(Vec<Key>, String)>::empty(),
    {
        let b = Bindings { bind_map: Vec::new(), bind_prefixes: Vec::new() };
        assert(b.map() =~= Map::<Seq<Key>, Seq<char>>::empty());
        assert(b.prefixes() =~= Set::<Seq<Key>>::empty());
        b
    }

    /// Binds `keys` to `op`, replacing any binding of `keys`, and records the proper
    /// prefixes of `keys`.
    fn insert(&mut self, keys: Vec<Key>, op: String)
        requires
            old(self).wf(),
        ensures
            final(self).wf(),
            final(self).map() == old(self).map().insert(keys@, op@),
            final(self).prefixes() == old(self).prefixes() + proper_prefixes(keys@),
    {
        let n = keys.len();
        let mut i: usize = 1;
        let ghost p0 = self.prefixes();
        assert(p0 + proper_prefixes(keys@).filter(|p: Seq<Key>| exists|m: int| 1 <= m < 1 && p == keys@.take(m)) =~= p0);
        while i < n
            invariant
                n == keys@.len(),
                1 <= i,
                i <= n || i == 1,
                self.bind_map@ == old(self).bind_map@,
                self.wf(),
                self.prefixes() == p0 + Set::new(|p: Seq<Key>| exists|m: int| 1 <= m < i && p == keys@.take(m)),
            decreases n - i,
        {
            let mut prefix: Vec<Key> = Vec::new();
            let mut j: usize = 0;
            while j < i
                invariant
                    i < n == keys@.len(),
                    j <= i,
                    prefix@ == keys@.take(j as int),
                decreases i - j,
            {
                prefix.push(keys[j]);
                j = j + 1;
                assert(prefix@ =~= keys@.take(j as int));
            }
            let ghost before = self.prefixes();
            self.add_prefix(prefix);
            assert(self.prefixes() =~= p0 + Set::new(|p: Seq<Key>| exists|m: int| 1 <= m < i + 1 && p == keys@.take(m))) by {
                assert forall|p: Seq<Key>| (exists|m: int| 1 <= m < i + 1 && p == keys@.take(m)) implies before.insert(keys@.take(i as int)).contains(p) || p0.contains(p) by {
                    let m = choose|m: int| 1 <= m < i + 1 && p == keys@.take(m);
                    if m < i {
                        assert(exists|m2: int| 1 <= m2 < i && p == keys@.take(m2));
                    }
                }
            }
            i = i + 1;
        }
        assert(self.prefixes() =~= p0 + proper_prefixes(keys@)) by {
            let a = Set::new(|p: Seq<Key>| exists|m: int| 1 <= m < i && p == keys@.take(m));
            assert forall|p: Seq<Key>| a.contains(p) <==> proper_prefixes(keys@).contains(p) by {
                if a.contains(p) {
                    let m = choose|m: int| 1 <= m < i && p == keys@.take(m);
                    assert(1 <= m < keys@.len() && p == keys@.take(m));
                }
                if proper_prefixes(keys@).contains(p) {
                    let m = choose|m: int| 1 <= m < keys@.len() && p == keys@.take(m);
                    assert(1 <= m < i && p == keys@.take(m));
                }
            }
            assert(a =~= proper_prefixes(keys@));
        }
        let mut k: usize = 0;
        while k < self.bind_map.len()
            invariant
                self.wf(),
                self.bind_map@ == old(self).bind_map@,
                self.prefixes() == p0 + proper_prefixes(keys@),
                p0 == old(self).prefixes(),
                0 <= k <= self.bind_map@.len(),
                forall|x: int| 0 <= x < k ==> self.bind_map@[x].0@ != keys@,
            decreases self.bind_map@.len() - k,
        {
            if keys_eq(&self.bind_map[k].0, &keys) {
                proof {
                    lemma_binding_map_update(self.bind_map@, k as int, (keys, op));
                }
                self.bind_map.set(k, (keys, op));
                return;
            }
            k = k + 1;
        }
        proof {
            lemma_binding_map_absent(self.bind_map@, keys@);
        }
        let ghost before = self.bind_map@;
        self.bind_map.push((keys, op));
        assert(self.bind_map@.drop_last() =~= before);
    }

    /// Records `prefix` as a prefix of a bound key sequence.
    fn add_prefix(&mut self, prefix: Vec<Key>)
        ensures
            final(self).bind_map@ == old(self).bind_map@,
            final(self).prefixes() == old(self).prefixes().insert(prefix@),
    {
        let mut k: usize = 0;
        while k < self.bind_prefixes.len()
            invariant
                self.bind_map@ == old(self).bind_map@,
                self.bind_prefixes@ == old(self).bind_prefixes@,
                0 <= k <= self.bind_prefixes@.len(),
            decreases self.bind_prefixes@.len() - k,
        {
            if keys_eq(&self.bind_prefixes[k], &prefix) {
                proof {
                    assert(key_views(self.bind_prefixes@)[k as int] == prefix@);
                    assert(self.prefixes().contains(prefix@));
                    assert(self.prefixes().insert(prefix@) =~= self.prefixes());
                }
                return;
            }
            k = k + 1;
        }
        let ghost before = self.bind_prefixes@;
        self.bind_prefixes.push(prefix);
        proof {
            assert(key_views(self.bind_prefixes@) =~= key_views(before).push(prefix@));
            key_views(before).lemma_push_to_set_commute(prefix@);
        }
    }
}

/// A configured binding entry as text: its key sequence and its operation.
pub type EntryView = (Seq<char>, Seq<char>);

/// The text of configured binding entries.
pub open spec fn entry_views(es: Seq<(String, String)>) -> Seq<EntryView> {
    es.map_values(|e: (String, String)| (e.0@, e.1@))
}

/// The keys of the key sequence of a configured binding entry.
pub open spec fn entry_keys(e: EntryView) -> core::result::Result<Seq<Key>, Seq<char>> {
    key_seq_keys(e.0)
}

/// A configured binding entry has a valid key sequence and operation.
pub open spec fn entry_ok(e: EntryView) -> bool {
    entry_keys(e) is Ok && is_op(e.1)
}

/// `err` is the error of binding the invalid entry `e`: its first invalid key name,
/// or else its operation.
pub open spec fn fails_as(err: Error, e: EntryView) -> bool {
    match entry_keys(e) {
        Err(name) => err matches Error::InvalidKey { key } && key@ == name,
        Ok(_) => err matches Error::InvalidOp { op } && op@ == e.1,
    }
}

/// The map of operations bound by valid entries, in order.
pub open spec fn bound_map(es: Seq<EntryView>) -> Map<Seq<Key>, Seq<char>>
    decreases es.len(),
{
    if es.len() == 0 {
        Map::empty()
    } else {
        bound_map(es.drop_last()).insert(entry_keys(es.last())->Ok_0, es.last().1)
    }
}

/// The prefixes of the key sequences of valid entries.
pub open spec fn bound_prefixes(es: Seq<EntryView>) -> Set<Seq<Key>>
    decreases es.len(),
{
    if es.len() == 0 {
        Set::empty()
    } else {
        bound_prefixes(es.drop_last()) + proper_prefixes(entry_keys(es.last())->Ok_0)
    }
}

impl Bindings {
    /// Creates bindings from the entries of `bindings`, pairs of a key sequence and
    /// the name of an operation, in order, with later entries taking precedence.
    ///
    /// The restricted key sequences may be bound here, in contrast to
    /// [`bind`](Self::bind), as the default bindings need them.
    pub fn new(bindings: &Vec<(String, String)>) -> (r: Result<Bindings>)
        ensures
            r is Ok <==> forall|i: int| 0 <= i < bindings@.len() ==> entry_ok(#[trigger] entry_views(bindings@)[i]),
            r matches Ok(b) ==> b.wf() && b.map() == bound_map(entry_views(bindings@)) && b.prefixes()
                == bound_prefixes(entry_views(bindings@)),
            r matches Err(e) ==> exists|i: int|
                0 <= i < bindings@.len() && (forall|j: int| 0 <= j < i ==> entry_ok(#[trigger] entry_views(bindings@)[j]))
                    && !entry_ok(entry_views(bindings@)[i]) && fails_as(e, entry_views(bindings@)[i]),
    {
        let ghost es = entry_views(bindings@);
        let mut this = Bindings::empty();
        let mut i: usize = 0;
        while i < bindings.len()
            invariant
                i <= bindings@.len(),
                es == entry_views(bindings@),
                this.wf(),
                forall|j: int| 0 <= j < i ==> entry_ok(#[trigger] es[j]),
                this.map() == bound_map(es.take(i as int)),
                this.prefixes() == bound_prefixes(es.take(i as int)),
            decreases bindings@.len() - i,
        {
            let (key_seq, op) = (&bindings[i].0, &bindings[i].1);
            assert(es[i as int] == (key_seq@, op@));
            match this.bind_internal(key_seq.as_str(), op.as_str(), false) {
                Ok(()) => {},
                Err(e) => {
                    assert(!entry_ok(es[i as int]));
                    return Err(e);
                },
            }
            proof {
                let t = es.take(i + 1);
                assert(t.drop_last() =~= es.take(i as int));
                assert(t.last() == es[i as int]);
            }
            i = i + 1;
        }
        assert(es.take(es.len() as int) =~= es);
        Ok(this)
    }

    /// Binds the key sequence `key_seq` to the editing operation `op`, which
    /// overrides an existing binding of the same key sequence.
    ///
    /// Binding any of the restricted key sequences is an error.
    pub fn bind(&mut self, key_seq: &str, op: &str) -> (r: Result<()>)
        requires
            old(self).wf(),
        ensures
            final(self).wf(),
            match key_seq_keys(key_seq@) {
                Err(name) => r matches Err(Error::InvalidKey { key }) && key@ == name
                    && final(self).map() == old(self).map() && final(self).prefixes() == old(self).prefixes(),
                Ok(ks) => if is_restricted(ks) {
                    r matches Err(Error::RestrictedKey { key_seq: k }) && k@ == key_seq@
                        && final(self).map() == old(self).map() && final(self).prefixes() == old(self).prefixes()
                } else if is_op(op@) {
                    r is Ok && final(self).map() == old(self).map().insert(ks, op@)
                        && final(self).prefixes() == old(self).prefixes() + proper_prefixes(ks)
                } else {
                    r matches Err(Error::InvalidOp { op: o }) && o@ == op@
                        && final(self).map() == old(self).map() && final(self).prefixes() == old(self).prefixes()
                },
            },
    {
        self.bind_internal(key_seq, op, true)
    }

    /// Binds as [`bind`](Self::bind) does, prohibiting the restricted key sequences
    /// only when `strict` is `true`.
    fn bind_internal(&mut self, key_seq: &str, op: &str, strict: bool) -> (r: Result<()>)
        requires
            old(self).wf(),
        ensures
            final(self).wf(),
            match key_seq_keys(key_seq@) {
                Err(name) => r matches Err(Error::InvalidKey { key }) && key@ == name
                    && final(self).map() == old(self).map() && final(self).prefixes() == old(self).prefixes(),
                Ok(ks) => if strict && is_restricted(ks) {
                    r matches Err(Error::RestrictedKey { key_seq: k }) && k@ == key_seq@
                        && final(self).map() == old(self).map() && final(self).prefixes() == old(self).prefixes()
                } else if is_op(op@) {
                    r is Ok && final(self).map() == old(self).map().insert(ks, op@)
                        && final(self).prefixes() == old(self).prefixes() + proper_prefixes(ks)
                } else {
                    r matches Err(Error::InvalidOp { op: o }) && o@ == op@
                        && final(self).map() == old(self).map() && final(self).prefixes() == old(self).prefixes()
                },
            },
    {
        match to_keys(key_seq, strict) {
            Ok(keys) => {
                if describe(op).is_some() {
                    self.insert(keys, to_string(op));
                    Ok(())
                } else {
                    Err(Error::invalid_op(op))
                }
            },
            Err(e) => Err(e),
        }
    }

    /// Returns the current bindings: key sequences with the names of their
    /// operations, no key sequence twice.
    pub fn bindings(&self) -> (r: &Vec<(Vec<Key>, String)>)
        requires
            self.wf(),
        ensures
            r@ == self.binding_list(),
            distinct_keys(r@),
            binding_map(r@) == self.map(),
    {
        &self.bind_map
    }

    /// Returns the name of the operation bound to `keys`, otherwise `None`.
    pub fn find(&self, keys: &Vec<Key>) -> (r: Option<&String>)
        requires
            self.wf(),
        ensures
            r is Some <==> self.map().contains_key(keys@),
            r matches Some(op) ==> op@ == self.map()[keys@],
    {
        let mut k: usize = 0;
        while k < self.bind_map.len()
            invariant
                self.wf(),
                0 <= k <= self.bind_map@.len(),
                forall|x: int| 0 <= x < k ==> self.bind_map@[x].0@ != keys@,
            decreases self.bind_map@.len() - k,
        {
            if keys_eq(&self.bind_map[k].0, keys) {
                proof {
                    lemma_binding_map_entry(self.bind_map@, k as int);
                }
                return Some(&self.bind_map[k].1);
            }
            k = k + 1;
        }
        proof {
            lemma_binding_map_absent(self.bind_map@, keys@);
        }
        None
    }

    /// Returns the key sequences bound to `op`, which may be none.
    pub fn find_key(&self, op: &str) -> (r: Vec<Vec<Key>>)
        requires
            self.wf(),
        ensures
            key_views(r@).to_set() == Set::new(|k: Seq<Key>| self.map().contains_key(k) && self.map()[k] == op@),
    {
        let mut r: Vec<Vec<Key>> = Vec::new();
        let mut k: usize = 0;
        let ghost target = Set::new(|ks: Seq<Key>| self.map().contains_key(ks) && self.map()[ks] == op@);
        while k < self.bind_map.len()
            invariant
                self.wf(),
                0 <= k <= self.bind_map@.len(),
                target == Set::new(|ks: Seq<Key>| self.map().contains_key(ks) && self.map()[ks] == op@),
                forall|ks: Seq<Key>| key_views(r@).contains(ks) <==> exists|x: int|
                    0 <= x < k && #[trigger] self.bind_map@[x].0@ == ks && self.bind_map@[x].1@ == op@,
            decreases self.bind_map@.len() - k,
        {
            let ghost before = key_views(r@);
            if crate::strings::str_eq(self.bind_map[k].1.as_str(), op) {
                let keys = copy_keys(&self.bind_map[k].0);
                r.push(keys);
                proof {
                    let e = self.bind_map@[k as int].0@;
                    assert(key_views(r@) =~= before.push(e));
                    assert forall|ks: Seq<Key>| key_views(r@).contains(ks) implies exists|x: int|
                        0 <= x < k + 1 && #[trigger] self.bind_map@[x].0@ == ks && self.bind_map@[x].1@ == op@ by {
                        let i = choose|i: int| 0 <= i < key_views(r@).len() && key_views(r@)[i] == ks;
                        if i < before.len() {
                            assert(before[i] == ks);
                            assert(before.contains(ks));
                        } else {
                            assert(self.bind_map@[k as int].0@ == ks);
                        }
                    }
                    assert forall|ks: Seq<Key>| (exists|x: int|
                        0 <= x < k + 1 && #[trigger] self.bind_map@[x].0@ == ks && self.bind_map@[x].1@ == op@) implies key_views(r@).contains(ks) by {
                        let x = choose|x: int| 0 <= x < k + 1 && #[trigger] self.bind_map@[x].0@ == ks && self.bind_map@[x].1@ == op@;
                        if x < k {
                            assert(before.contains(ks));
                            let i = choose|i: int| 0 <= i < before.len() && before[i] == ks;
                            assert(key_views(r@)[i] == ks);
                        } else {
                            assert(key_views(r@)[before.len() as int] == ks);
                        }
                    }
                }
            } else {
                proof {
                    assert forall|ks: Seq<Key>| key_views(r@).contains(ks) <==> exists|x: int|
                        0 <= x < k + 1 && #[trigger] self.bind_map@[x].0@ == ks && self.bind_map@[x].1@ == op@ by {
                        if exists|x: int| 0 <= x < k + 1 && #[trigger] self.bind_map@[x].0@ == ks && self.bind_map@[x].1@ == op@ {
                            let x = choose|x: int| 0 <= x < k + 1 && #[trigger] self.bind_map@[x].0@ == ks && self.bind_map@[x].1@ == op@;
                            assert(x != k);
                        }
                    }
                }
            }
            k = k + 1;
        }
        proof {
            assert forall|ks: Seq<Key>| key_views(r@).to_set().contains(ks) <==> target.contains(ks) by {
                if target.contains(ks) {
                    lemma_binding_map_index(self.bind_map@, ks);
                }
                if key_views(r@).contains(ks) {
                    let x = choose|x: int| 0 <= x < self.bind_map@.len() && #[trigger] self.bind_map@[x].0@ == ks && self.bind_map@[x].1@ == op@;
                    lemma_binding_map_entry(self.bind_map@, x);
                }
            }
            assert(key_views(r@).to_set() =~= target);
        }
        r
    }

    /// Returns `true` if `keys` is a proper prefix of at least one bound key
    /// sequence.
    pub fn is_prefix(&self, keys: &Vec<Key>) -> (r: bool)
        ensures
            r == self.prefixes().contains(keys@),
    {
        let mut k: usize = 0;
        while k < self.bind_prefixes.len()
            invariant
                0 <= k <= self.bind_prefixes@.len(),
                forall|x: int| 0 <= x < k ==> self.bind_prefixes@[x]@ != keys@,
            decreases self.bind_prefixes@.len() - k,
        {
            if keys_eq(&self.bind_prefixes[k], keys) {
                assert(key_views(self.bind_prefixes@)[k as int] == keys@);
                return true;
            }
            k = k + 1;
        }
        proof {
            if self.prefixes().contains(keys@) {
                let i = choose|i: int| 0 <= i < key_views(self.bind_prefixes@).len() && key_views(self.bind_prefixes@)[i] == keys@;
                assert(self.bind_prefixes@[i]@ == keys@);
            }
        }
        false
    }
}

/// A key sequence in the map of a list of entries has an entry.
proof fn lemma_binding_map_index(entries: Seq<(Vec<Key>, String)>, ks: Seq<Key>)
    requires
        distinct_keys(entries),
        binding_map(entries).contains_key(ks),
    ensures
        exists|x: int| 0 <= x < entries.len() && #[trigger] entries[x].0@ == ks && entries[x].1@ == binding_map(entries)[ks],
{
    if forall|x: int| 0 <= x < entries.len() ==> entries[x].0@ != ks {
        lemma_binding_map_absent(entries, ks);
    }
    let x = choose|x: int| 0 <= x < entries.len() && entries[x].0@ == ks;
    lemma_binding_map_entry(entries, x);
}

/// Returns a copy of `keys`.
fn copy_keys(keys: &Vec<Key>) -> (r: Vec<Key>)
    ensures
        r@ == keys@,
{
    let mut r: Vec<Key> = Vec::new();
    let mut i: usize = 0;
    while i < keys.len()
        invariant
            i <= keys@.len(),
            r@ == keys@.take(i as int),
        decreases keys@.len() - i,
    {
        r.push(keys[i]);
        i = i + 1;
        assert(r@ =~= keys@.take(i as int));
    }
    assert(keys@.take(keys@.len() as int) =~= keys@);
    r
}

/// After a key sequence is bound to an operation, it is found bound to that
/// operation, and each of its proper, nonempty prefixes is a prefix of a bound
/// sequence.
pub proof fn lemma_bound_then_found(
    map: Map<Seq<Key>, Seq<char>>,
    prefixes: Set<Seq<Key>>,
    keys: Seq<Key>,
    op: Seq<char>,
)
    ensures
        map.insert(keys, op).contains_key(keys),
        map.insert(keys, op)[keys] == op,
        forall|n: int| 1 <= n < keys.len() ==> (prefixes + proper_prefixes(keys)).contains(#[trigger] keys.take(n)),
{
    assert forall|n: int| 1 <= n < keys.len() implies (prefixes + proper_prefixes(keys)).contains(#[trigger] keys.take(n)) by {
        assert(proper_prefixes(keys).contains(keys.take(n)));
    }
}

} // verus!

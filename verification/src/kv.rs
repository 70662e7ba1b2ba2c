//! A small map from string keys to copyable values, kept as a vector of
//! entries with distinct keys in ascending key order, as an ordered store lists them.
use vstd::prelude::*;
use vstd::string::StrSliceExecFns;

verus! {

#[derive(Clone, Debug)]
pub struct KeyedVec<V> {
    pub entries: Vec<(String, V)>,
}

/// No key occurs twice.
pub open spec fn keys_distinct<V>(s: Seq<(String, V)>) -> bool {
    forall|i: int, j: int| 0 <= i < s.len() && 0 <= j < s.len() && i != j ==> (#[trigger] s[i]).0@ != (#[trigger] s[j]).0@
}

/// The keys come in ascending order (see `chars_lt`), the order in which an
/// ordered map lists them.
pub open spec fn keys_ascending<V>(s: Seq<(String, V)>) -> bool {
    forall|i: int, j: int| 0 <= i < j < s.len() ==> chars_lt(#[trigger] s[i].0@, #[trigger] s[j].0@)
}

/// Some entry has key `k`.
pub open spec fn has_key<V>(s: Seq<(String, V)>, k: Seq<char>) -> bool {
    exists|i: int| 0 <= i < s.len() && (#[trigger] s[i]).0@ == k
}

/// The position of the entry with key `k`.
pub open spec fn key_index<V>(s: Seq<(String, V)>, k: Seq<char>) -> int {
    choose|i: int| 0 <= i < s.len() && (#[trigger] s[i]).0@ == k
}

/// The entries as a map from keys to values.
pub open spec fn entries_map<V>(s: Seq<(String, V)>) -> Map<Seq<char>, V> {
    Map::new(|k: Seq<char>| has_key(s, k), |k: Seq<char>| s[key_index(s, k)].1)
}

impl<V: Copy> KeyedVec<V> {
    pub open spec fn wf(&self) -> bool {
        &&& keys_distinct(self.entries@)
        &&& keys_ascending(self.entries@)
    }

    pub open spec fn view(&self) -> Map<Seq<char>, V> {
        entries_map(self.entries@)
    }

    pub fn new() -> (r: Self)
        ensures
            r.wf(),
            r.view() == Map::<Seq<char>, V>::empty(),
            r.entries@.len() == 0,
    {
        let r = KeyedVec { entries: Vec::new() };
        assert(r.view() =~= Map::<Seq<char>, V>::empty());
        r
    }

    /// The position of the entry with key `key`, if any.
    pub fn find(&self, key: &String) -> (r: Option<usize>)
        requires
            self.wf(),
        ensures
            r is None <==> !self.view().dom().contains(key@),
            r matches Some(i) ==> i < self.entries@.len() && self.entries@[i as int].0@ == key@
                && self.view()[key@] == self.entries@[i as int].1,
    {
        let mut i: usize = 0;
        while i < self.entries.len()
            invariant
                self.wf(),
                i <= self.entries@.len(),
                forall|j: int| 0 <= j < i ==> (#[trigger] self.entries@[j]).0@ != key@,
            decreases self.entries.len() - i,
        {
            if self.entries[i].0 == *key {
                proof {
                    assert(has_key(self.entries@, key@));
                    let k = key_index(self.entries@, key@);
                    assert(self.entries@[k].0@ == key@);
                    assert(self.entries@[i as int].0@ == key@);
                    assert(k == i as int);
                }
                return Some(i);
            }
            i = i + 1;
        }
        None
    }

    /// The value stored under `key`, if any.
    pub fn get(&self, key: &String) -> (r: Option<V>)
        requires
            self.wf(),
        ensures
            r == (if self.view().dom().contains(key@) { Some(self.view()[key@]) } else { None::<V> }),
    {
        match self.find(key) {
            Some(i) => Some(self.entries[i].1),
            None => None,
        }
    }

    /// Stores `value` under `key`, replacing the entry in place when the key exists and
    /// adding one in its place among the keys otherwise.
    pub fn insert(&mut self, key: &String, value: V)
        requires
            old(self).wf(),
        ensures
            final(self).wf(),
            final(self).view() == old(self).view().insert(key@, value),
            old(self).view().dom().contains(key@) ==> final(self).entries@.len() == old(self).entries@.len()
                && (forall|j: int| 0 <= j < old(self).entries@.len() ==> (#[trigger] final(self).entries@[j]).0@ == old(self).entries@[j].0@)
                && (forall|j: int| 0 <= j < old(self).entries@.len() && old(self).entries@[j].0@ != key@
                    ==> #[trigger] final(self).entries@[j] == old(self).entries@[j]),
            !old(self).view().dom().contains(key@) ==> exists|p: int| 0 <= p <= old(self).entries@.len()
                && final(self).entries@ == old(self).entries@.insert(p, (*key, value)),
    {
        match self.find(key) {
            Some(i) => {
                let ghost old_entries = self.entries@;
                self.entries.set(i, (key.clone(), value));
                proof {
                    let s = self.entries@;
                    assert(keys_distinct(s));
                    assert forall|k: Seq<char>| #[trigger] entries_map(s).dom().contains(k) == entries_map(old_entries).insert(key@, value).dom().contains(k) by {
                        if has_key(old_entries, k) {
                            let j = key_index(old_entries, k);
                            assert(s[j].0@ == k);
                        }
                        if has_key(s, k) {
                            let j = key_index(s, k);
                            assert(old_entries[j].0@ == k || j == i);
                        }
                    }
                    assert forall|k: Seq<char>| entries_map(s).dom().contains(k) implies #[trigger] entries_map(s)[k] == entries_map(old_entries).insert(key@, value)[k] by {
                        let j = key_index(s, k);
                        if k == key@ {
                            assert(j == i);
                        } else {
                            let j2 = key_index(old_entries, k);
                            assert(s[j2].0@ == k);
                            assert(j2 == j);
                        }
                    }
                    assert(entries_map(s) =~= entries_map(old_entries).insert(key@, value));
                }
            },
            None => {
                let ghost old_entries = self.entries@;
                proof { assert(!has_key(old_entries, key@)); }
                let mut p: usize = 0;
                while p < self.entries.len()
                    invariant
                        self.entries@ == old_entries,
                        p <= old_entries.len(),
                        forall|k: int| 0 <= k < p ==> chars_lt(#[trigger] old_entries[k].0@, key@),
                    ensures
                        self.entries@ == old_entries,
                        p <= old_entries.len(),
                        forall|k: int| 0 <= k < p ==> chars_lt(#[trigger] old_entries[k].0@, key@),
                        p < old_entries.len() ==> !chars_lt(old_entries[p as int].0@, key@),
                    decreases self.entries.len() - p,
                {
                    if !string_lt(&self.entries[p].0, key) {
                        break;
                    }
                    p = p + 1;
                }
                let e = (key.clone(), value);
                self.entries.insert(p, e);
                proof {
                    let s = self.entries@;
                    let pi = p as int;
                    assert(s == old_entries.insert(pi, e));
                    assert(forall|j: int| 0 <= j < pi ==> s[j] == old_entries[j]);
                    assert(forall|j: int| pi < j < s.len() ==> s[j] == old_entries[j - 1]);
                    assert(s[pi] == e);
                    if pi < old_entries.len() {
                        assert(old_entries[pi].0@ != key@);
                        lemma_chars_lt_total(old_entries[pi].0@, key@);
                    }
                    assert(keys_ascending(s)) by {
                        assert forall|a: int, b: int| 0 <= a < b < s.len() implies chars_lt(#[trigger] s[a].0@, #[trigger] s[b].0@) by {
                            if b < pi {
                            } else if b == pi {
                            } else if a < pi {
                            } else if a == pi {
                                if b - 1 > pi {
                                    lemma_chars_lt_transitive(key@, old_entries[pi].0@, old_entries[b - 1].0@);
                                }
                            } else {
                            }
                        }
                    }
                    assert(keys_distinct(s)) by {
                        assert forall|a: int, b: int| 0 <= a < s.len() && 0 <= b < s.len() && a != b implies (#[trigger] s[a]).0@ != (#[trigger] s[b]).0@ by {
                            if a < b {
                                lemma_chars_lt_irreflexive(s[a].0@);
                            } else {
                                lemma_chars_lt_irreflexive(s[b].0@);
                            }
                        }
                    }
                    assert forall|k: Seq<char>| #[trigger] entries_map(s).dom().contains(k) == entries_map(old_entries).insert(key@, value).dom().contains(k) by {
                        if has_key(old_entries, k) {
                            let j = key_index(old_entries, k);
                            if j < pi {
                                assert(s[j].0@ == k);
                            } else {
                                assert(s[j + 1].0@ == k);
                            }
                        }
                        if has_key(s, k) {
                            let j = key_index(s, k);
                            if j < pi {
                                assert(old_entries[j].0@ == k);
                            } else if j > pi {
                                assert(old_entries[j - 1].0@ == k);
                            }
                        }
                        if k == key@ {
                            assert(s[pi].0@ == k);
                        }
                    }
                    assert forall|k: Seq<char>| entries_map(s).dom().contains(k) implies #[trigger] entries_map(s)[k] == entries_map(old_entries).insert(key@, value)[k] by {
                        let j = key_index(s, k);
                        if k == key@ {
                            assert(s[pi].0@ == k);
                            assert(j == pi);
                        } else {
                            let j2 = key_index(old_entries, k);
                            if j2 < pi {
                                assert(s[j2].0@ == k);
                                assert(j2 == j);
                            } else {
                                assert(s[j2 + 1].0@ == k);
                                assert(j2 + 1 == j);
                            }
                        }
                    }
                    assert(entries_map(s) =~= entries_map(old_entries).insert(key@, value));
                }
            },
        }
    }
}

/// Whether `s` occurs in `v` (compared by contents).
pub open spec fn seq_has_string(v: Seq<String>, s: Seq<char>) -> bool {
    exists|i: int| 0 <= i < v.len() && (#[trigger] v[i])@ == s
}

/// Whether `s` occurs in `v`.
pub fn contains_string(v: &Vec<String>, s: &String) -> (r: bool)
    ensures
        r == seq_has_string(v@, s@),
{
    let mut i: usize = 0;
    while i < v.len()
        invariant
            i <= v@.len(),
            forall|j: int| 0 <= j < i ==> (#[trigger] v@[j])@ != s@,
        decreases v.len() - i,
    {
        if v[i] == *s {
            return true;
        }
        i = i + 1;
    }
    false
}

/// Whether `a` comes before `b` in the order of their characters' code
/// points, which is the order of their UTF-8 bytes.
pub open spec fn chars_lt(a: Seq<char>, b: Seq<char>) -> bool
    decreases a.len(),
{
    if a.len() == 0 {
        b.len() > 0
    } else if b.len() == 0 {
        false
    } else if a[0] != b[0] {
        (a[0] as int) < (b[0] as int)
    } else {
        chars_lt(a.drop_first(), b.drop_first())
    }
}

/// The order of `chars_lt` is strict.
pub proof fn lemma_chars_lt_irreflexive(a: Seq<char>)
    ensures
        !chars_lt(a, a),
    decreases a.len(),
{
    if a.len() > 0 {
        lemma_chars_lt_irreflexive(a.drop_first());
    }
}

/// The order of `chars_lt` is transitive.
pub proof fn lemma_chars_lt_transitive(a: Seq<char>, b: Seq<char>, c: Seq<char>)
    requires
        chars_lt(a, b),
        chars_lt(b, c),
    ensures
        chars_lt(a, c),
    decreases a.len(),
{
    if a.len() > 0 && b.len() > 0 && c.len() > 0 && a[0] == b[0] && b[0] == c[0] {
        lemma_chars_lt_transitive(a.drop_first(), b.drop_first(), c.drop_first());
    }
}

/// Two different sequences are ordered one way or the other.
pub proof fn lemma_chars_lt_total(a: Seq<char>, b: Seq<char>)
    requires
        a != b,
    ensures
        chars_lt(a, b) || chars_lt(b, a),
    decreases a.len(),
{
    if a.len() > 0 && b.len() > 0 && a[0] == b[0] {
        if a.drop_first() == b.drop_first() {
            assert(a =~= seq![a[0]] + a.drop_first());
            assert(b =~= seq![b[0]] + b.drop_first());
        }
        lemma_chars_lt_total(a.drop_first(), b.drop_first());
    } else if a.len() == 0 && b.len() == 0 {
        assert(a =~= b);
    } else if a.len() > 0 && b.len() > 0 {
        assert((a[0] as int) != (b[0] as int));
    }
}

/// Whether `a` comes before `b` (see `chars_lt`).
pub fn string_lt(a: &String, b: &String) -> (r: bool)
    ensures
        r == chars_lt(a@, b@),
{
    let la = a.as_str().unicode_len();
    let lb = b.as_str().unicode_len();
    let mut i: usize = 0;
    proof {
        assert(a@.skip(0) =~= a@);
        assert(b@.skip(0) =~= b@);
    }
    while i < la && i < lb
        invariant
            la == a@.len(),
            lb == b@.len(),
            i <= la,
            i <= lb,
            chars_lt(a@, b@) == chars_lt(a@.skip(i as int), b@.skip(i as int)),
        decreases la - i,
    {
        let ca = a.as_str().get_char(i);
        let cb = b.as_str().get_char(i);
        proof {
            assert(a@.skip(i as int)[0] == ca);
            assert(b@.skip(i as int)[0] == cb);
            assert(a@.skip(i as int).drop_first() =~= a@.skip(i + 1));
            assert(b@.skip(i as int).drop_first() =~= b@.skip(i + 1));
        }
        if ca != cb {
            return (ca as u32) < (cb as u32);
        }
        i = i + 1;
    }
    proof {
        assert(a@.skip(i as int).len() == la - i);
        assert(b@.skip(i as int).len() == lb - i);
    }
    i == la && i < lb
}

/// What `get` reads back after `insert`: the value just stored under its key,
/// and under any other key what was there before.
pub proof fn stored_value_is_read_back<V>(stored: Map<Seq<char>, V>, key: Seq<char>, value: V, other: Seq<char>)
    requires
        other != key,
    ensures
        stored.insert(key, value).dom().contains(key),
        stored.insert(key, value)[key] == value,
        stored.insert(key, value).dom().contains(other) == stored.dom().contains(other),
        stored.dom().contains(other) ==> stored.insert(key, value)[other] == stored[other],
{
}

} // verus!

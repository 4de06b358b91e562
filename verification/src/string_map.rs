//! A finite map keyed by strings, kept as a vector of distinct-key entries.

use vstd::prelude::*;

use crate::text::{lemma_lt_irreflexive, lemma_lt_total, lemma_lt_transitive, seq_lt, str_equal, str_less, texts_of};

verus! {

/// No two entries share a key.
pub open spec fn distinct_keys<V>(s: Seq<(String, V)>) -> bool {
    forall|i: int, j: int|
        0 <= i < s.len() && 0 <= j < s.len() && i != j ==> #[trigger] s[i].0@ != #[trigger] s[j].0@
}

/// Some entry carries the key `k`.
pub open spec fn has_key<V>(s: Seq<(String, V)>, k: Seq<char>) -> bool {
    exists|i: int| 0 <= i < s.len() && #[trigger] s[i].0@ == k
}

/// The position of an entry carrying the key `k` (meaningful when one exists).
pub open spec fn key_index<V>(s: Seq<(String, V)>, k: Seq<char>) -> int {
    choose|i: int| 0 <= i < s.len() && #[trigger] s[i].0@ == k
}

/// The mapping described by a sequence of entries.
pub open spec fn entries_map<V>(s: Seq<(String, V)>) -> Map<Seq<char>, V> {
    Map::new(|k: Seq<char>| has_key(s, k), |k: Seq<char>| s[key_index(s, k)].1)
}

/// The entry at position `i` is what the map holds for its key.
pub proof fn lemma_entries_map_index<V>(s: Seq<(String, V)>, i: int)
    requires
        distinct_keys(s),
        0 <= i < s.len(),
    ensures
        entries_map(s).dom().contains(s[i].0@),
        entries_map(s)[s[i].0@] == s[i].1,
        key_index(s, s[i].0@) == i,
{
    assert(has_key(s, s[i].0@));
    let j = key_index(s, s[i].0@);
    assert(0 <= j < s.len() && s[j].0@ == s[i].0@);
}

/// Appending an entry with a fresh key inserts it into the map.
pub proof fn lemma_entries_map_push<V>(s: Seq<(String, V)>, e: (String, V))
    requires
        distinct_keys(s),
        !has_key(s, e.0@),
    ensures
        distinct_keys(s.push(e)),
        entries_map(s.push(e)) == entries_map(s).insert(e.0@, e.1),
{
    let t = s.push(e);
    assert forall|i: int, j: int|
        0 <= i < t.len() && 0 <= j < t.len() && i != j implies #[trigger] t[i].0@ != #[trigger] t[j].0@ by {
        if i == s.len() {
            assert(s[j].0@ == t[j].0@);
        } else if j == s.len() {
            assert(s[i].0@ == t[i].0@);
        } else {
            assert(t[i] == s[i] && t[j] == s[j]);
        }
    }
    let m = entries_map(s).insert(e.0@, e.1);
    assert forall|k: Seq<char>| #[trigger] entries_map(t).dom().contains(k) == m.dom().contains(k) by {
        if k == e.0@ {
            assert(t[s.len() as int] == e);
        }
        if has_key(s, k) {
            let i = key_index(s, k);
            assert(t[i] == s[i]);
        }
        if has_key(t, k) {
            let i = key_index(t, k);
            if i < s.len() {
                assert(t[i] == s[i]);
            }
        }
    }
    assert forall|k: Seq<char>| #[trigger] entries_map(t).dom().contains(k) implies entries_map(t)[k]
        == m[k] by {
        if k == e.0@ {
            lemma_entries_map_index(t, s.len() as int);
        } else {
            let i = key_index(t, k);
            assert(t[i] == s[i]);
            lemma_entries_map_index(s, i);
            lemma_entries_map_index(t, i);
        }
    }
    assert(entries_map(t) =~= m);
}

/// Removing the entry at position `i` removes its key from the map.
pub proof fn lemma_entries_map_remove<V>(s: Seq<(String, V)>, i: int)
    requires
        distinct_keys(s),
        0 <= i < s.len(),
    ensures
        distinct_keys(s.remove(i)),
        entries_map(s.remove(i)) == entries_map(s).remove(s[i].0@),
        !has_key(s.remove(i), s[i].0@),
{
    let t = s.remove(i);
    assert forall|a: int| 0 <= a < t.len() implies #[trigger] t[a] == s[if a < i {
        a
    } else {
        a + 1
    }] by {}
    assert forall|a: int, b: int|
        0 <= a < t.len() && 0 <= b < t.len() && a != b implies #[trigger] t[a].0@ != #[trigger] t[b].0@ by {
        let sa = if a < i {
            a
        } else {
            a + 1
        };
        let sb = if b < i {
            b
        } else {
            b + 1
        };
        assert(t[a] == s[sa] && t[b] == s[sb]);
    }
    assert(!has_key(t, s[i].0@)) by {
        if has_key(t, s[i].0@) {
            let a = key_index(t, s[i].0@);
            let sa = if a < i {
                a
            } else {
                a + 1
            };
            assert(t[a] == s[sa]);
        }
    }
    let m = entries_map(s).remove(s[i].0@);
    assert forall|k: Seq<char>| #[trigger] entries_map(t).dom().contains(k) == m.dom().contains(k) by {
        if has_key(t, k) {
            let a = key_index(t, k);
            let sa = if a < i {
                a
            } else {
                a + 1
            };
            assert(t[a] == s[sa]);
        }
        if has_key(s, k) && k != s[i].0@ {
            let b = key_index(s, k);
            assert(b != i);
            let tb = if b < i {
                b
            } else {
                b - 1
            };
            assert(t[tb] == s[b]);
        }
    }
    assert forall|k: Seq<char>| #[trigger] entries_map(t).dom().contains(k) implies entries_map(t)[k]
        == m[k] by {
        let a = key_index(t, k);
        let sa = if a < i {
            a
        } else {
            a + 1
        };
        assert(t[a] == s[sa]);
        lemma_entries_map_index(t, a);
        lemma_entries_map_index(s, sa);
    }
    assert(entries_map(t) =~= m);
}

/// The keys of a sequence of entries, in order.
pub open spec fn key_seq<V>(s: Seq<(String, V)>) -> Seq<Seq<char>> {
    s.map_values(|e: (String, V)| e.0@)
}

/// The map of distinct-key entries has as many keys as there are entries.
pub proof fn lemma_entries_map_len<V>(s: Seq<(String, V)>)
    requires
        distinct_keys(s),
    ensures
        entries_map(s).dom() == key_seq(s).to_set(),
        entries_map(s).dom().len() == s.len(),
        entries_map(s).dom().finite(),
{
    let ks = key_seq(s);
    assert forall|k: Seq<char>| #[trigger] entries_map(s).dom().contains(k) == ks.to_set().contains(k) by {
        if has_key(s, k) {
            let i = key_index(s, k);
            assert(ks[i] == k);
        }
        if ks.contains(k) {
            let i = choose|i: int| 0 <= i < ks.len() && ks[i] == k;
            assert(s[i].0@ == k);
        }
    }
    assert(entries_map(s).dom() =~= ks.to_set());
    assert(ks.no_duplicates()) by {
        assert forall|i: int, j: int| 0 <= i < ks.len() && 0 <= j < ks.len() && i != j implies ks[i] != ks[j] by {
            assert(s[i].0@ != s[j].0@);
        }
    }
    ks.unique_seq_to_set();
    vstd::seq_lib::seq_to_set_is_finite(ks);
}

/// Each string comes before the next, in the order of strings.
pub open spec fn strictly_sorted(s: Seq<Seq<char>>) -> bool {
    forall|i: int, j: int| 0 <= i < j < s.len() ==> seq_lt(#[trigger] s[i], #[trigger] s[j])
}

/// The first string of a sorted list is not in the rest of it, and the rest
/// holds exactly the other strings.
proof fn lemma_sorted_rest(a: Seq<Seq<char>>)
    requires
        strictly_sorted(a),
        a.len() > 0,
    ensures
        strictly_sorted(a.drop_first()),
        forall|k: Seq<char>| #[trigger] a.drop_first().contains(k) <==> (a.contains(k) && k != a[0]),
{
    let r = a.drop_first();
    assert forall|i: int, j: int| 0 <= i < j < r.len() implies seq_lt(#[trigger] r[i], #[trigger] r[j]) by {
        assert(r[i] == a[i + 1] && r[j] == a[j + 1]);
    }
    assert forall|k: Seq<char>| #[trigger] r.contains(k) <==> (a.contains(k) && k != a[0]) by {
        if r.contains(k) {
            let i = choose|i: int| 0 <= i < r.len() && r[i] == k;
            assert(a[i + 1] == k);
            assert(seq_lt(a[0], a[i + 1]));
            lemma_lt_irreflexive(a[0]);
        }
        if a.contains(k) && k != a[0] {
            let i = choose|i: int| 0 <= i < a.len() && a[i] == k;
            assert(r[i - 1] == k);
        }
    }
}

/// A sorted list is determined by the strings it holds.
pub proof fn lemma_sorted_unique(a: Seq<Seq<char>>, b: Seq<Seq<char>>)
    requires
        strictly_sorted(a),
        strictly_sorted(b),
        forall|k: Seq<char>| #[trigger] a.contains(k) <==> b.contains(k),
    ensures
        a == b,
    decreases a.len(),
{
    if a.len() == 0 {
        if b.len() > 0 {
            assert(b.contains(b[0]));
            assert(a.contains(b[0]));
        }
        assert(a =~= b);
    } else {
        assert(a.contains(a[0]));
        assert(b.len() > 0);
        assert(b.contains(b[0]));
        if a[0] != b[0] {
            assert(b.contains(a[0]));
            assert(a.contains(b[0]));
            let j = choose|j: int| 0 <= j < b.len() && b[j] == a[0];
            let i = choose|i: int| 0 <= i < a.len() && a[i] == b[0];
            assert(seq_lt(b[0], b[j]));
            assert(seq_lt(a[0], a[i]));
            lemma_lt_transitive(a[0], b[0], a[0]);
            lemma_lt_irreflexive(a[0]);
        }
        lemma_sorted_rest(a);
        lemma_sorted_rest(b);
        lemma_sorted_unique(a.drop_first(), b.drop_first());
        assert forall|i: int| 0 <= i < a.len() implies a[i] == b[i] by {
            if i > 0 {
                assert(a[i] == a.drop_first()[i - 1]);
                assert(b[i] == b.drop_first()[i - 1]);
            }
        }
        assert(a.len() == b.len());
        assert(a =~= b);
    }
}

/// Inserting a string between those before it and those after it keeps a
/// list sorted.
proof fn lemma_insert_sorted(t: Seq<Seq<char>>, p: int, x: Seq<char>)
    requires
        strictly_sorted(t),
        0 <= p <= t.len(),
        forall|q: int| 0 <= q < p ==> seq_lt(#[trigger] t[q], x),
        forall|q: int| p <= q < t.len() ==> seq_lt(x, #[trigger] t[q]),
    ensures
        strictly_sorted(t.insert(p, x)),
        forall|k: Seq<char>| #[trigger] t.insert(p, x).contains(k) <==> (t.contains(k) || k == x),
{
    let u = t.insert(p, x);
    assert forall|i: int, j: int| 0 <= i < j < u.len() implies seq_lt(#[trigger] u[i], #[trigger] u[j]) by {
        if j < p {
        } else if j == p {
        } else if i < p {
        } else if i == p {
        } else {
            assert(u[i] == t[i - 1] && u[j] == t[j - 1]);
        }
    }
    assert forall|k: Seq<char>| #[trigger] u.contains(k) <==> (t.contains(k) || k == x) by {
        if u.contains(k) {
            let i = choose|i: int| 0 <= i < u.len() && u[i] == k;
            if i < p {
                assert(t[i] == k);
            } else if i > p {
                assert(t[i - 1] == k);
            }
        }
        if t.contains(k) {
            let i = choose|i: int| 0 <= i < t.len() && t[i] == k;
            if i < p {
                assert(u[i] == k);
            } else {
                assert(u[i + 1] == k);
            }
        }
        if k == x {
            assert(u[p] == k);
        }
    }
}

/// A finite map from strings to values.
///
/// Entries are kept in insertion order; no two entries share a key.
pub struct StringMap<V> {
    entries: Vec<(String, V)>,
}

impl<V> View for StringMap<V> {
    type V = Map<Seq<char>, V>;

    closed spec fn view(&self) -> Map<Seq<char>, V> {
        entries_map(self.entries@)
    }
}

impl<V> StringMap<V> {
    /// The entries in their stored order.
    pub closed spec fn entries(&self) -> Seq<(String, V)> {
        self.entries@
    }

    /// The map is well formed: no key occurs twice.
    pub closed spec fn wf(&self) -> bool {
        distinct_keys(self.entries@)
    }

    /// The view is exactly the map of the stored entries.
    pub proof fn lemma_view(&self)
        requires
            self.wf(),
        ensures
            self@ == entries_map(self.entries()),
            distinct_keys(self.entries()),
    {
    }

    /// An empty map.
    pub fn new() -> (m: Self)
        ensures
            m.wf(),
            m@ == Map::<Seq<char>, V>::empty(),
            m.entries() == Seq::<(String, V)>::empty(),
    {
        let m = StringMap { entries: Vec::new() };
        assert(m@ =~= Map::<Seq<char>, V>::empty());
        m
    }

    /// Build a map from entries whose keys are distinct.
    pub fn from_entries(entries: Vec<(String, V)>) -> (m: Self)
        requires
            distinct_keys(entries@),
        ensures
            m.wf(),
            m@ == entries_map(entries@),
            m.entries() == entries@,
    {
        StringMap { entries }
    }

    /// Give up the map and return its entries.
    pub fn into_entries(self) -> (entries: Vec<(String, V)>)
        requires
            self.wf(),
        ensures
            distinct_keys(entries@),
            entries_map(entries@) == self@,
            entries@ == self.entries(),
    {
        self.entries
    }

    /// The number of entries.
    pub fn len(&self) -> (n: usize)
        requires
            self.wf(),
        ensures
            n == self.entries().len(),
            n == self@.dom().len(),
    {
        proof {
            lemma_entries_map_len(self.entries@);
        }
        self.entries.len()
    }

    /// The keys, in stored order.
    pub fn keys(&self) -> (ks: Vec<String>)
        requires
            self.wf(),
        ensures
            ks@.map_values(|k: String| k@) == key_seq(self.entries()),
            ks@.map_values(|k: String| k@).no_duplicates(),
            ks@.map_values(|k: String| k@).to_set() == self@.dom(),
    {
        let mut ks: Vec<String> = Vec::new();
        let mut i: usize = 0;
        while i < self.entries.len()
            invariant
                i <= self.entries@.len(),
                ks@.len() == i,
                ks@.map_values(|k: String| k@) == key_seq(self.entries@).take(i as int),
            decreases self.entries@.len() - i,
        {
            let ghost prev = ks@;
            let k = self.entries[i].0.clone();
            assert(k@ == self.entries@[i as int].0@);
            ks.push(k);
            assert(ks@ == prev.push(k));
            assert forall|j: int| 0 <= j < i implies ks@[j]@ == prev[j]@ by {}
            assert(ks@.map_values(|k: String| k@) =~= key_seq(self.entries@).take(i + 1));
            i = i + 1;
        }
        proof {
            let kq = key_seq(self.entries@);
            assert(kq.take(kq.len() as int) =~= kq);
            assert forall|a: int, b: int| 0 <= a < kq.len() && 0 <= b < kq.len() && a != b implies kq[a] != kq[b] by {
                assert(self.entries@[a].0@ != self.entries@[b].0@);
            }
            lemma_entries_map_len(self.entries@);
        }
        ks
    }

    /// The keys in the order of strings.
    pub fn sorted_keys(&self) -> (ks: Vec<String>)
        requires
            self.wf(),
        ensures
            strictly_sorted(texts_of(ks@)),
            forall|k: Seq<char>| #[trigger] texts_of(ks@).contains(k) <==> self@.dom().contains(k),
    {
        let keys = self.keys();
        let ghost kt = texts_of(keys@);
        assert(kt == keys@.map_values(|k: String| k@));
        let mut out: Vec<String> = Vec::new();
        let mut i: usize = 0;
        while i < keys.len()
            invariant
                kt == texts_of(keys@),
                kt.no_duplicates(),
                i <= keys@.len(),
                strictly_sorted(texts_of(out@)),
                forall|k: Seq<char>| #[trigger] texts_of(out@).contains(k) <==> kt.take(i as int).contains(k),
            decreases keys@.len() - i,
        {
            let k = keys[i].clone();
            let ghost t = texts_of(out@);
            assert(k@ == kt[i as int]);
            assert(!t.contains(k@)) by {
                if t.contains(k@) {
                    let j = choose|j: int| 0 <= j < i && kt.take(i as int)[j] == k@;
                    assert(kt[j] == kt[i as int]);
                }
            }
            let mut p: usize = 0;
            while p < out.len()
                invariant
                    t == texts_of(out@),
                    p <= t.len(),
                    !t.contains(k@),
                    forall|q: int| 0 <= q < p ==> seq_lt(#[trigger] t[q], k@),
                ensures
                    t == texts_of(out@),
                    p <= t.len(),
                    p < t.len() ==> seq_lt(k@, t[p as int]),
                    forall|q: int| 0 <= q < p ==> seq_lt(#[trigger] t[q], k@),
                decreases t.len() - p,
            {
                assert(out@[p as int]@ == t[p as int]);
                if str_less(k.as_str(), out[p].as_str()) {
                    break;
                }
                proof {
                    assert(t[p as int] != k@);
                    lemma_lt_total(t[p as int], k@);
                }
                p = p + 1;
            }
            proof {
                assert forall|q: int| p <= q < t.len() implies seq_lt(k@, #[trigger] t[q]) by {
                    assert(p < t.len());
                    assert(out@[p as int]@ == t[p as int]);
                    if q > p {
                        lemma_lt_transitive(k@, t[p as int], t[q]);
                    }
                }
                lemma_insert_sorted(t, p as int, k@);
            }
            out.insert(p, k);
            proof {
                let i1: int = i + 1;
                assert(texts_of(out@) =~= t.insert(p as int, k@));
                assert forall|x: Seq<char>| #[trigger] texts_of(out@).contains(x) <==> kt.take(i1).contains(x) by {
                    if kt.take(i1).contains(x) {
                        let j = choose|j: int| 0 <= j < i1 && kt.take(i1)[j] == x;
                        if j < i {
                            assert(kt.take(i as int)[j] == x);
                        }
                    }
                    if kt.take(i as int).contains(x) {
                        let j = choose|j: int| 0 <= j < i && kt.take(i as int)[j] == x;
                        assert(kt.take(i1)[j] == x);
                    }
                    assert(kt.take(i1)[i as int] == k@);
                }
            }
            i = i + 1;
        }
        proof {
            assert(kt.take(keys@.len() as int) =~= kt);
            assert forall|k: Seq<char>| #[trigger] texts_of(out@).contains(k) <==> self@.dom().contains(k) by {
                assert(kt.to_set().contains(k) == kt.contains(k));
            }
        }
        out
    }

    /// The entry at position `i` of the stored order.
    pub fn entry_at(&self, i: usize) -> (r: (&String, &V))
        requires
            self.wf(),
            i < self.entries().len(),
        ensures
            *r.0 == self.entries()[i as int].0,
            *r.1 == self.entries()[i as int].1,
            self@.dom().contains(r.0@),
            self@[r.0@] == *r.1,
    {
        proof {
            lemma_entries_map_index(self.entries@, i as int);
        }
        (&self.entries[i].0, &self.entries[i].1)
    }

    /// Remove every entry.
    pub fn clear(&mut self)
        ensures
            final(self).wf(),
            final(self)@ == Map::<Seq<char>, V>::empty(),
    {
        self.entries.clear();
        assert(self@ =~= Map::<Seq<char>, V>::empty());
    }

    /// Find the position of the entry with key `key`.
    fn find(&self, key: &str) -> (r: Option<usize>)
        requires
            self.wf(),
        ensures
            match r {
                Some(i) => i < self.entries@.len() && self.entries@[i as int].0@ == key@,
                None => !has_key(self.entries@, key@),
            },
    {
        let mut i: usize = 0;
        while i < self.entries.len()
            invariant
                i <= self.entries@.len(),
                forall|j: int| 0 <= j < i ==> #[trigger] self.entries@[j].0@ != key@,
            decreases self.entries@.len() - i,
        {
            if str_equal(self.entries[i].0.as_str(), key) {
                return Some(i);
            }
            i = i + 1;
        }
        None
    }

    /// Whether the map holds key `key`.
    pub fn contains_key(&self, key: &str) -> (b: bool)
        requires
            self.wf(),
        ensures
            b == self@.dom().contains(key@),
    {
        self.find(key).is_some()
    }

    /// The value stored under `key`, if any.
    pub fn get(&self, key: &str) -> (r: Option<&V>)
        requires
            self.wf(),
        ensures
            match r {
                Some(v) => self@.dom().contains(key@) && *v == self@[key@],
                None => !self@.dom().contains(key@),
            },
    {
        match self.find(key) {
            Some(i) => {
                proof {
                    lemma_entries_map_index(self.entries@, i as int);
                }
                Some(&self.entries[i].1)
            },
            None => None,
        }
    }

    /// Remove the entry with key `key`, returning its value.
    pub fn remove(&mut self, key: &str) -> (r: Option<V>)
        requires
            old(self).wf(),
        ensures
            final(self).wf(),
            final(self)@ == old(self)@.remove(key@),
            match r {
                Some(v) => old(self)@.dom().contains(key@) && v == old(self)@[key@],
                None => !old(self)@.dom().contains(key@),
            },
    {
        match self.find(key) {
            Some(i) => {
                proof {
                    lemma_entries_map_index(self.entries@, i as int);
                    lemma_entries_map_remove(self.entries@, i as int);
                }
                let (_, v) = self.entries.remove(i);
                Some(v)
            },
            None => {
                assert(self@.remove(key@) =~= self@);
                None
            },
        }
    }

    /// Insert `value` under `key`, returning the value it replaces.
    ///
    /// A new key is appended at the end of the entries.
    pub fn insert(&mut self, key: String, value: V) -> (r: Option<V>)
        requires
            old(self).wf(),
        ensures
            final(self).wf(),
            final(self)@ == old(self)@.insert(key@, value),
            match r {
                Some(v) => old(self)@.dom().contains(key@) && v == old(self)@[key@],
                None => !old(self)@.dom().contains(key@),
            },
    {
        let ghost k = key@;
        let prev = self.remove(key.as_str());
        proof {
            assert(!has_key(self.entries@, k)) by {
                if has_key(self.entries@, k) {
                    lemma_entries_map_index(self.entries@, key_index(self.entries@, k));
                }
            }
            lemma_entries_map_push(self.entries@, (key, value));
        }
        self.entries.push((key, value));
        proof {
            assert(self@ =~= old(self)@.insert(k, value));
        }
        prev
    }
}

} // verus!

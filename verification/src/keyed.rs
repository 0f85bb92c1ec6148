use vstd::prelude::*;
use crate::node::types::Address;

verus! {

/// Keys that can be compared by their views.
pub trait KeyEq: View + Sized {
    fn key_eq(&self, other: &Self) -> (r: bool)
        ensures
            r == (self@ == other@);
}

impl KeyEq for Vec<u8> {
    fn key_eq(&self, other: &Self) -> (r: bool) {
        crate::bytes::bytes_eq(self.as_slice(), other.as_slice())
    }
}

impl KeyEq for String {
    fn key_eq(&self, other: &Self) -> (r: bool) {
        *self == *other
    }
}

impl KeyEq for Address {
    fn key_eq(&self, other: &Self) -> (r: bool) {
        self.same_as(other)
    }
}

impl KeyEq for u64 {
    fn key_eq(&self, other: &Self) -> (r: bool) {
        *self == *other
    }
}

impl KeyEq for u32 {
    fn key_eq(&self, other: &Self) -> (r: bool) {
        *self == *other
    }
}

impl KeyEq for [u8; 32] {
    fn key_eq(&self, other: &Self) -> (r: bool) {
        crate::bytes::bytes_eq(self.as_slice(), other.as_slice())
    }
}

/// Values whose copy has the same view.
pub trait DeepClone: View + Sized {
    fn deep_clone(&self) -> (r: Self)
        ensures
            r@ == self@;
}

impl DeepClone for Vec<u8> {
    fn deep_clone(&self) -> (r: Self) {
        crate::bytes::bytes_to_vec(self.as_slice())
    }
}

impl DeepClone for String {
    fn deep_clone(&self) -> (r: Self) {
        self.clone()
    }
}

impl DeepClone for Address {
    fn deep_clone(&self) -> (r: Self) {
        *self
    }
}

impl DeepClone for () {
    fn deep_clone(&self) -> (r: Self) {
        ()
    }
}

impl DeepClone for u64 {
    fn deep_clone(&self) -> (r: Self) {
        *self
    }
}

/// Whether the entries hold each key (by view) at most once.
pub open spec fn unique_keys<K: View, V>(s: Seq<(K, V)>) -> bool {
    forall|i: int, j: int|
        0 <= i < s.len() && 0 <= j < s.len() && i != j ==> (#[trigger] s[i]).0@ != (#[trigger] s[j]).0@
}

/// Whether some entry holds key `k`.
pub open spec fn has_key<K: View, V>(s: Seq<(K, V)>, k: K::V) -> bool {
    exists|i: int| 0 <= i < s.len() && (#[trigger] s[i]).0@ == k
}

/// The map that a list of entries stands for.
pub open spec fn entries_map<K: View, V: View>(s: Seq<(K, V)>) -> Map<K::V, V::V> {
    Map::new(
        |k: K::V| has_key(s, k),
        |k: K::V| s[choose|i: int| 0 <= i < s.len() && (#[trigger] s[i]).0@ == k].1@,
    )
}

/// A map held as a vector of entries with unique keys, in insertion order.
#[derive(Debug)]
pub struct KeyedVec<K, V> {
    entries: Vec<(K, V)>,
}

impl<K: KeyEq, V: View> View for KeyedVec<K, V> {
    type V = Map<K::V, V::V>;

    closed spec fn view(&self) -> Map<K::V, V::V> {
        entries_map(self.entries@)
    }
}

impl<K: KeyEq, V: View> KeyedVec<K, V> {
    /// The entries, in insertion order.
    pub closed spec fn entries(&self) -> Seq<(K, V)> {
        self.entries@
    }

    pub closed spec fn wf(&self) -> bool {
        unique_keys(self.entries@)
    }

    proof fn lemma_lookup(s: Seq<(K, V)>, i: int)
        requires
            unique_keys(s),
            0 <= i < s.len(),
        ensures
            entries_map(s).contains_key(s[i].0@),
            entries_map(s)[s[i].0@] == s[i].1@,
    {
        let k = s[i].0@;
        assert(has_key(s, k));
        let c = choose|j: int| 0 <= j < s.len() && (#[trigger] s[j]).0@ == k;
        assert(c == i);
    }

    pub fn new() -> (r: Self)
        ensures
            r.wf(),
            r@ == Map::<K::V, V::V>::empty(),
            r.entries().len() == 0,
    {
        let r = KeyedVec { entries: Vec::new() };
        assert(entries_map(r.entries@) =~= Map::<K::V, V::V>::empty());
        r
    }

    /// The entries, in insertion order.
    pub fn as_entries(&self) -> (r: &Vec<(K, V)>)
        ensures
            r@ == self.entries(),
    {
        &self.entries
    }

    /// The number of keys.
    pub fn len(&self) -> (n: usize)
        requires
            self.wf(),
        ensures
            n == self.entries().len(),
            n == self@.dom().len(),
    {
        proof {
            self.lemma_len();
        }
        self.entries.len()
    }

    /// The map holds as many keys as there are entries, and finitely many.
    pub proof fn lemma_len(&self)
        requires
            self.wf(),
        ensures
            self@.dom().len() == self.entries().len(),
            self@.dom().finite(),
    {
        let s = self.entries@;
        let keys = s.map_values(|e: (K, V)| e.0@);
        assert(keys.no_duplicates()) by {
            assert forall|i: int, j: int| 0 <= i < keys.len() && 0 <= j < keys.len() && i != j implies keys[i] != keys[j] by {
                assert(s[i].0@ != s[j].0@);
            }
        }
        assert(self@.dom() =~= keys.to_set()) by {
            assert forall|k: K::V| self@.dom().contains(k) <==> keys.to_set().contains(k) by {
                if self@.dom().contains(k) {
                    let i = choose|i: int| 0 <= i < s.len() && (#[trigger] s[i]).0@ == k;
                    assert(keys[i] == k);
                }
                if keys.to_set().contains(k) {
                    let i = choose|i: int| 0 <= i < keys.len() && keys[i] == k;
                    assert(s[i].0@ == k);
                }
            }
        }
        keys.unique_seq_to_set();
    }

    /// The map holds exactly the keys of the entries, each with the value of its entry.
    pub proof fn lemma_view(&self)
        requires
            self.wf(),
        ensures
            forall|q: K::V| #[trigger] self@.contains_key(q) <==> has_key(self.entries(), q),
            forall|i: int|
                0 <= i < self.entries().len() ==> self@[(#[trigger] self.entries()[i]).0@] == self.entries()[i].1@,
    {
        assert forall|i: int| 0 <= i < self.entries().len() implies self@[(#[trigger] self.entries()[i]).0@] == self.entries()[i].1@ by {
            Self::lemma_lookup(self.entries@, i);
        }
    }

    /// The map is the one that the entries stand for.
    pub proof fn lemma_view_entries(&self)
        ensures
            self@ == entries_map(self.entries()),
    {
    }

    /// The entries hold each key once.
    pub proof fn lemma_unique(&self)
        requires
            self.wf(),
        ensures
            unique_keys(self.entries()),
    {
    }

    /// The position of key `k` in the entries, where present.
    pub open spec fn index_of_key(&self, k: K::V) -> int {
        choose|i: int| 0 <= i < self.entries().len() && (#[trigger] self.entries()[i]).0@ == k
    }

    /// The value held under key `k`, where present.
    pub open spec fn value_of(&self, k: K::V) -> V {
        self.entries()[self.index_of_key(k)].1
    }

    /// With unique keys, the entry of a key is the one at its position.
    proof fn lemma_index(s: Seq<(K, V)>, j: int)
        requires
            unique_keys(s),
            0 <= j < s.len(),
        ensures
            (choose|i: int| 0 <= i < s.len() && (#[trigger] s[i]).0@ == s[j].0@) == j,
    {
        let c = choose|i: int| 0 <= i < s.len() && (#[trigger] s[i]).0@ == s[j].0@;
        assert(0 <= c < s.len() && s[c].0@ == s[j].0@);
    }

    /// The position of key `k`, if present.
    pub fn find(&self, k: &K) -> (r: Option<usize>)
        requires
            self.wf(),
        ensures
            r matches Some(i) ==> i < self.entries().len() && self.entries()[i as int].0@ == k@,
            r is None ==> !self@.contains_key(k@),
            r is None <==> !self@.contains_key(k@),
    {
        let mut i: usize = 0;
        while i < self.entries.len()
            invariant
                i <= self.entries@.len(),
                forall|j: int| 0 <= j < i ==> (#[trigger] self.entries@[j]).0@ != k@,
            decreases self.entries@.len() - i,
        {
            if self.entries[i].0.key_eq(k) {
                proof {
                    assert(has_key(self.entries@, k@));
                }
                return Some(i);
            }
            i = i + 1;
        }
        None
    }

    /// The value of key `k`, if present.
    pub fn get(&self, k: &K) -> (r: Option<&V>)
        requires
            self.wf(),
        ensures
            r is Some <==> self@.contains_key(k@),
            r matches Some(v) ==> v@ == self@[k@],
            r matches Some(v) ==> exists|j: int| 0 <= j < self.entries().len() && (#[trigger] self.entries()[j]).1 == *v,
            r matches Some(v) ==> *v == self.value_of(k@),
    {
        match self.find(k) {
            Some(i) => {
                proof {
                    Self::lemma_lookup(self.entries@, i as int);
                    assert(has_key(self.entries@, k@));
                    let c = self.index_of_key(k@);
                    assert(self.entries@[c].0@ == k@);
                    assert(c == i);
                }
                Some(&self.entries[i].1)
            },
            None => None,
        }
    }

    /// Inserts or replaces the value of key `k`.
    pub fn insert(&mut self, k: K, v: V)
        requires
            old(self).wf(),
        ensures
            final(self).wf(),
            final(self)@ == old(self)@.insert(k@, v@),
            forall|j: int|
                0 <= j < final(self).entries().len() ==> (#[trigger] final(self).entries()[j]) == (k, v)
                    || old(self).entries().contains(final(self).entries()[j]),
            !old(self)@.contains_key(k@) ==> final(self).entries() == old(self).entries().push((k, v)),
            old(self)@.contains_key(k@) ==> final(self).entries().len() == old(self).entries().len(),
            old(self)@.contains_key(k@) ==> forall|j: int|
                0 <= j < old(self).entries().len() ==> (#[trigger] final(self).entries()[j]).0@
                    == old(self).entries()[j].0@,
            final(self).value_of(k@) == v,
            forall|q: K::V| #[trigger] old(self)@.contains_key(q) && q != k@ ==> final(self).value_of(q) == old(self).value_of(q),
    {
        let ghost kv = k@;
        let ghost vv = v@;
        match self.find(&k) {
            Some(i) => {
                let ghost s = self.entries@;
                self.entries.set(i, (k, v));
                proof {
                    let t = self.entries@;
                    assert(t == s.update(i as int, t[i as int]));
                    assert forall|a: int, b: int|
                        0 <= a < t.len() && 0 <= b < t.len() && a != b implies (#[trigger] t[a]).0@
                        != (#[trigger] t[b]).0@ by {
                        if a != i && b != i {
                            assert(s[a].0@ != s[b].0@);
                        } else if a == i {
                            assert(s[i as int].0@ != s[b].0@);
                        } else {
                            assert(s[a].0@ != s[i as int].0@);
                        }
                    }
                    assert(entries_map(t) =~= entries_map(s).insert(kv, vv)) by {
                        assert forall|q: K::V| #[trigger] entries_map(t).contains_key(q) <==> entries_map(s).insert(kv, vv).contains_key(q) by {
                            if has_key(t, q) {
                                let j = choose|j: int| 0 <= j < t.len() && (#[trigger] t[j]).0@ == q;
                                if j != i {
                                    assert(s[j].0@ == q);
                                }
                            }
                            if has_key(s, q) {
                                let j = choose|j: int| 0 <= j < s.len() && (#[trigger] s[j]).0@ == q;
                                if j != i {
                                    assert(t[j].0@ == q);
                                } else {
                                    assert(t[i as int].0@ == q);
                                }
                            }
                            if q == kv {
                                assert(t[i as int].0@ == q);
                            }
                        }
                        assert forall|q: K::V| #[trigger] entries_map(t).contains_key(q) implies entries_map(t)[q] == entries_map(s).insert(kv, vv)[q] by {
                            let j = choose|j: int| 0 <= j < t.len() && (#[trigger] t[j]).0@ == q;
                            Self::lemma_lookup(t, j);
                            if j != i {
                                Self::lemma_lookup(s, j);
                            }
                        }
                    }
                    Self::lemma_index(t, i as int);
                    assert forall|q: K::V| #[trigger] entries_map(s).contains_key(q) && q != kv implies
                        self.value_of(q) == old(self).value_of(q) by {
                        let j = choose|j: int| 0 <= j < s.len() && (#[trigger] s[j]).0@ == q;
                        Self::lemma_index(s, j);
                        assert(j != i);
                        assert(t[j] == s[j]);
                        Self::lemma_index(t, j);
                    }
                }
            },
            None => {
                let ghost s = self.entries@;
                self.entries.push((k, v));
                proof {
                    let t = self.entries@;
                    assert forall|a: int, b: int|
                        0 <= a < t.len() && 0 <= b < t.len() && a != b implies (#[trigger] t[a]).0@
                        != (#[trigger] t[b]).0@ by {
                        if a < s.len() && b < s.len() {
                            assert(s[a].0@ != s[b].0@);
                        } else if a == s.len() {
                            assert(t[b] == s[b]);
                            assert(!has_key(s, kv));
                        } else {
                            assert(t[a] == s[a]);
                            assert(!has_key(s, kv));
                        }
                    }
                    assert(entries_map(t) =~= entries_map(s).insert(kv, vv)) by {
                        assert forall|q: K::V| #[trigger] entries_map(t).contains_key(q) <==> entries_map(s).insert(kv, vv).contains_key(q) by {
                            if has_key(t, q) {
                                let j = choose|j: int| 0 <= j < t.len() && (#[trigger] t[j]).0@ == q;
                                if j < s.len() {
                                    assert(s[j].0@ == q);
                                }
                            }
                            if has_key(s, q) {
                                let j = choose|j: int| 0 <= j < s.len() && (#[trigger] s[j]).0@ == q;
                                assert(t[j].0@ == q);
                            }
                            if q == kv {
                                assert(t[s.len() as int].0@ == q);
                            }
                        }
                        assert forall|q: K::V| #[trigger] entries_map(t).contains_key(q) implies entries_map(t)[q] == entries_map(s).insert(kv, vv)[q] by {
                            let j = choose|j: int| 0 <= j < t.len() && (#[trigger] t[j]).0@ == q;
                            Self::lemma_lookup(t, j);
                            if j < s.len() {
                                assert(t[j] == s[j]);
                                Self::lemma_lookup(s, j);
                            }
                        }
                    }
                    Self::lemma_index(t, s.len() as int);
                    assert forall|q: K::V| #[trigger] entries_map(s).contains_key(q) && q != kv implies
                        self.value_of(q) == old(self).value_of(q) by {
                        let j = choose|j: int| 0 <= j < s.len() && (#[trigger] s[j]).0@ == q;
                        Self::lemma_index(s, j);
                        assert(t[j] == s[j]);
                        Self::lemma_index(t, j);
                    }
                }
            },
        }
    }

    /// Removes key `k`, returning its value if it was present.
    pub fn remove(&mut self, k: &K) -> (r: Option<V>)
        requires
            old(self).wf(),
        ensures
            final(self).wf(),
            final(self)@ == old(self)@.remove(k@),
            r is Some <==> old(self)@.contains_key(k@),
            r matches Some(v) ==> v@ == old(self)@[k@],
            r matches Some(v) ==> old(self).entries().contains((old(self).entries()[old(self).index_of_key(k@)].0, v)),
            forall|j: int|
                0 <= j < final(self).entries().len() ==> old(self).entries().contains(#[trigger] final(self).entries()[j]),
            r matches Some(v) ==> v == old(self).value_of(k@),
            forall|q: K::V| #[trigger] final(self)@.contains_key(q) ==> final(self).value_of(q) == old(self).value_of(q),
    {
        match self.find(k) {
            Some(i) => {
                let ghost s = self.entries@;
                proof {
                    Self::lemma_lookup(s, i as int);
                }
                let e = self.entries.remove(i);
                proof {
                    let t = self.entries@;
                    assert(t == s.remove(i as int));
                    assert forall|a: int| 0 <= a < t.len() implies #[trigger] t[a] == s[if a < i { a } else { a + 1 }] by {}
                    assert forall|a: int, b: int|
                        0 <= a < t.len() && 0 <= b < t.len() && a != b implies (#[trigger] t[a]).0@
                        != (#[trigger] t[b]).0@ by {
                        let a2 = if a < i { a } else { a + 1 };
                        let b2 = if b < i { b } else { b + 1 };
                        assert(t[a] == s[a2]);
                        assert(t[b] == s[b2]);
                        assert(s[a2].0@ != s[b2].0@);
                    }
                    assert(entries_map(t) =~= entries_map(s).remove(k@)) by {
                        assert forall|q: K::V| #[trigger] entries_map(t).contains_key(q) <==> entries_map(s).remove(k@).contains_key(q) by {
                            if has_key(t, q) {
                                let j = choose|j: int| 0 <= j < t.len() && (#[trigger] t[j]).0@ == q;
                                let j2 = if j < i { j } else { j + 1 };
                                assert(t[j] == s[j2]);
                                assert(s[j2].0@ != s[i as int].0@);
                            }
                            if has_key(s, q) && q != k@ {
                                let j = choose|j: int| 0 <= j < s.len() && (#[trigger] s[j]).0@ == q;
                                assert(j != i);
                                let j1 = if j < i { j } else { j - 1 };
                                assert(t[j1] == s[j]);
                            }
                        }
                        assert forall|q: K::V| #[trigger] entries_map(t).contains_key(q) implies entries_map(t)[q] == entries_map(s).remove(k@)[q] by {
                            let j = choose|j: int| 0 <= j < t.len() && (#[trigger] t[j]).0@ == q;
                            Self::lemma_lookup(t, j);
                            let j2 = if j < i { j } else { j + 1 };
                            assert(t[j] == s[j2]);
                            Self::lemma_lookup(s, j2);
                        }
                    }
                    Self::lemma_index(s, i as int);
                    assert forall|q: K::V| #[trigger] entries_map(t).contains_key(q) implies
                        self.value_of(q) == old(self).value_of(q) by {
                        let j = choose|j: int| 0 <= j < t.len() && (#[trigger] t[j]).0@ == q;
                        Self::lemma_index(t, j);
                        let j2 = if j < i { j } else { j + 1 };
                        assert(t[j] == s[j2]);
                        Self::lemma_index(s, j2);
                    }
                }
                Some(e.1)
            },
            None => {
                proof {
                    assert(self@ =~= self@.remove(k@));
                }
                None
            },
        }
    }

    /// Taking one more of entries with unique keys adds that entry to the map.
    pub proof fn lemma_prefix_map(s: Seq<(K, V)>, i: int)
        requires
            unique_keys(s),
            0 <= i < s.len(),
        ensures
            entries_map(s.subrange(0, i + 1)) == entries_map(s.subrange(0, i)).insert(s[i].0@, s[i].1@),
    {
        let a = s.subrange(0, i + 1);
        let b = s.subrange(0, i);
        assert(unique_keys(a)) by {
            assert forall|x: int, y: int| 0 <= x < a.len() && 0 <= y < a.len() && x != y implies (#[trigger] a[x]).0@ != (#[trigger] a[y]).0@ by {
                assert(a[x] == s[x] && a[y] == s[y]);
            }
        }
        assert(unique_keys(b)) by {
            assert forall|x: int, y: int| 0 <= x < b.len() && 0 <= y < b.len() && x != y implies (#[trigger] b[x]).0@ != (#[trigger] b[y]).0@ by {
                assert(b[x] == s[x] && b[y] == s[y]);
            }
        }
        assert(entries_map(a) =~= entries_map(b).insert(s[i].0@, s[i].1@)) by {
            assert forall|q: K::V| #[trigger] entries_map(a).contains_key(q) <==> entries_map(b).insert(s[i].0@, s[i].1@).contains_key(q) by {
                if has_key(a, q) {
                    let j = choose|j: int| 0 <= j < a.len() && (#[trigger] a[j]).0@ == q;
                    if j < i {
                        assert(b[j] == a[j]);
                    }
                }
                if has_key(b, q) {
                    let j = choose|j: int| 0 <= j < b.len() && (#[trigger] b[j]).0@ == q;
                    assert(a[j] == b[j]);
                }
                if q == s[i].0@ {
                    assert(a[i] == s[i]);
                }
            }
            assert forall|q: K::V| #[trigger] entries_map(a).contains_key(q) implies entries_map(a)[q] == entries_map(b).insert(s[i].0@, s[i].1@)[q] by {
                let j = choose|j: int| 0 <= j < a.len() && (#[trigger] a[j]).0@ == q;
                Self::lemma_lookup(a, j);
                if j < i {
                    assert(b[j] == a[j]);
                    Self::lemma_lookup(b, j);
                }
            }
        }
    }

    /// Inserts every entry of `other`, in its order; the values of `other` win.
    pub fn extend_from(&mut self, other: &KeyedVec<K, V>)
        where
            K: DeepClone,
            V: DeepClone,
        requires
            old(self).wf(),
            other.wf(),
        ensures
            final(self).wf(),
            final(self)@ == old(self)@.union_prefer_right(other@),
    {
        let n = other.entries.len();
        let mut i: usize = 0;
        proof {
            assert(entries_map(other.entries@.subrange(0, 0)) =~= Map::<K::V, V::V>::empty());
            assert(old(self)@.union_prefer_right(Map::<K::V, V::V>::empty()) =~= old(self)@);
        }
        while i < n
            invariant
                self.wf(),
                other.wf(),
                n == other.entries@.len(),
                i <= n,
                self@ == old(self)@.union_prefer_right(entries_map(other.entries@.subrange(0, i as int))),
            decreases n - i,
        {
            let k = other.entries[i].0.deep_clone();
            let v = other.entries[i].1.deep_clone();
            proof {
                Self::lemma_prefix_map(other.entries@, i as int);
            }
            self.insert(k, v);
            proof {
                let m = entries_map(other.entries@.subrange(0, i as int));
                let kk = other.entries@[i as int].0@;
                let vv = other.entries@[i as int].1@;
                assert(old(self)@.union_prefer_right(m).insert(kk, vv) =~= old(self)@.union_prefer_right(m.insert(kk, vv)));
            }
            i = i + 1;
        }
        proof {
            assert(other.entries@.subrange(0, n as int) =~= other.entries@);
        }
    }
}

} // verus!

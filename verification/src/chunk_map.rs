//! A finite map keyed by chunk position, held as a list of distinct keys with their values.

use vstd::prelude::*;
use crate::chunk_pos::ChunkPos;

verus! {

/// No key occurs twice in `s`.
spec fn distinct_keys<V>(s: Seq<(ChunkPos, V)>) -> bool {
    forall|i: int, j: int| 0 <= i < j < s.len() ==> #[trigger] s[i].0 != #[trigger] s[j].0
}

/// Map from chunk positions to values; each key occurs at most once.
pub struct ChunkMap<V> {
    entries: Vec<(ChunkPos, V)>,
}

impl<V> ChunkMap<V> {
    /// No key occurs twice among the entries.
    #[verifier::type_invariant]
    closed spec fn keys_distinct(self) -> bool {
        distinct_keys(self.entries@)
    }

    /// Whether some entry has key `k`.
    closed spec fn has_key(self, k: ChunkPos) -> bool {
        exists|i: int| 0 <= i < self.entries@.len() && #[trigger] self.entries@[i].0 == k
    }

    /// The value stored with key `k` (meaningful when `has_key(k)`).
    closed spec fn value_of(self, k: ChunkPos) -> V {
        self.entries@[choose|i: int| 0 <= i < self.entries@.len() && #[trigger] self.entries@[i].0 == k].1
    }

    /// The map this value stands for.
    pub closed spec fn as_map(self) -> Map<ChunkPos, V> {
        Map::new(|k: ChunkPos| self.has_key(k), |k: ChunkPos| self.value_of(k))
    }

    /// The entry at index `i` is what the map holds for its key.
    proof fn lemma_entry(self, i: int)
        requires
            self.keys_distinct(),
            0 <= i < self.entries@.len(),
        ensures
            self.as_map().dom().contains(self.entries@[i].0),
            self.as_map()[self.entries@[i].0] == self.entries@[i].1,
    {
        let k = self.entries@[i].0;
        assert(self.has_key(k));
        let j = choose|j: int| 0 <= j < self.entries@.len() && #[trigger] self.entries@[j].0 == k;
        if j != i {
            if j < i {
                assert(self.entries@[j].0 != self.entries@[i].0);
            } else {
                assert(self.entries@[i].0 != self.entries@[j].0);
            }
        }
    }

    /// Position of key `k` among the entries, if it is there.
    fn find(&self, k: &ChunkPos) -> (res: Option<usize>)
        ensures
            match res {
                Some(i) => i < self.entries@.len() && self.entries@[i as int].0 == *k,
                None => !self.as_map().dom().contains(*k),
            },
    {
        let n = self.entries.len();
        let mut i: usize = 0;
        while i < n
            invariant
                n == self.entries@.len(),
                i <= n,
                forall|j: int| 0 <= j < i ==> #[trigger] self.entries@[j].0 != *k,
            decreases n - i,
        {
            if self.entries[i].0 == *k {
                return Some(i);
            }
            i = i + 1;
        }
        None
    }

    /// An empty map.
    pub fn new() -> (m: Self)
        ensures
            m@ == Map::<ChunkPos, V>::empty(),
    {
        let m = ChunkMap { entries: Vec::new() };
        assert(m.as_map() =~= Map::<ChunkPos, V>::empty());
        m
    }

    /// Number of keys.
    pub fn len(&self) -> (n: usize)
        ensures
            n == self@.dom().len(),
    {
        proof {
            use_type_invariant(self);
            let keys = self.entries@.map_values(|e: (ChunkPos, V)| e.0);
            assert(keys.no_duplicates()) by {
                assert forall|i: int, j: int| 0 <= i < keys.len() && 0 <= j < keys.len() && i != j implies keys[i] != keys[j] by {
                    if i < j {
                        assert(self.entries@[i].0 != self.entries@[j].0);
                    } else {
                        assert(self.entries@[j].0 != self.entries@[i].0);
                    }
                }
            }
            keys.unique_seq_to_set();
            assert(keys.to_set() =~= self@.dom()) by {
                assert forall|k: ChunkPos| keys.to_set().contains(k) <==> self@.dom().contains(k) by {
                    if self.has_key(k) {
                        let i = choose|i: int| 0 <= i < self.entries@.len() && #[trigger] self.entries@[i].0 == k;
                        assert(keys[i] == k);
                    }
                    if keys.contains(k) {
                        let i = choose|i: int| 0 <= i < keys.len() && keys[i] == k;
                        assert(self.entries@[i].0 == k);
                    }
                }
            }
        }
        self.entries.len()
    }

    /// Whether `k` has a value.
    pub fn contains_key(&self, k: &ChunkPos) -> (b: bool)
        ensures
            b == self@.dom().contains(*k),
    {
        proof { use_type_invariant(self); }
        match self.find(k) {
            Some(i) => {
                proof { self.lemma_entry(i as int); }
                true
            },
            None => false,
        }
    }

    /// The value stored with `k`, if any.
    pub fn get(&self, k: &ChunkPos) -> (r: Option<&V>)
        ensures
            match r {
                Some(v) => self@.dom().contains(*k) && *v == self@[*k],
                None => !self@.dom().contains(*k),
            },
    {
        proof { use_type_invariant(self); }
        match self.find(k) {
            Some(i) => {
                proof { self.lemma_entry(i as int); }
                Some(&self.entries[i].1)
            },
            None => None,
        }
    }

    /// Stores `v` with key `k`, returning the value `k` had before, if any.
    pub fn insert(&mut self, k: ChunkPos, v: V) -> (old_v: Option<V>)
        ensures
            final(self)@ == old(self)@.insert(k, v),
            match old_v {
                Some(w) => old(self)@.dom().contains(k) && w == old(self)@[k],
                None => !old(self)@.dom().contains(k),
            },
    {
        proof { use_type_invariant(&*self); }
        let found = self.find(&k);
        let ghost pre = *self;
        match found {
            Some(i) => {
                proof { pre.lemma_entry(i as int); }
                let mut entries: Vec<(ChunkPos, V)> = Vec::new();
                std::mem::swap(&mut entries, &mut self.entries);
                let (_, w) = entries.swap_remove(i);
                entries.push((k, v));
                proof {
                    let s = pre.entries@;
                    let t = entries@;
                    let n = s.len();
                    assert(t.len() == n);
                    assert forall|a: int| 0 <= a < n && a != i && a != n - 1 implies #[trigger] t[a] == s[a] by {}
                    assert(i != n - 1 ==> t[i as int] == s[n - 1]);
                    assert(t[n - 1] == (k, v));
                    assert(distinct_keys(t)) by {
                        assert forall|a: int, b: int| 0 <= a < b < t.len() implies #[trigger] t[a].0 != #[trigger] t[b].0 by {
                            if b == n - 1 {
                                if a == i {
                                    assert(s[n - 1].0 != s[i as int].0);
                                } else {
                                    assert(s[a].0 != s[i as int].0 || a == i);
                                    if a < i { assert(s[a].0 != s[i as int].0); } else { assert(s[i as int].0 != s[a].0); }
                                }
                            } else if a == i {
                                assert(s[i as int].0 != s[n - 1].0);
                            } else if b == i {
                                assert(s[a].0 != s[n - 1].0);
                            } else {
                                assert(s[a].0 != s[b].0);
                            }
                        }
                    }
                }
                self.entries = entries;
                proof {
                    let s = pre.entries@;
                    let t = self.entries@;
                    let n = s.len();
                    assert forall|a: int| 0 <= a < n && a != i && a != n - 1 implies #[trigger] t[a] == s[a] by {}
                    assert(i != n - 1 ==> t[i as int] == s[n - 1]);
                    assert(self.as_map() =~= pre.as_map().insert(k, v)) by {
                        assert forall|q: ChunkPos| #[trigger] self.has_key(q) <==> pre.as_map().insert(k, v).dom().contains(q) by {
                            if self.has_key(q) {
                                let a = choose|a: int| 0 <= a < t.len() && #[trigger] t[a].0 == q;
                                if a == i && i != n - 1 { pre.lemma_entry(n - 1); }
                                else if a != n - 1 { pre.lemma_entry(a); }
                            }
                            if pre.has_key(q) && q != k {
                                let a = choose|a: int| 0 <= a < s.len() && #[trigger] s[a].0 == q;
                                assert(a != i);
                                if a == n - 1 { assert(t[i as int].0 == q); } else { assert(t[a].0 == q); }
                            }
                            if q == k { assert(t[n - 1].0 == k); }
                        }
                        assert forall|q: ChunkPos| #[trigger] self.has_key(q) implies self.as_map()[q] == pre.as_map().insert(k, v)[q] by {
                            let a = choose|a: int| 0 <= a < t.len() && #[trigger] t[a].0 == q;
                            self.lemma_entry(a);
                            if a == n - 1 {
                            } else if a == i {
                                pre.lemma_entry(n - 1);
                            } else {
                                pre.lemma_entry(a);
                            }
                        }
                    }
                }
                Some(w)
            },
            None => {
                let mut entries: Vec<(ChunkPos, V)> = Vec::new();
                std::mem::swap(&mut entries, &mut self.entries);
                entries.push((k, v));
                proof {
                    let s = pre.entries@;
                    let t = entries@;
                    let n = s.len();
                    assert(distinct_keys(t)) by {
                        assert forall|a: int, b: int| 0 <= a < b < t.len() implies #[trigger] t[a].0 != #[trigger] t[b].0 by {
                            if b == n {
                                if t[a].0 == k { assert(s[a].0 == k); assert(pre.has_key(k)); }
                            } else {
                                assert(s[a].0 != s[b].0);
                            }
                        }
                    }
                }
                self.entries = entries;
                proof {
                    let s = pre.entries@;
                    let t = self.entries@;
                    let n = s.len();
                    assert(self.as_map() =~= pre.as_map().insert(k, v)) by {
                        assert forall|q: ChunkPos| #[trigger] self.has_key(q) <==> pre.as_map().insert(k, v).dom().contains(q) by {
                            if self.has_key(q) {
                                let a = choose|a: int| 0 <= a < t.len() && #[trigger] t[a].0 == q;
                                if a < n { assert(s[a].0 == q); }
                            }
                            if pre.has_key(q) {
                                let a = choose|a: int| 0 <= a < s.len() && #[trigger] s[a].0 == q;
                                assert(t[a].0 == q);
                            }
                            if q == k { assert(t[n as int].0 == k); }
                        }
                        assert forall|q: ChunkPos| #[trigger] self.has_key(q) implies self.as_map()[q] == pre.as_map().insert(k, v)[q] by {
                            let a = choose|a: int| 0 <= a < t.len() && #[trigger] t[a].0 == q;
                            self.lemma_entry(a);
                            if a < n {
                                assert(s[a] == t[a]);
                                pre.lemma_entry(a);
                            }
                        }
                    }
                }
                None
            },
        }
    }

    /// Removes key `k`, returning its value, if it had one.
    pub fn remove(&mut self, k: &ChunkPos) -> (old_v: Option<V>)
        ensures
            final(self)@ == old(self)@.remove(*k),
            match old_v {
                Some(w) => old(self)@.dom().contains(*k) && w == old(self)@[*k],
                None => !old(self)@.dom().contains(*k),
            },
    {
        proof { use_type_invariant(&*self); }
        let found = self.find(k);
        let ghost pre = *self;
        match found {
            Some(i) => {
                proof { pre.lemma_entry(i as int); }
                let mut entries: Vec<(ChunkPos, V)> = Vec::new();
                std::mem::swap(&mut entries, &mut self.entries);
                let (_, w) = entries.swap_remove(i);
                proof {
                    let s = pre.entries@;
                    let t = entries@;
                    let n = s.len();
                    assert(t.len() == n - 1);
                    assert forall|a: int| 0 <= a < n - 1 && a != i implies #[trigger] t[a] == s[a] by {}
                    assert(i < n - 1 ==> t[i as int] == s[n - 1]);
                    assert(distinct_keys(t)) by {
                        assert forall|a: int, b: int| 0 <= a < b < t.len() implies #[trigger] t[a].0 != #[trigger] t[b].0 by {
                            if a == i {
                                assert(s[b].0 != s[n - 1].0);
                            } else if b == i {
                                assert(s[a].0 != s[n - 1].0);
                            } else {
                                assert(s[a].0 != s[b].0);
                            }
                        }
                    }
                }
                self.entries = entries;
                proof {
                    let s = pre.entries@;
                    let t = self.entries@;
                    let n = s.len();
                    assert forall|a: int| 0 <= a < n - 1 && a != i implies #[trigger] t[a] == s[a] by {}
                    assert(i < n - 1 ==> t[i as int] == s[n - 1]);
                    assert(self.as_map() =~= pre.as_map().remove(*k)) by {
                        assert forall|q: ChunkPos| #[trigger] self.has_key(q) <==> pre.as_map().remove(*k).dom().contains(q) by {
                            if self.has_key(q) {
                                let a = choose|a: int| 0 <= a < t.len() && #[trigger] t[a].0 == q;
                                if a == i {
                                    pre.lemma_entry(n - 1);
                                    assert(s[i as int].0 != s[n - 1].0);
                                } else {
                                    pre.lemma_entry(a);
                                    assert(s[a].0 != s[i as int].0 || a == i);
                                    if a < i { assert(s[a].0 != s[i as int].0); } else { assert(s[i as int].0 != s[a].0); }
                                }
                            }
                            if pre.has_key(q) && q != *k {
                                let a = choose|a: int| 0 <= a < s.len() && #[trigger] s[a].0 == q;
                                assert(a != i);
                                if a == n - 1 { assert(t[i as int].0 == q); } else { assert(t[a].0 == q); }
                            }
                        }
                        assert forall|q: ChunkPos| #[trigger] self.has_key(q) implies self.as_map()[q] == pre.as_map().remove(*k)[q] by {
                            let a = choose|a: int| 0 <= a < t.len() && #[trigger] t[a].0 == q;
                            self.lemma_entry(a);
                            if a == i {
                                pre.lemma_entry(n - 1);
                            } else {
                                pre.lemma_entry(a);
                            }
                        }
                    }
                }
                Some(w)
            },
            None => {
                proof { assert(pre.as_map().remove(*k) =~= pre.as_map()); }
                None
            },
        }
    }
}

impl<V: Copy> ChunkMap<V> {
    /// The key/value pairs, each key once, in storage order.
    pub fn entries(&self) -> (r: Vec<(ChunkPos, V)>)
        ensures
            forall|i: int, j: int| 0 <= i < j < r@.len() ==> #[trigger] r@[i].0 != #[trigger] r@[j].0,
            forall|i: int| 0 <= i < r@.len() ==> self@.dom().contains(#[trigger] r@[i].0) && self@[r@[i].0] == r@[i].1,
            forall|k: ChunkPos| self@.dom().contains(k) ==> exists|i: int| 0 <= i < r@.len() && #[trigger] r@[i].0 == k,
    {
        proof { use_type_invariant(self); }
        let n = self.entries.len();
        let mut r: Vec<(ChunkPos, V)> = Vec::new();
        let mut i: usize = 0;
        while i < n
            invariant
                n == self.entries@.len(),
                self.keys_distinct(),
                i <= n,
                r@ == self.entries@.take(i as int),
            decreases n - i,
        {
            r.push(self.entries[i]);
            proof { assert(r@ =~= self.entries@.take(i + 1)); }
            i = i + 1;
        }
        proof {
            assert(r@ =~= self.entries@);
            assert forall|i: int| 0 <= i < r@.len() implies self@.dom().contains(#[trigger] r@[i].0) && self@[r@[i].0] == r@[i].1 by {
                self.lemma_entry(i);
            }
        }
        r
    }
}

impl<V> View for ChunkMap<V> {
    type V = Map<ChunkPos, V>;

    open spec fn view(&self) -> Map<ChunkPos, V> {
        self.as_map()
    }
}

} // verus!

//! An index from byte strings (names, repositories) to subnet ids, keeping
//! each key at most once.

use vstd::prelude::*;

verus! {

/// Whether two byte strings are equal.
pub fn bytes_eq(a: &Vec<u8>, b: &Vec<u8>) -> (r: bool)
    ensures
        r == (a@ == b@),
{
    if a.len() != b.len() {
        return false;
    }
    let mut i: usize = 0;
    while i < a.len()
        invariant
            a.len() == b.len(),
            i <= a.len(),
            forall|j: int| 0 <= j < i ==> a@[j] == b@[j],
        decreases a.len() - i,
    {
        if a[i] != b[i] {
            return false;
        }
        i = i + 1;
    }
    assert(a@ =~= b@);
    true
}

/// One key of the index.
#[derive(Clone)]
pub struct NameEntry {
    pub key: Vec<u8>,
    pub id: u32,
}

/// Byte-string keys mapped to subnet ids.
#[derive(Clone)]
pub struct NameIndex {
    pub entries: Vec<NameEntry>,
}

impl NameIndex {
    /// No key occurs twice.
    pub open spec fn keys_distinct(&self) -> bool {
        forall|i: int, j: int|
            0 <= i < j < self.entries@.len() ==> (#[trigger] self.entries@[i]).key@ != (#[trigger] self.entries@[j]).key@
    }

    /// Whether `k` is a key.
    pub open spec fn has(&self, k: Seq<u8>) -> bool {
        exists|i: int| 0 <= i < self.entries@.len() && (#[trigger] self.entries@[i]).key@ == k
    }

    /// The index as a map.
    pub open spec fn as_map(&self) -> Map<Seq<u8>, u32> {
        Map::new(
            |k: Seq<u8>| self.has(k),
            |k: Seq<u8>| self.entries@[choose|i: int| 0 <= i < self.entries@.len() && (#[trigger] self.entries@[i]).key@ == k].id,
        )
    }

    /// Under distinct keys, entry `i` is what the map holds for its key.
    proof fn lemma_entry(&self, i: int)
        requires
            self.keys_distinct(),
            0 <= i < self.entries@.len(),
        ensures
            self.as_map().contains_key(self.entries@[i].key@),
            self.as_map()[self.entries@[i].key@] == self.entries@[i].id,
    {
        let k = self.entries@[i].key@;
        assert(self.has(k));
        let j = choose|j: int| 0 <= j < self.entries@.len() && (#[trigger] self.entries@[j]).key@ == k;
        if j != i {
            if j < i {
                assert(self.entries@[j].key@ != self.entries@[i].key@);
            } else {
                assert(self.entries@[i].key@ != self.entries@[j].key@);
            }
        }
    }

    /// An empty index.
    pub fn new() -> (r: NameIndex)
        ensures
            r.keys_distinct(),
            r.as_map() == Map::<Seq<u8>, u32>::empty(),
    {
        let r = NameIndex { entries: Vec::new() };
        assert(r.as_map() =~= Map::<Seq<u8>, u32>::empty());
        r
    }

    /// Position of `k`, if it is a key.
    fn find(&self, k: &Vec<u8>) -> (r: Option<usize>)
        ensures
            match r {
                Some(i) => i < self.entries@.len() && self.entries@[i as int].key@ == k@,
                None => !self.has(k@),
            },
    {
        let mut i: usize = 0;
        while i < self.entries.len()
            invariant
                i <= self.entries@.len(),
                forall|j: int| 0 <= j < i ==> (#[trigger] self.entries@[j]).key@ != k@,
            decreases self.entries@.len() - i,
        {
            if bytes_eq(&self.entries[i].key, k) {
                return Some(i);
            }
            i = i + 1;
        }
        None
    }

    /// Whether `k` is a key.
    pub fn contains_key(&self, k: &Vec<u8>) -> (r: bool)
        ensures
            r == self.as_map().contains_key(k@),
    {
        self.find(k).is_some()
    }

    /// Map `k` to `id`, replacing an earlier id.
    pub fn insert(&mut self, k: Vec<u8>, id: u32)
        requires
            old(self).keys_distinct(),
        ensures
            final(self).keys_distinct(),
            final(self).as_map() == old(self).as_map().insert(k@, id),
    {
        let ghost kv = k@;
        match self.find(&k) {
            Some(i) => {
                self.entries.set(i, NameEntry { key: k, id });
                proof {
                    let o = *old(self);
                    assert forall|a: int, b: int| 0 <= a < b < self.entries@.len() implies
                        (#[trigger] self.entries@[a]).key@ != (#[trigger] self.entries@[b]).key@ by {
                        assert(o.entries@[a].key@ != o.entries@[b].key@);
                    }
                    assert forall|q: Seq<u8>| self.has(q) <==> o.has(q) by {
                        if self.has(q) {
                            let j = choose|j: int| 0 <= j < self.entries@.len() && (#[trigger] self.entries@[j]).key@ == q;
                            assert(o.entries@[j].key@ == q);
                        }
                        if o.has(q) {
                            let j = choose|j: int| 0 <= j < o.entries@.len() && (#[trigger] o.entries@[j]).key@ == q;
                            assert(self.entries@[j].key@ == q);
                        }
                    }
                    assert forall|q: Seq<u8>| #[trigger] self.as_map().contains_key(q) implies
                        self.as_map()[q] == o.as_map().insert(kv, id)[q] by {
                        let j = choose|j: int| 0 <= j < self.entries@.len() && (#[trigger] self.entries@[j]).key@ == q;
                        self.lemma_entry(j);
                        if j != i as int {
                            o.lemma_entry(j);
                            assert(o.entries@[j] == self.entries@[j]);
                            if j < i as int {
                                assert(o.entries@[j].key@ != o.entries@[i as int].key@);
                            } else {
                                assert(o.entries@[i as int].key@ != o.entries@[j].key@);
                            }
                            assert(q != kv);
                        } else {
                            assert(q == kv);
                        }
                    }
                    assert(self.as_map().dom() =~= o.as_map().insert(kv, id).dom()) by {
                        assert forall|q: Seq<u8>| self.as_map().dom().contains(q) <==> o.as_map().insert(kv, id).dom().contains(q) by {
                            assert(self.has(q) <==> o.has(q));
                            assert(o.entries@[i as int].key@ == kv);
                            assert(o.has(kv));
                        }
                    }
                    assert(self.as_map() =~= o.as_map().insert(kv, id));
                }
            },
            None => {
                self.entries.push(NameEntry { key: k, id });
                proof {
                    let o = *old(self);
                    let n = o.entries@.len() as int;
                    assert forall|a: int, b: int| 0 <= a < b < self.entries@.len() implies
                        (#[trigger] self.entries@[a]).key@ != (#[trigger] self.entries@[b]).key@ by {
                        if b < n {
                            assert(o.entries@[a].key@ != o.entries@[b].key@);
                        } else {
                            assert(o.entries@[a] == self.entries@[a]);
                        }
                    }
                    assert forall|q: Seq<u8>| self.has(q) <==> (o.has(q) || q == kv) by {
                        if self.has(q) {
                            let j = choose|j: int| 0 <= j < self.entries@.len() && (#[trigger] self.entries@[j]).key@ == q;
                            if j < n {
                                assert(o.entries@[j].key@ == q);
                            }
                        }
                        if o.has(q) {
                            let j = choose|j: int| 0 <= j < o.entries@.len() && (#[trigger] o.entries@[j]).key@ == q;
                            assert(self.entries@[j].key@ == q);
                        }
                        if q == kv {
                            assert(self.entries@[n].key@ == q);
                        }
                    }
                    assert forall|q: Seq<u8>| #[trigger] self.as_map().contains_key(q) implies
                        self.as_map()[q] == o.as_map().insert(kv, id)[q] by {
                        let j = choose|j: int| 0 <= j < self.entries@.len() && (#[trigger] self.entries@[j]).key@ == q;
                        self.lemma_entry(j);
                        if j < n {
                            o.lemma_entry(j);
                            assert(o.entries@[j] == self.entries@[j]);
                            assert(o.has(q));
                            assert(q != kv);
                        } else {
                            assert(q == kv);
                        }
                    }
                    assert(self.as_map().dom() =~= o.as_map().insert(kv, id).dom()) by {
                        assert forall|q: Seq<u8>| self.as_map().dom().contains(q) <==> o.as_map().insert(kv, id).dom().contains(q) by {
                            assert(self.has(q) <==> (o.has(q) || q == kv));
                        }
                    }
                    assert(self.as_map() =~= o.as_map().insert(kv, id));
                }
            },
        }
    }

    /// Remove key `k`, if present.
    pub fn remove(&mut self, k: &Vec<u8>)
        requires
            old(self).keys_distinct(),
        ensures
            final(self).keys_distinct(),
            final(self).as_map() == old(self).as_map().remove(k@),
    {
        match self.find(k) {
            Some(i) => {
                self.entries.remove(i);
                proof {
                    let o = *old(self);
                    let ii = i as int;
                    assert forall|a: int| 0 <= a < self.entries@.len() implies
                        #[trigger] self.entries@[a] == o.entries@[if a < ii { a } else { a + 1 }] by {}
                    assert forall|a: int, b: int| 0 <= a < b < self.entries@.len() implies
                        (#[trigger] self.entries@[a]).key@ != (#[trigger] self.entries@[b]).key@ by {
                        let a0 = if a < ii { a } else { a + 1 };
                        let b0 = if b < ii { b } else { b + 1 };
                        assert(self.entries@[a] == o.entries@[a0]);
                        assert(self.entries@[b] == o.entries@[b0]);
                        assert(o.entries@[a0].key@ != o.entries@[b0].key@);
                    }
                    assert forall|q: Seq<u8>| self.has(q) <==> (o.has(q) && q != k@) by {
                        if self.has(q) {
                            let j = choose|j: int| 0 <= j < self.entries@.len() && (#[trigger] self.entries@[j]).key@ == q;
                            let j0 = if j < ii { j } else { j + 1 };
                            assert(self.entries@[j] == o.entries@[j0]);
                            assert(o.entries@[j0].key@ == q);
                            if q == k@ {
                                if j0 < ii {
                                    assert(o.entries@[j0].key@ != o.entries@[ii].key@);
                                } else {
                                    assert(o.entries@[ii].key@ != o.entries@[j0].key@);
                                }
                            }
                        }
                        if o.has(q) && q != k@ {
                            let j = choose|j: int| 0 <= j < o.entries@.len() && (#[trigger] o.entries@[j]).key@ == q;
                            assert(j != ii);
                            let j1 = if j < ii { j } else { j - 1 };
                            assert(self.entries@[j1] == o.entries@[j]);
                            assert(self.entries@[j1].key@ == q);
                        }
                    }
                    assert forall|q: Seq<u8>| #[trigger] self.as_map().contains_key(q) implies
                        self.as_map()[q] == o.as_map().remove(k@)[q] by {
                        let j = choose|j: int| 0 <= j < self.entries@.len() && (#[trigger] self.entries@[j]).key@ == q;
                        self.lemma_entry(j);
                        let j0 = if j < ii { j } else { j + 1 };
                        assert(self.entries@[j] == o.entries@[j0]);
                        o.lemma_entry(j0);
                    }
                    assert(self.as_map() =~= o.as_map().remove(k@));
                }
            },
            None => {
                proof {
                    assert(self.as_map() =~= old(self).as_map().remove(k@));
                }
            },
        }
    }

    /// The id stored under `k`, if any.
    pub fn get(&self, k: &Vec<u8>) -> (r: Option<u32>)
        requires
            self.keys_distinct(),
        ensures
            r == if self.as_map().contains_key(k@) { Some(self.as_map()[k@]) } else { None::<u32> },
    {
        match self.find(k) {
            Some(i) => {
                proof {
                    self.lemma_entry(i as int);
                }
                Some(self.entries[i].id)
            },
            None => None,
        }
    }
}

} // verus!

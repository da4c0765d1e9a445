//! The two record stores behind the engines.
//!
//! [`OrderedStore`] keeps its records sorted under a [`Comparator`] and
//! backs the ordered tree engine, including positional access for cursors.
//! [`HashStore`] keeps its records in insertion order with unique keys and
//! backs the hashed engine, which promises no traversal order.  Both are
//! specified against the association-sequence model of [`crate::model`].
use crate::model::{distinct_keys, kv_map};
use crate::order::{
    compare_keys, key_lt, lemma_key_lt_asymmetric, lemma_key_lt_connected,
    lemma_key_lt_transitive, Comparator, KeyOrder,
};
use vstd::prelude::*;

verus! {

/// One stored record: a key and a value, each an arbitrary byte string,
/// zero length included.
pub struct Record {
    /// The record's key; unique within one store.
    pub key: Vec<u8>,
    /// The record's value.
    pub value: Vec<u8>,
}

/// The association sequence a record vector stands for.
pub open spec fn entries_of(items: Seq<Record>) -> Seq<(Seq<u8>, Seq<u8>)> {
    items.map_values(|r: Record| (r.key@, r.value@))
}

/// The keys of `s` are strictly increasing under strategy `c`.
pub open spec fn sorted_under(c: Comparator, s: Seq<(Seq<u8>, Seq<u8>)>) -> bool {
    forall|i: int, j: int| 0 <= i < j < s.len() ==> key_lt(c, s[i].0, s[j].0)
}

/// A strictly sorted sequence has distinct keys.
pub proof fn lemma_sorted_distinct(c: Comparator, s: Seq<(Seq<u8>, Seq<u8>)>)
    requires
        sorted_under(c, s),
    ensures
        distinct_keys(s),
{
    assert forall|i: int, j: int| 0 <= i < j < s.len() implies s[i].0 != s[j].0 by {
        lemma_key_lt_asymmetric(c, s[i].0, s[j].0);
    }
}

/// A strictly sorted association sequence is the canonical form of its
/// map: two sequences sorted under the same strategy that describe the
/// same map are equal.
pub proof fn lemma_sorted_entries_unique(
    c: Comparator,
    s1: Seq<(Seq<u8>, Seq<u8>)>,
    s2: Seq<(Seq<u8>, Seq<u8>)>,
)
    requires
        sorted_under(c, s1),
        sorted_under(c, s2),
        kv_map(s1) == kv_map(s2),
    ensures
        s1 == s2,
    decreases s1.len(),
{
    lemma_sorted_distinct(c, s1);
    lemma_sorted_distinct(c, s2);
    if s1.len() == 0 {
        if s2.len() > 0 {
            crate::model::lemma_kv_map_index(s2, 0);
            crate::model::lemma_kv_map_contains(s1, s2[0].0);
        }
        assert(s1 =~= s2);
    } else if s2.len() == 0 {
        crate::model::lemma_kv_map_index(s1, 0);
        crate::model::lemma_kv_map_contains(s2, s1[0].0);
    } else {
        let k1 = s1.last().0;
        let k2 = s2.last().0;
        crate::model::lemma_kv_map_index(s1, s1.len() - 1);
        crate::model::lemma_kv_map_index(s2, s2.len() - 1);
        if k1 != k2 {
            crate::model::lemma_kv_map_contains(s2, k1);
            let j = choose|j: int| 0 <= j < s2.len() && s2[j].0 == k1;
            assert(j < s2.len() - 1);
            assert(key_lt(c, k1, k2));
            crate::model::lemma_kv_map_contains(s1, k2);
            let i = choose|i: int| 0 <= i < s1.len() && s1[i].0 == k2;
            assert(i < s1.len() - 1);
            assert(key_lt(c, k2, k1));
            lemma_key_lt_asymmetric(c, k1, k2);
        }
        assert(s1.last().1 == kv_map(s1)[k1]);
        assert(s2.last().1 == kv_map(s2)[k1]);
        assert(s1.last() == s2.last());
        assert(s1.drop_last() =~= s1.remove(s1.len() - 1));
        assert(s2.drop_last() =~= s2.remove(s2.len() - 1));
        crate::model::lemma_kv_map_remove(s1, s1.len() - 1);
        crate::model::lemma_kv_map_remove(s2, s2.len() - 1);
        assert(kv_map(s1.drop_last()) =~= kv_map(s2.drop_last()));
        lemma_sorted_entries_unique(c, s1.drop_last(), s2.drop_last());
        assert(s1.len() == s2.len());
        assert forall|i: int| 0 <= i < s1.len() implies s1[i] == s2[i] by {
            if i < s1.len() - 1 {
                assert(s1.drop_last()[i] == s1[i]);
                assert(s2.drop_last()[i] == s2[i]);
            } else {
                assert(s1[i] == s1.last() && s2[i] == s2.last());
            }
        }
        assert(s1 =~= s2);
    }
}

/// A record store sorted under a fixed comparison strategy.
pub struct OrderedStore {
    /// The comparison strategy the records are sorted under.
    pub cmp: Comparator,
    /// The records, sorted by key, strictly increasing.
    pub items: Vec<Record>,
}

impl OrderedStore {
    /// The association sequence of the store, in sorted order.
    pub open spec fn entries(self) -> Seq<(Seq<u8>, Seq<u8>)> {
        entries_of(self.items@)
    }

    /// The logical content of the store.
    pub open spec fn as_map(self) -> Map<Seq<u8>, Seq<u8>> {
        kv_map(self.entries())
    }

    /// Well-formedness: the records are strictly sorted under `cmp`.
    pub open spec fn wf(self) -> bool {
        sorted_under(self.cmp, self.entries())
    }

    /// An empty store sorted under `cmp`.
    pub fn new(cmp: Comparator) -> (r: OrderedStore)
        ensures
            r.wf(),
            r.cmp == cmp,
            r.entries() == Seq::<(Seq<u8>, Seq<u8>)>::empty(),
            r.as_map() == Map::<Seq<u8>, Seq<u8>>::empty(),
    {
        let r = OrderedStore { cmp, items: Vec::new() };
        proof {
            assert(r.entries() =~= Seq::<(Seq<u8>, Seq<u8>)>::empty());
        }
        r
    }

    /// The number of records.
    pub fn len(&self) -> (r: usize)
        ensures
            r == self.entries().len(),
    {
        self.items.len()
    }

    /// Finds where `key` stands: the index of the first record whose key
    /// does not precede `key`, and whether that record carries `key` itself.
    /// When the flag is false, no record of the store carries `key`.
    pub fn locate(&self, key: &[u8]) -> (r: (usize, bool))
        requires
            self.wf(),
        ensures
            r.0 <= self.entries().len(),
            forall|j: int| 0 <= j < r.0 ==> key_lt(self.cmp, self.entries()[j].0, key@),
            r.1 ==> r.0 < self.entries().len() && self.entries()[r.0 as int].0 == key@,
            !r.1 && r.0 < self.entries().len() ==> key_lt(
                self.cmp,
                key@,
                self.entries()[r.0 as int].0,
            ),
            !r.1 ==> forall|j: int| 0 <= j < self.entries().len() ==> self.entries()[j].0 != key@,
    {
        let n: usize = self.items.len();
        let mut i: usize = 0;
        let mut stopped: bool = false;
        while i < n && !stopped
            invariant
                i <= n,
                n == self.entries().len(),
                self.wf(),
                forall|j: int| 0 <= j < i ==> key_lt(self.cmp, self.entries()[j].0, key@),
                stopped ==> i < n && !key_lt(self.cmp, self.entries()[i as int].0, key@),
            decreases n - i + (if stopped { 0int } else { 1int }),
        {
            let ord = compare_keys(self.cmp, self.items[i].key.as_slice(), key);
            if ord == KeyOrder::Less {
                i = i + 1;
            } else {
                stopped = true;
            }
        }
        if i < n {
            let ord = compare_keys(self.cmp, self.items[i].key.as_slice(), key);
            if ord == KeyOrder::Equal {
                return (i, true);
            }
            proof {
                lemma_key_lt_connected(self.cmp, self.entries()[i as int].0, key@);
                self.lemma_absent_from_position(key@, i as int);
            }
            (i, false)
        } else {
            proof {
                self.lemma_absent_from_position(key@, i as int);
            }
            (i, false)
        }
    }

    /// If every key before position `i` precedes `k` and the key at `i`, if
    /// any, follows `k`, then no record of the store carries `k`.
    proof fn lemma_absent_from_position(self, k: Seq<u8>, i: int)
        requires
            self.wf(),
            0 <= i <= self.entries().len(),
            forall|j: int| 0 <= j < i ==> key_lt(self.cmp, self.entries()[j].0, k),
            i < self.entries().len() ==> key_lt(self.cmp, k, self.entries()[i].0),
        ensures
            forall|j: int| 0 <= j < self.entries().len() ==> self.entries()[j].0 != k,
            !self.as_map().contains_key(k),
    {
        let s = self.entries();
        assert forall|j: int| 0 <= j < s.len() implies s[j].0 != k by {
            if j < i {
                lemma_key_lt_asymmetric(self.cmp, s[j].0, k);
            } else {
                if j > i {
                    assert(key_lt(self.cmp, s[i].0, s[j].0));
                    lemma_key_lt_transitive(self.cmp, k, s[i].0, s[j].0);
                } else {
                    assert(key_lt(self.cmp, k, s[j].0));
                }
                lemma_key_lt_asymmetric(self.cmp, k, s[j].0);
            }
        }
        crate::model::lemma_kv_map_contains(s, k);
    }

    /// Looks a key up; returns a copy of the stored value.
    pub fn get(&self, key: &[u8]) -> (r: Option<Vec<u8>>)
        requires
            self.wf(),
        ensures
            match r {
                Some(v) => self.as_map().contains_key(key@) && v@ == self.as_map()[key@],
                None => !self.as_map().contains_key(key@),
            },
    {
        let (i, found) = self.locate(key);
        if found {
            proof {
                lemma_sorted_distinct(self.cmp, self.entries());
                crate::model::lemma_kv_map_index(self.entries(), i as int);
                assert(self.entries()[i as int].1 == self.items@[i as int].value@);
            }
            Some(vstd::slice::slice_to_vec(self.items[i].value.as_slice()))
        } else {
            proof {
                crate::model::lemma_kv_map_contains(self.entries(), key@);
            }
            None
        }
    }

    /// Inserts a record, overwriting the value if the key is present.
    pub fn put(&mut self, key: &[u8], value: &[u8])
        requires
            old(self).wf(),
        ensures
            final(self).wf(),
            final(self).cmp == old(self).cmp,
            final(self).as_map() == old(self).as_map().insert(key@, value@),
    {
        let (i, found) = self.locate(key);
        let rec = Record {
            key: vstd::slice::slice_to_vec(key),
            value: vstd::slice::slice_to_vec(value),
        };
        if found {
            proof {
                lemma_sorted_distinct(self.cmp, self.entries());
            }
            let ghost olds = self.entries();
            self.items[i] = rec;
            proof {
                assert(self.entries() =~= olds.update(i as int, (key@, value@)));
                assert((key@, value@) == (olds[i as int].0, value@));
                crate::model::lemma_kv_map_update(olds, i as int, value@);
            }
        } else {
            let ghost olds = self.entries();
            let ghost c = self.cmp;
            proof {
                self.lemma_absent_from_position(key@, i as int);
            }
            self.items.insert(i, rec);
            proof {
                assert(self.entries() =~= olds.insert(i as int, (key@, value@)));
                crate::model::lemma_kv_map_insert(olds, i as int, key@, value@);
                let t = olds.insert(i as int, (key@, value@));
                assert forall|x: int, y: int| 0 <= x < y < t.len() implies key_lt(
                    c,
                    t[x].0,
                    t[y].0,
                ) by {
                    if x < i && y == i {
                        assert(key_lt(c, olds[x].0, key@));
                    } else if x < i && y > i {
                        assert(key_lt(c, olds[x].0, olds[y - 1].0));
                    } else if x == i && y > i {
                        assert(key_lt(c, key@, olds[i as int].0));
                        if y - 1 > i {
                            assert(key_lt(c, olds[i as int].0, olds[y - 1].0));
                            lemma_key_lt_transitive(c, key@, olds[i as int].0, olds[y - 1].0);
                        }
                    } else if x > i {
                        assert(key_lt(c, olds[x - 1].0, olds[y - 1].0));
                    } else {
                        assert(key_lt(c, olds[x].0, olds[y].0));
                    }
                }
            }
        }
    }

    /// Overwrites the value of the record at position `i`, leaving its key
    /// in place.
    pub fn set_value_at(&mut self, i: usize, value: &[u8])
        requires
            old(self).wf(),
            i < old(self).entries().len(),
        ensures
            final(self).wf(),
            final(self).cmp == old(self).cmp,
            final(self).entries() == old(self).entries().update(
                i as int,
                (old(self).entries()[i as int].0, value@),
            ),
            final(self).as_map() == old(self).as_map().insert(
                old(self).entries()[i as int].0,
                value@,
            ),
    {
        let ghost olds = self.entries();
        proof {
            lemma_sorted_distinct(self.cmp, olds);
        }
        let k = vstd::slice::slice_to_vec(self.items[i].key.as_slice());
        let rec = Record { key: k, value: vstd::slice::slice_to_vec(value) };
        self.items[i] = rec;
        proof {
            assert(self.entries() =~= olds.update(i as int, (olds[i as int].0, value@)));
            crate::model::lemma_kv_map_update(olds, i as int, value@);
        }
    }

    /// Removes the record at position `i`.
    pub fn remove_at(&mut self, i: usize)
        requires
            old(self).wf(),
            i < old(self).entries().len(),
        ensures
            final(self).wf(),
            final(self).cmp == old(self).cmp,
            final(self).entries() == old(self).entries().remove(i as int),
            final(self).as_map() == old(self).as_map().remove(old(self).entries()[i as int].0),
    {
        let ghost olds = self.entries();
        let ghost c = self.cmp;
        proof {
            lemma_sorted_distinct(c, olds);
        }
        self.items.remove(i);
        proof {
            assert(self.entries() =~= olds.remove(i as int));
            crate::model::lemma_kv_map_remove(olds, i as int);
            let t = olds.remove(i as int);
            assert forall|x: int, y: int| 0 <= x < y < t.len() implies key_lt(
                c,
                t[x].0,
                t[y].0,
            ) by {
                let ox = if x < i { x } else { x + 1 };
                let oy = if y < i { y } else { y + 1 };
                assert(t[x] == olds[ox]);
                assert(t[y] == olds[oy]);
                assert(key_lt(c, olds[ox].0, olds[oy].0));
            }
        }
    }

    /// Removes the record carrying `key`, if any; reports whether one was
    /// removed.
    pub fn remove(&mut self, key: &[u8]) -> (r: bool)
        requires
            old(self).wf(),
        ensures
            final(self).wf(),
            final(self).cmp == old(self).cmp,
            r == old(self).as_map().contains_key(key@),
            final(self).as_map() == old(self).as_map().remove(key@),
            !r ==> final(self).entries() == old(self).entries(),
    {
        let (i, found) = self.locate(key);
        if found {
            proof {
                lemma_sorted_distinct(self.cmp, self.entries());
                crate::model::lemma_kv_map_contains(self.entries(), key@);
            }
            self.remove_at(i);
            true
        } else {
            proof {
                crate::model::lemma_kv_map_contains(old(self).entries(), key@);
                assert(old(self).as_map() =~= old(self).as_map().remove(key@));
            }
            false
        }
    }

    /// Removes every record.
    pub fn clear(&mut self)
        ensures
            final(self).wf(),
            final(self).cmp == old(self).cmp,
            final(self).entries() == Seq::<(Seq<u8>, Seq<u8>)>::empty(),
            final(self).as_map() == Map::<Seq<u8>, Seq<u8>>::empty(),
    {
        self.items.clear();
        proof {
            assert(self.entries() =~= Seq::<(Seq<u8>, Seq<u8>)>::empty());
        }
    }

    /// Copies the record at position `i`, in sorted order.
    pub fn pair_at(&self, i: usize) -> (r: (Vec<u8>, Vec<u8>))
        requires
            i < self.entries().len(),
        ensures
            r.0@ == self.entries()[i as int].0,
            r.1@ == self.entries()[i as int].1,
    {
        let k = vstd::slice::slice_to_vec(self.items[i].key.as_slice());
        let v = vstd::slice::slice_to_vec(self.items[i].value.as_slice());
        (k, v)
    }
}

/// A record store in insertion order with unique keys; it promises nothing
/// of traversal order.
pub struct HashStore {
    /// The records, in insertion order, with pairwise distinct keys.
    pub items: Vec<Record>,
}

impl HashStore {
    /// The association sequence of the store, in insertion order.
    pub open spec fn entries(self) -> Seq<(Seq<u8>, Seq<u8>)> {
        entries_of(self.items@)
    }

    /// The logical content of the store.
    pub open spec fn as_map(self) -> Map<Seq<u8>, Seq<u8>> {
        kv_map(self.entries())
    }

    /// Well-formedness: no two records share a key.
    pub open spec fn wf(self) -> bool {
        distinct_keys(self.entries())
    }

    /// An empty store.
    pub fn new() -> (r: HashStore)
        ensures
            r.wf(),
            r.entries() == Seq::<(Seq<u8>, Seq<u8>)>::empty(),
            r.as_map() == Map::<Seq<u8>, Seq<u8>>::empty(),
    {
        let r = HashStore { items: Vec::new() };
        proof {
            assert(r.entries() =~= Seq::<(Seq<u8>, Seq<u8>)>::empty());
        }
        r
    }

    /// The number of records.
    pub fn len(&self) -> (r: usize)
        ensures
            r == self.entries().len(),
    {
        self.items.len()
    }

    /// Finds the position of the record carrying `key`, if any.
    pub fn find(&self, key: &[u8]) -> (r: Option<usize>)
        ensures
            match r {
                Some(i) => i < self.entries().len() && self.entries()[i as int].0 == key@,
                None => forall|j: int|
                    0 <= j < self.entries().len() ==> self.entries()[j].0 != key@,
            },
    {
        let n: usize = self.items.len();
        let mut i: usize = 0;
        while i < n
            invariant
                i <= n,
                n == self.entries().len(),
                forall|j: int| 0 <= j < i ==> self.entries()[j].0 != key@,
            decreases n - i,
        {
            let ord = crate::order::compare_bytes(self.items[i].key.as_slice(), key);
            if ord == KeyOrder::Equal {
                return Some(i);
            }
            i = i + 1;
        }
        None
    }

    /// Looks a key up; returns a copy of the stored value.
    pub fn get(&self, key: &[u8]) -> (r: Option<Vec<u8>>)
        requires
            self.wf(),
        ensures
            match r {
                Some(v) => self.as_map().contains_key(key@) && v@ == self.as_map()[key@],
                None => !self.as_map().contains_key(key@),
            },
    {
        match self.find(key) {
            Some(i) => {
                proof {
                    crate::model::lemma_kv_map_index(self.entries(), i as int);
                }
                Some(vstd::slice::slice_to_vec(self.items[i].value.as_slice()))
            },
            None => {
                proof {
                    crate::model::lemma_kv_map_contains(self.entries(), key@);
                }
                None
            },
        }
    }

    /// Inserts a record, overwriting the value if the key is present.
    pub fn put(&mut self, key: &[u8], value: &[u8])
        requires
            old(self).wf(),
        ensures
            final(self).wf(),
            final(self).as_map() == old(self).as_map().insert(key@, value@),
    {
        let rec = Record {
            key: vstd::slice::slice_to_vec(key),
            value: vstd::slice::slice_to_vec(value),
        };
        let ghost olds = self.entries();
        match self.find(key) {
            Some(i) => {
                self.items[i] = rec;
                proof {
                    assert(self.entries() =~= olds.update(i as int, (key@, value@)));
                    assert((key@, value@) == (olds[i as int].0, value@));
                    crate::model::lemma_kv_map_update(olds, i as int, value@);
                    assert forall|x: int, y: int|
                        0 <= x < y < self.entries().len() implies self.entries()[x].0
                        != self.entries()[y].0 by {
                        assert(olds[x].0 != olds[y].0);
                    }
                }
            },
            None => {
                self.items.push(rec);
                proof {
                    assert(self.entries() =~= olds.insert(olds.len() as int, (key@, value@)));
                    crate::model::lemma_kv_map_insert(olds, olds.len() as int, key@, value@);
                }
            },
        }
    }

    /// Removes the record carrying `key`, if any; reports whether one was
    /// removed.
    pub fn remove(&mut self, key: &[u8]) -> (r: bool)
        requires
            old(self).wf(),
        ensures
            final(self).wf(),
            r == old(self).as_map().contains_key(key@),
            final(self).as_map() == old(self).as_map().remove(key@),
    {
        let ghost olds = self.entries();
        match self.find(key) {
            Some(i) => {
                proof {
                    crate::model::lemma_kv_map_contains(olds, key@);
                }
                self.items.remove(i);
                proof {
                    assert(self.entries() =~= olds.remove(i as int));
                    crate::model::lemma_kv_map_remove(olds, i as int);
                    let t = olds.remove(i as int);
                    assert forall|x: int, y: int| 0 <= x < y < t.len() implies t[x].0
                        != t[y].0 by {
                        let ox = if x < i { x } else { x + 1 };
                        let oy = if y < i { y } else { y + 1 };
                        assert(t[x] == olds[ox]);
                        assert(t[y] == olds[oy]);
                        assert(olds[ox].0 != olds[oy].0);
                    }
                }
                true
            },
            None => {
                proof {
                    crate::model::lemma_kv_map_contains(olds, key@);
                    assert(old(self).as_map() =~= old(self).as_map().remove(key@));
                }
                false
            },
        }
    }

    /// Removes every record.
    pub fn clear(&mut self)
        ensures
            final(self).wf(),
            final(self).entries() == Seq::<(Seq<u8>, Seq<u8>)>::empty(),
            final(self).as_map() == Map::<Seq<u8>, Seq<u8>>::empty(),
    {
        self.items.clear();
        proof {
            assert(self.entries() =~= Seq::<(Seq<u8>, Seq<u8>)>::empty());
        }
    }
}

} // verus!

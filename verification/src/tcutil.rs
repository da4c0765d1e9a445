//! Utility value types of the library's surface: an extensible byte string
//! and an array list of byte strings.
//!
//! Both carry their length with their content, so variable-length binary
//! data moves as one value rather than as a pointer and a separate size.
use crate::order::{compare_bytes, lex_lt, lemma_lex_lt_asymmetric, lemma_lex_lt_transitive,
    KeyOrder};
use vstd::bytes::{
    lemma_auto_spec_u64_to_from_le_bytes, spec_u64_from_le_bytes, spec_u64_to_le_bytes,
    u64_from_le_bytes, u64_to_le_bytes,
};
use vstd::multiset::Multiset;
use vstd::prelude::*;

verus! {

broadcast use vstd::seq_lib::group_to_multiset_ensures;

/// One element's frame in a dumped list: its length, then its bytes.
pub open spec fn spec_encode_elem(e: Seq<u8>) -> Seq<u8> {
    spec_u64_to_le_bytes(e.len() as u64) + e
}

/// The frames of the elements, in list order.
pub open spec fn spec_encode_elems(es: Seq<Seq<u8>>) -> Seq<u8>
    decreases es.len(),
{
    if es.len() == 0 {
        Seq::empty()
    } else {
        spec_encode_elem(es.first()) + spec_encode_elems(es.skip(1))
    }
}

/// The whole dump: the element count, then the frames.
pub open spec fn spec_list_image(es: Seq<Seq<u8>>) -> Seq<u8> {
    spec_u64_to_le_bytes(es.len() as u64) + spec_encode_elems(es)
}

/// Parses `n` element frames, requiring the bytes to be consumed exactly.
pub open spec fn spec_parse_elems(b: Seq<u8>, n: nat) -> Option<Seq<Seq<u8>>>
    decreases n,
{
    if n == 0 {
        if b.len() == 0 {
            Some(Seq::empty())
        } else {
            None
        }
    } else if b.len() < 8 {
        None
    } else {
        let elen = spec_u64_from_le_bytes(b.subrange(0, 8)) as int;
        if b.len() - 8 < elen {
            None
        } else {
            match spec_parse_elems(b.skip(8 + elen), (n - 1) as nat) {
                Some(rest) => Some(seq![b.subrange(8, 8 + elen)] + rest),
                None => None,
            }
        }
    }
}

/// Parses a whole dump.
pub open spec fn spec_parse_list(b: Seq<u8>) -> Option<Seq<Seq<u8>>> {
    if b.len() < 8 {
        None
    } else {
        spec_parse_elems(b.skip(8), spec_u64_from_le_bytes(b.subrange(0, 8)) as nat)
    }
}

/// Appending one element to a list appends its frame to the encoding.
proof fn lemma_encode_elems_push(es: Seq<Seq<u8>>, e: Seq<u8>)
    ensures
        spec_encode_elems(es.push(e)) == spec_encode_elems(es) + spec_encode_elem(e),
    decreases es.len(),
{
    let t = es.push(e);
    if es.len() == 0 {
        assert(t.first() == e);
        assert(t.skip(1) =~= Seq::<Seq<u8>>::empty());
        assert(spec_encode_elems(t.skip(1)) == Seq::<u8>::empty());
        assert(spec_encode_elem(e) + Seq::<u8>::empty() =~= spec_encode_elem(e));
        assert(spec_encode_elems(es) + spec_encode_elem(e) =~= spec_encode_elem(e));
    } else {
        assert(t.first() == es.first());
        assert(t.skip(1) =~= es.skip(1).push(e));
        lemma_encode_elems_push(es.skip(1), e);
        assert(spec_encode_elem(es.first()) + (spec_encode_elems(es.skip(1)) + spec_encode_elem(e))
            =~= spec_encode_elems(es) + spec_encode_elem(e));
    }
}

/// Parsing the encoding of `n` elements yields those elements back.
proof fn lemma_parse_elems_of_encode(es: Seq<Seq<u8>>)
    requires
        forall|i: int| 0 <= i < es.len() ==> (#[trigger] es[i]).len() <= u64::MAX,
    ensures
        spec_parse_elems(spec_encode_elems(es), es.len()) == Some(es),
    decreases es.len(),
{
    lemma_auto_spec_u64_to_from_le_bytes();
    if es.len() == 0 {
        assert(es =~= Seq::<Seq<u8>>::empty());
    } else {
        let e0 = es.first();
        let a = spec_u64_to_le_bytes(e0.len() as u64);
        let r = spec_encode_elems(es.skip(1));
        let b = spec_encode_elems(es);
        assert(b == (a + e0) + r);
        assert(a.len() == 8);
        assert(b.subrange(0, 8) =~= a);
        let elen = spec_u64_from_le_bytes(b.subrange(0, 8)) as int;
        assert(elen == e0.len());
        assert(b.subrange(8, 8 + elen) =~= e0);
        assert(b.skip(8 + elen) =~= r);
        assert forall|i: int| 0 <= i < es.skip(1).len() implies (#[trigger] es.skip(1)[i]).len()
            <= u64::MAX by {
            assert(es.skip(1)[i] == es[i + 1]);
        }
        lemma_parse_elems_of_encode(es.skip(1));
        assert(spec_parse_elems(b, es.len()) == Some(seq![e0] + es.skip(1)));
        assert(seq![e0] + es.skip(1) =~= es);
    }
}

/// The dump round trip: loading the dump of any list yields exactly its
/// elements, in order.
pub proof fn lemma_list_image_round_trip(es: Seq<Seq<u8>>)
    requires
        es.len() <= u64::MAX,
        forall|i: int| 0 <= i < es.len() ==> (#[trigger] es[i]).len() <= u64::MAX,
    ensures
        spec_parse_list(spec_list_image(es)) == Some(es),
{
    lemma_auto_spec_u64_to_from_le_bytes();
    let b = spec_list_image(es);
    let cnt = spec_u64_to_le_bytes(es.len() as u64);
    assert(cnt.len() == 8);
    assert(b.subrange(0, 8) =~= cnt);
    assert(b.skip(8) =~= spec_encode_elems(es));
    lemma_parse_elems_of_encode(es);
}

/// An extensible byte string.
pub struct TCXSTR {
    /// The content.
    pub bytes: Vec<u8>,
}

impl TCXSTR {
    /// An empty extensible string.
    pub fn new() -> (r: TCXSTR)
        ensures
            r.bytes@ == Seq::<u8>::empty(),
    {
        let r = TCXSTR { bytes: Vec::new() };
        proof {
            assert(r.bytes@ =~= Seq::<u8>::empty());
        }
        r
    }

    /// Appends `chunk` to the content.
    pub fn concat(&mut self, chunk: &[u8])
        ensures
            final(self).bytes@ == old(self).bytes@ + chunk@,
    {
        let mut add = vstd::slice::slice_to_vec(chunk);
        self.bytes.append(&mut add);
    }

    /// The number of content bytes.
    pub fn size(&self) -> (r: usize)
        ensures
            r == self.bytes@.len(),
    {
        self.bytes.len()
    }

    /// Empties the content.
    pub fn clear(&mut self)
        ensures
            final(self).bytes@ == Seq::<u8>::empty(),
    {
        self.bytes.clear();
        proof {
            assert(self.bytes@ =~= Seq::<u8>::empty());
        }
    }

    /// The content as a byte slice.
    pub fn as_bytes(&self) -> (r: &[u8])
        ensures
            r@ == self.bytes@,
    {
        self.bytes.as_slice()
    }
}

/// One element of an array list: a byte string.
pub struct TCLISTDATUM {
    /// The element's content.
    pub bytes: Vec<u8>,
}

/// The byte strings a datum vector stands for.
pub open spec fn list_elems(items: Seq<TCLISTDATUM>) -> Seq<Seq<u8>> {
    items.map_values(|d: TCLISTDATUM| d.bytes@)
}

/// The elements never descend in byte-lexicographic order; equal
/// neighbours are allowed, since a list may hold duplicates.
pub open spec fn list_sorted(s: Seq<Seq<u8>>) -> bool {
    forall|i: int, j: int| 0 <= i < j < s.len() ==> !lex_lt(s[j], s[i])
}

/// An array list of byte strings.
pub struct TCLIST {
    /// The elements, in list order.
    pub items: Vec<TCLISTDATUM>,
}

impl TCLIST {
    /// The list's content as a sequence of byte strings.
    pub open spec fn elems(self) -> Seq<Seq<u8>> {
        list_elems(self.items@)
    }

    /// An empty list.
    pub fn new() -> (r: TCLIST)
        ensures
            r.elems() == Seq::<Seq<u8>>::empty(),
    {
        let r = TCLIST { items: Vec::new() };
        proof {
            assert(r.elems() =~= Seq::<Seq<u8>>::empty());
        }
        r
    }

    /// The number of elements.
    pub fn num(&self) -> (r: usize)
        ensures
            r == self.elems().len(),
    {
        self.items.len()
    }

    /// Copies the element at `index`, if the index is in range.
    pub fn val(&self, index: usize) -> (r: Option<Vec<u8>>)
        ensures
            match r {
                Some(v) => index < self.elems().len() && v@ == self.elems()[index as int],
                None => index >= self.elems().len(),
            },
    {
        if index < self.items.len() {
            Some(vstd::slice::slice_to_vec(self.items[index].bytes.as_slice()))
        } else {
            None
        }
    }

    /// Appends an element at the end.
    pub fn push(&mut self, bytes: &[u8])
        ensures
            final(self).elems() == old(self).elems().push(bytes@),
    {
        self.items.push(TCLISTDATUM { bytes: vstd::slice::slice_to_vec(bytes) });
        proof {
            assert(self.elems() =~= old(self).elems().push(bytes@));
        }
    }

    /// Removes and returns the last element, if any.
    pub fn pop(&mut self) -> (r: Option<Vec<u8>>)
        ensures
            match r {
                Some(v) => old(self).elems().len() > 0 && v@ == old(self).elems().last() && final(self).elems() == old(self).elems().drop_last(),
                None => old(self).elems().len() == 0 && final(self).elems() == old(self).elems(),
            },
    {
        match self.items.pop() {
            Some(d) => {
                proof {
                    assert(self.elems() =~= old(self).elems().drop_last());
                }
                Some(d.bytes)
            },
            None => None,
        }
    }

    /// Prepends an element at the front.
    pub fn unshift(&mut self, bytes: &[u8])
        ensures
            final(self).elems() == old(self).elems().insert(0, bytes@),
    {
        self.items.insert(0, TCLISTDATUM { bytes: vstd::slice::slice_to_vec(bytes) });
        proof {
            assert(self.elems() =~= old(self).elems().insert(0, bytes@));
        }
    }

    /// Inserts an element at `index`; fails when the index is past the end.
    pub fn insert(&mut self, index: usize, bytes: &[u8]) -> (r: bool)
        ensures
            r == (index <= old(self).elems().len()),
            r ==> final(self).elems() == old(self).elems().insert(index as int, bytes@),
            !r ==> final(self).elems() == old(self).elems(),
    {
        if index > self.items.len() {
            return false;
        }
        self.items.insert(index, TCLISTDATUM { bytes: vstd::slice::slice_to_vec(bytes) });
        proof {
            assert(self.elems() =~= old(self).elems().insert(index as int, bytes@));
        }
        true
    }

    /// Removes and returns the element at `index`, if the index is in
    /// range.
    pub fn remove(&mut self, index: usize) -> (r: Option<Vec<u8>>)
        ensures
            match r {
                Some(v) => {
                    &&& index < old(self).elems().len()
                    &&& v@ == old(self).elems()[index as int]
                    &&& final(self).elems() == old(self).elems().remove(index as int)
                },
                None => index >= old(self).elems().len() && final(self).elems() == old(self).elems(),
            },
    {
        if index >= self.items.len() {
            return None;
        }
        let d = self.items.remove(index);
        proof {
            assert(self.elems() =~= old(self).elems().remove(index as int));
        }
        Some(d.bytes)
    }

    /// Overwrites the element at `index`; fails when the index is out of
    /// range.
    pub fn over(&mut self, index: usize, bytes: &[u8]) -> (r: bool)
        ensures
            r == (index < old(self).elems().len()),
            r ==> final(self).elems() == old(self).elems().update(index as int, bytes@),
            !r ==> final(self).elems() == old(self).elems(),
    {
        if index >= self.items.len() {
            return false;
        }
        self.items[index] = TCLISTDATUM { bytes: vstd::slice::slice_to_vec(bytes) };
        proof {
            assert(self.elems() =~= old(self).elems().update(index as int, bytes@));
        }
        true
    }

    /// Empties the list.
    pub fn clear(&mut self)
        ensures
            final(self).elems() == Seq::<Seq<u8>>::empty(),
    {
        self.items.clear();
        proof {
            assert(self.elems() =~= Seq::<Seq<u8>>::empty());
        }
    }

    /// Finds the first element equal to `bytes` by linear search.
    pub fn lsearch(&self, bytes: &[u8]) -> (r: Option<usize>)
        ensures
            match r {
                Some(i) => {
                    &&& i < self.elems().len()
                    &&& self.elems()[i as int] == bytes@
                    &&& forall|j: int| 0 <= j < i ==> self.elems()[j] != bytes@
                },
                None => forall|j: int| 0 <= j < self.elems().len() ==> self.elems()[j] != bytes@,
            },
    {
        let n: usize = self.items.len();
        let mut i: usize = 0;
        while i < n
            invariant
                i <= n,
                n == self.elems().len(),
                forall|j: int| 0 <= j < i ==> self.elems()[j] != bytes@,
            decreases n - i,
        {
            let ord = compare_bytes(self.items[i].bytes.as_slice(), bytes);
            if matches!(ord, KeyOrder::Equal) {
                return Some(i);
            }
            i = i + 1;
        }
        None
    }

    /// Sorts the elements into byte-lexicographic order, keeping exactly
    /// the same elements with their multiplicities.
    pub fn sort(&mut self)
        ensures
            list_sorted(final(self).elems()),
            final(self).elems().to_multiset() == old(self).elems().to_multiset(),
    {
        let ghost orig = self.elems();
        let mut out: Vec<TCLISTDATUM> = Vec::new();
        proof {
            assert(list_elems(out@) =~= Seq::<Seq<u8>>::empty());
            assert(list_elems(out@).to_multiset().add(self.elems().to_multiset())
                =~= orig.to_multiset());
        }
        while self.items.len() > 0
            invariant
                list_sorted(list_elems(out@)),
                list_elems(out@).to_multiset().add(self.elems().to_multiset())
                    == orig.to_multiset(),
                forall|x: int, y: int|
                    0 <= x < list_elems(out@).len() && 0 <= y < self.elems().len() ==> !lex_lt(
                        self.elems()[y],
                        list_elems(out@)[x],
                    ),
            decreases self.items@.len(),
        {
            let n: usize = self.items.len();
            let mut mi: usize = 0;
            let mut j: usize = 1;
            proof {
                lemma_lex_lt_asymmetric(self.elems()[0], self.elems()[0]);
            }
            while j < n
                invariant
                    1 <= j <= n,
                    mi < j,
                    n == self.elems().len(),
                    forall|t: int| 0 <= t < j ==> !lex_lt(self.elems()[t], self.elems()[mi as int]),
                decreases n - j,
            {
                let ord = compare_bytes(
                    self.items[j].bytes.as_slice(),
                    self.items[mi].bytes.as_slice(),
                );
                if matches!(ord, KeyOrder::Less) {
                    proof {
                        let es = self.elems();
                        assert forall|t: int| 0 <= t < j + 1 implies !lex_lt(
                            es[t],
                            es[j as int],
                        ) by {
                            lemma_lex_lt_asymmetric(es[j as int], es[t]);
                            if lex_lt(es[t], es[j as int]) {
                                lemma_lex_lt_transitive(es[t], es[j as int], es[mi as int]);
                            }
                        }
                    }
                    mi = j;
                }
                j = j + 1;
            }
            let ghost rest = self.elems();
            let ghost sorted_prefix = list_elems(out@);
            let ghost m = rest[mi as int];
            let d = self.items.remove(mi);
            out.push(d);
            proof {
                assert(d.bytes@ == m);
                assert(self.elems() =~= rest.remove(mi as int));
                assert(list_elems(out@) =~= sorted_prefix.push(m));
                assert(rest[mi as int] == m && 0 <= mi < rest.len());
                assert(rest.contains(m));
                assert(rest.to_multiset().count(m) > 0);
                assert(self.elems().to_multiset() =~= rest.to_multiset().remove(m));
                assert(list_elems(out@).to_multiset() =~= sorted_prefix.to_multiset().insert(m));
                assert(list_elems(out@).to_multiset().add(self.elems().to_multiset())
                    =~= sorted_prefix.to_multiset().add(rest.to_multiset()));
                assert forall|x: int, y: int|
                    0 <= x < list_elems(out@).len() && 0 <= y < self.elems().len() implies !lex_lt(
                        self.elems()[y],
                        list_elems(out@)[x],
                    ) by {
                    let oy = if y < mi { y } else { y + 1 };
                    assert(self.elems()[y] == rest[oy]);
                    if x < sorted_prefix.len() {
                        assert(list_elems(out@)[x] == sorted_prefix[x]);
                        assert(!lex_lt(rest[oy], sorted_prefix[x]));
                    } else {
                        assert(list_elems(out@)[x] == m);
                        assert(!lex_lt(rest[oy], rest[mi as int]));
                    }
                }
            }
        }
        proof {
            assert(self.elems() =~= Seq::<Seq<u8>>::empty());
            assert(self.elems().to_multiset() =~= Multiset::<Seq<u8>>::empty());
            assert(list_elems(out@).to_multiset().add(Multiset::<Seq<u8>>::empty())
                =~= list_elems(out@).to_multiset());
        }
        self.items = out;
    }

    /// Renders the list as a byte dump; loading the dump restores exactly
    /// these elements in this order.
    pub fn dump(&self) -> (r: Vec<u8>)
        ensures
            r@ == spec_list_image(self.elems()),
            spec_parse_list(r@) == Some(self.elems()),
    {
        let ghost es = self.elems();
        proof {
            assert(es.len() == vstd::std_specs::vec::spec_vec_len(&self.items));
            assert forall|i: int| 0 <= i < es.len() implies (#[trigger] es[i]).len()
                <= u64::MAX by {
                let d = self.items@[i];
                assert(es[i] == d.bytes@);
                assert(d.bytes@.len() == vstd::std_specs::vec::spec_vec_len(&d.bytes));
            }
            lemma_list_image_round_trip(es);
        }
        let n: usize = self.items.len();
        let mut out = u64_to_le_bytes(n as u64);
        proof {
            assert(out@ + spec_encode_elems(es.take(0)) =~= out@);
            assert(es.take(0) =~= Seq::<Seq<u8>>::empty());
        }
        let ghost head = out@;
        let mut i: usize = 0;
        while i < n
            invariant
                i <= n,
                n == self.items@.len(),
                es == self.elems(),
                head == spec_u64_to_le_bytes(es.len() as u64),
                out@ == head + spec_encode_elems(es.take(i as int)),
            decreases n - i,
        {
            let ghost before = out@;
            let elen: usize = self.items[i].bytes.len();
            let mut lb = u64_to_le_bytes(elen as u64);
            out.append(&mut lb);
            let mut eb = vstd::slice::slice_to_vec(self.items[i].bytes.as_slice());
            out.append(&mut eb);
            proof {
                assert(es[i as int] == self.items@[i as int].bytes@);
                assert(out@ =~= before + spec_encode_elem(es[i as int]));
                assert(es.take(i + 1) =~= es.take(i as int).push(es[i as int]));
                lemma_encode_elems_push(es.take(i as int), es[i as int]);
                assert(out@ =~= head + spec_encode_elems(es.take(i + 1)));
            }
            i = i + 1;
        }
        proof {
            assert(es.take(n as int) =~= es);
        }
        out
    }

    /// Reads a dump back into a list.  Succeeds exactly on the byte
    /// strings the dump parser accepts.
    pub fn load(bytes: &[u8]) -> (r: Option<TCLIST>)
        ensures
            match r {
                Some(l) => spec_parse_list(bytes@) == Some(l.elems()),
                None => spec_parse_list(bytes@) is None,
            },
    {
        proof {
            lemma_auto_spec_u64_to_from_le_bytes();
        }
        let len: usize = bytes.len();
        if len < 8 {
            return None;
        }
        let n: u64 = u64_from_le_bytes(vstd::slice::slice_subrange(bytes, 0, 8));
        let ghost total = spec_parse_elems(bytes@.skip(8), n as nat);
        let mut items: Vec<TCLISTDATUM> = Vec::new();
        let mut pos: usize = 8;
        let mut i: u64 = 0;
        proof {
            assert(list_elems(items@) =~= Seq::<Seq<u8>>::empty());
        }
        while i < n
            invariant
                i <= n,
                8 <= pos <= bytes@.len(),
                len == bytes@.len(),
                total == spec_parse_elems(bytes@.skip(8), n as nat),
                n == spec_u64_from_le_bytes(bytes@.subrange(0, 8)),
                total == match spec_parse_elems(bytes@.skip(pos as int), (n - i) as nat) {
                    Some(rest) => Some(list_elems(items@) + rest),
                    None => None::<Seq<Seq<u8>>>,
                },
            decreases n - i,
        {
            let ghost tail = bytes@.skip(pos as int);
            let ghost m0 = (n - i) as nat;
            let remaining: usize = len - pos;
            if remaining < 8 {
                proof {
                    assert(spec_parse_elems(tail, m0) is None);
                }
                return None;
            }
            let elen: u64 = u64_from_le_bytes(vstd::slice::slice_subrange(bytes, pos, pos + 8));
            proof {
                assert(tail.subrange(0, 8) =~= bytes@.subrange(pos as int, pos + 8));
            }
            if elen > (remaining - 8) as u64 {
                proof {
                    assert(tail.len() - 8 < elen);
                    assert(spec_parse_elems(tail, m0) is None);
                }
                return None;
            }
            let el: usize = elen as usize;
            let e = vstd::slice::slice_to_vec(
                vstd::slice::slice_subrange(bytes, pos + 8, pos + 8 + el),
            );
            proof {
                assert(tail.subrange(8, 8 + elen as int) =~= bytes@.subrange(pos + 8, pos + 8 + el));
                assert(tail.skip(8 + elen as int) =~= bytes@.skip(pos + 8 + el));
            }
            let ghost before = list_elems(items@);
            items.push(TCLISTDATUM { bytes: e });
            pos = pos + 8 + el;
            i = i + 1;
            proof {
                assert(list_elems(items@) =~= before.push(e@));
                let rest0 = spec_parse_elems(bytes@.skip(pos as int), (n - i) as nat);
                match rest0 {
                    Some(rest) => {
                        assert(spec_parse_elems(tail, m0) == Some(seq![e@] + rest));
                        assert(before + (seq![e@] + rest) =~= list_elems(items@) + rest);
                    },
                    None => {
                        assert(spec_parse_elems(tail, m0) is None);
                    },
                }
            }
        }
        if pos != len {
            proof {
                assert(bytes@.skip(pos as int).len() > 0);
                assert(spec_parse_elems(bytes@.skip(pos as int), 0) is None);
            }
            return None;
        }
        proof {
            assert(bytes@.skip(pos as int).len() == 0);
            assert(spec_parse_elems(bytes@.skip(pos as int), 0) == Some(Seq::<Seq<u8>>::empty()));
            assert(list_elems(items@) + Seq::<Seq<u8>>::empty() =~= list_elems(items@));
        }
        Some(TCLIST { items })
    }

    /// Finds an element equal to `bytes` by binary search.  A found index
    /// always carries the element; completeness — a miss means absence —
    /// holds when the list is sorted, as binary search presumes.
    pub fn bsearch(&self, bytes: &[u8]) -> (r: Option<usize>)
        ensures
            match r {
                Some(i) => i < self.elems().len() && self.elems()[i as int] == bytes@,
                None => list_sorted(self.elems()) ==> forall|j: int|
                    0 <= j < self.elems().len() ==> self.elems()[j] != bytes@,
            },
    {
        let mut lo: usize = 0;
        let mut hi: usize = self.items.len();
        while lo < hi
            invariant
                lo <= hi <= self.elems().len(),
                list_sorted(self.elems()) ==> forall|j: int|
                    0 <= j < self.elems().len() && self.elems()[j] == bytes@ ==> lo <= j < hi,
            decreases hi - lo,
        {
            let mid: usize = lo + (hi - lo) / 2;
            let ord = compare_bytes(self.items[mid].bytes.as_slice(), bytes);
            match ord {
                KeyOrder::Equal => {
                    return Some(mid);
                },
                KeyOrder::Less => {
                    proof {
                        let es = self.elems();
                        if list_sorted(es) {
                            assert forall|j: int|
                                0 <= j < es.len() && es[j] == bytes@ implies mid < j by {
                                lemma_lex_lt_asymmetric(es[mid as int], es[j]);
                            }
                        }
                    }
                    lo = mid + 1;
                },
                KeyOrder::Greater => {
                    proof {
                        let es = self.elems();
                        if list_sorted(es) {
                            assert forall|j: int|
                                0 <= j < es.len() && es[j] == bytes@ implies j < mid by {
                                lemma_lex_lt_asymmetric(bytes@, es[mid as int]);
                            }
                        }
                    }
                    hi = mid;
                },
            }
        }
        None
    }
}

} // verus!

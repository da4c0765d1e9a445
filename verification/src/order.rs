//! Key ordering for the ordered tree engine.
//!
//! Keys are raw byte sequences; the engine keeps its records sorted under a
//! caller-chosen comparison strategy.  The default is byte-lexicographic
//! order; a reversed variant is offered as the second built-in strategy.
//! The lemmas here establish that every strategy is a strict total order,
//! which the sorted-store invariant rests on.
use vstd::prelude::*;

verus! {

/// The outcome of comparing two keys.
#[derive(Clone, Copy, PartialEq, Eq, Structural, Debug)]
pub enum KeyOrder {
    /// The first key sorts before the second.
    Less,
    /// The two keys are byte-for-byte equal.
    Equal,
    /// The first key sorts after the second.
    Greater,
}

/// A total-order comparison strategy over raw key bytes.
///
/// The comparator of an ordered handle may be chosen only while the handle
/// is fresh; it is fixed once the handle opens.
#[derive(Clone, Copy, PartialEq, Eq, Structural, Debug)]
pub enum Comparator {
    /// Byte-lexicographic order (the default).
    Lexical,
    /// Reversed byte-lexicographic order.
    ReverseLexical,
}

/// Byte-lexicographic strict order: a shorter sequence precedes any longer
/// one it is a prefix of, and otherwise the first differing byte decides.
pub open spec fn lex_lt(a: Seq<u8>, b: Seq<u8>) -> bool
    decreases a.len(),
{
    if b.len() == 0 {
        false
    } else if a.len() == 0 {
        true
    } else if a[0] < b[0] {
        true
    } else if a[0] > b[0] {
        false
    } else {
        lex_lt(a.skip(1), b.skip(1))
    }
}

/// The strict order a strategy induces on keys.
pub open spec fn key_lt(c: Comparator, a: Seq<u8>, b: Seq<u8>) -> bool {
    match c {
        Comparator::Lexical => lex_lt(a, b),
        Comparator::ReverseLexical => lex_lt(b, a),
    }
}

/// Two sequences with an equal prefix of length `i` compare as their tails
/// from `i` on do.
proof fn lemma_lex_lt_skip_prefix(a: Seq<u8>, b: Seq<u8>, i: int)
    requires
        0 <= i <= a.len(),
        i <= b.len(),
        forall|j: int| 0 <= j < i ==> a[j] == b[j],
    ensures
        lex_lt(a, b) == lex_lt(a.skip(i), b.skip(i)),
    decreases i,
{
    if i == 0 {
        assert(a.skip(0) =~= a);
        assert(b.skip(0) =~= b);
    } else {
        assert(a.len() > 0 && b.len() > 0 && a[0] == b[0]);
        assert(lex_lt(a, b) == lex_lt(a.skip(1), b.skip(1)));
        assert(a.skip(1).skip(i - 1) =~= a.skip(i));
        assert(b.skip(1).skip(i - 1) =~= b.skip(i));
        lemma_lex_lt_skip_prefix(a.skip(1), b.skip(1), i - 1);
    }
}

/// `lex_lt` is asymmetric: no two sequences precede each other.
pub proof fn lemma_lex_lt_asymmetric(a: Seq<u8>, b: Seq<u8>)
    ensures
        !(lex_lt(a, b) && lex_lt(b, a)),
    decreases a.len(),
{
    if a.len() > 0 && b.len() > 0 && a[0] == b[0] {
        lemma_lex_lt_asymmetric(a.skip(1), b.skip(1));
    }
}

/// `lex_lt` is connected: distinct sequences compare one way or the other.
pub proof fn lemma_lex_lt_connected(a: Seq<u8>, b: Seq<u8>)
    requires
        a != b,
    ensures
        lex_lt(a, b) || lex_lt(b, a),
    decreases a.len(),
{
    if a.len() == 0 && b.len() == 0 {
        assert(a =~= b);
    } else if a.len() == 0 || b.len() == 0 {
    } else if a[0] == b[0] {
        if a.skip(1) == b.skip(1) {
            assert(a.skip(1).len() == a.len() - 1);
            assert(b.skip(1).len() == b.len() - 1);
            assert(a.len() == b.len());
            assert forall|i: int| 0 <= i < a.len() implies a[i] == b[i] by {
                if i > 0 {
                    assert(a[i] == a.skip(1)[i - 1]);
                    assert(b[i] == b.skip(1)[i - 1]);
                }
            }
            assert(a =~= b);
        } else {
            lemma_lex_lt_connected(a.skip(1), b.skip(1));
        }
    }
}

/// `lex_lt` is transitive.
pub proof fn lemma_lex_lt_transitive(a: Seq<u8>, b: Seq<u8>, c: Seq<u8>)
    requires
        lex_lt(a, b),
        lex_lt(b, c),
    ensures
        lex_lt(a, c),
    decreases a.len() + b.len() + c.len(),
{
    if a.len() > 0 && b.len() > 0 && c.len() > 0 && a[0] == b[0] && b[0] == c[0] {
        lemma_lex_lt_transitive(a.skip(1), b.skip(1), c.skip(1));
    }
}

/// Every comparison strategy is asymmetric.
pub proof fn lemma_key_lt_asymmetric(c: Comparator, a: Seq<u8>, b: Seq<u8>)
    ensures
        !(key_lt(c, a, b) && key_lt(c, b, a)),
{
    lemma_lex_lt_asymmetric(a, b);
}

/// Every comparison strategy is connected over distinct keys.
pub proof fn lemma_key_lt_connected(c: Comparator, a: Seq<u8>, b: Seq<u8>)
    requires
        a != b,
    ensures
        key_lt(c, a, b) || key_lt(c, b, a),
{
    lemma_lex_lt_connected(a, b);
}

/// Every comparison strategy is transitive.
pub proof fn lemma_key_lt_transitive(c: Comparator, a: Seq<u8>, b: Seq<u8>, d: Seq<u8>)
    requires
        key_lt(c, a, b),
        key_lt(c, b, d),
    ensures
        key_lt(c, a, d),
{
    match c {
        Comparator::Lexical => lemma_lex_lt_transitive(a, b, d),
        Comparator::ReverseLexical => lemma_lex_lt_transitive(d, b, a),
    }
}

/// Compares two byte strings in byte-lexicographic order.
pub fn compare_bytes(a: &[u8], b: &[u8]) -> (r: KeyOrder)
    ensures
        (r == KeyOrder::Less) == lex_lt(a@, b@),
        (r == KeyOrder::Greater) == lex_lt(b@, a@),
        (r == KeyOrder::Equal) == (a@ == b@),
{
    let alen: usize = a.len();
    let blen: usize = b.len();
    let n: usize = if alen < blen {
        alen
    } else {
        blen
    };
    let mut i: usize = 0;
    while i < n
        invariant
            0 <= i <= n,
            n <= a@.len(),
            n <= b@.len(),
            n == if alen < blen {
                alen as int
            } else {
                blen as int
            },
            alen == a@.len(),
            blen == b@.len(),
            forall|j: int| 0 <= j < i ==> a@[j] == b@[j],
        decreases n - i,
    {
        let x = *vstd::slice::slice_index_get(a, i);
        let y = *vstd::slice::slice_index_get(b, i);
        if x < y {
            proof {
                lemma_lex_lt_skip_prefix(a@, b@, i as int);
                lemma_lex_lt_skip_prefix(b@, a@, i as int);
            }
            return KeyOrder::Less;
        }
        if x > y {
            proof {
                lemma_lex_lt_skip_prefix(a@, b@, i as int);
                lemma_lex_lt_skip_prefix(b@, a@, i as int);
            }
            return KeyOrder::Greater;
        }
        i = i + 1;
    }
    proof {
        lemma_lex_lt_skip_prefix(a@, b@, n as int);
        lemma_lex_lt_skip_prefix(b@, a@, n as int);
    }
    if alen == blen {
        proof {
            assert(a@ =~= b@);
        }
        KeyOrder::Equal
    } else if alen < blen {
        KeyOrder::Less
    } else {
        KeyOrder::Greater
    }
}

/// Compares two keys under the given strategy.
pub fn compare_keys(c: Comparator, a: &[u8], b: &[u8]) -> (r: KeyOrder)
    ensures
        (r == KeyOrder::Less) == key_lt(c, a@, b@),
        (r == KeyOrder::Greater) == key_lt(c, b@, a@),
        (r == KeyOrder::Equal) == (a@ == b@),
{
    match c {
        Comparator::Lexical => compare_bytes(a, b),
        Comparator::ReverseLexical => compare_bytes(b, a),
    }
}

} // verus!

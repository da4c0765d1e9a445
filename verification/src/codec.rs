//! The byte image of a record store.
//!
//! An open handle can render its records as a self-describing byte image —
//! a magic tag, a record count, and length-prefixed key/value pairs — and
//! rebuild its records from such an image.  The caller persists and
//! retrieves the bytes; the framing, the parsing and their round trip are
//! specified and proved here.  A corrupt header and a corrupt record frame
//! are told apart, as the error registry distinguishes them.
use crate::errors::ErrorCode;
use crate::store::{entries_of, Record};
use vstd::bytes::{
    lemma_auto_spec_u64_to_from_le_bytes, spec_u64_from_le_bytes, spec_u64_to_le_bytes,
    u64_from_le_bytes, u64_to_le_bytes,
};
use vstd::prelude::*;

verus! {

/// The eight tag bytes every image starts with.
pub open spec fn magic() -> Seq<u8> {
    seq![0x54u8, 0x4bu8, 0x59u8, 0x43u8, 0x42u8, 0x49u8, 0x4du8, 0x47u8]
}

/// One record's frame: the two lengths, then the key, then the value.
pub open spec fn spec_encode_record(k: Seq<u8>, v: Seq<u8>) -> Seq<u8> {
    spec_u64_to_le_bytes(k.len() as u64) + spec_u64_to_le_bytes(v.len() as u64) + k + v
}

/// The frames of a record sequence, in order.
pub open spec fn spec_encode_records(es: Seq<(Seq<u8>, Seq<u8>)>) -> Seq<u8>
    decreases es.len(),
{
    if es.len() == 0 {
        Seq::empty()
    } else {
        spec_encode_record(es.first().0, es.first().1) + spec_encode_records(es.skip(1))
    }
}

/// The whole image: tag, record count, frames.
pub open spec fn spec_image(es: Seq<(Seq<u8>, Seq<u8>)>) -> Seq<u8> {
    magic() + spec_u64_to_le_bytes(es.len() as u64) + spec_encode_records(es)
}

/// Whether the image header is intact: long enough and carrying the tag.
pub open spec fn spec_header_ok(b: Seq<u8>) -> bool {
    b.len() >= 16 && b.subrange(0, 8) == magic()
}

/// Parses `n` record frames, requiring the bytes to be consumed exactly.
pub open spec fn spec_parse_records(b: Seq<u8>, n: nat) -> Option<Seq<(Seq<u8>, Seq<u8>)>>
    decreases n,
{
    if n == 0 {
        if b.len() == 0 {
            Some(Seq::empty())
        } else {
            None
        }
    } else if b.len() < 16 {
        None
    } else {
        let klen = spec_u64_from_le_bytes(b.subrange(0, 8)) as int;
        let vlen = spec_u64_from_le_bytes(b.subrange(8, 16)) as int;
        if b.len() - 16 < klen + vlen {
            None
        } else {
            let k = b.subrange(16, 16 + klen);
            let v = b.subrange(16 + klen, 16 + klen + vlen);
            match spec_parse_records(b.skip(16 + klen + vlen), (n - 1) as nat) {
                Some(rest) => Some(seq![(k, v)] + rest),
                None => None,
            }
        }
    }
}

/// Parses a whole image.
pub open spec fn spec_parse_image(b: Seq<u8>) -> Option<Seq<(Seq<u8>, Seq<u8>)>> {
    if !spec_header_ok(b) {
        None
    } else {
        spec_parse_records(b.skip(16), spec_u64_from_le_bytes(b.subrange(8, 16)) as nat)
    }
}

/// Appending one record to a sequence appends its frame to the encoding.
proof fn lemma_encode_records_push(es: Seq<(Seq<u8>, Seq<u8>)>, k: Seq<u8>, v: Seq<u8>)
    ensures
        spec_encode_records(es.push((k, v))) == spec_encode_records(es) + spec_encode_record(k, v),
    decreases es.len(),
{
    let t = es.push((k, v));
    if es.len() == 0 {
        assert(t.len() == 1);
        assert(t.first() == (k, v));
        assert(t.skip(1) =~= Seq::<(Seq<u8>, Seq<u8>)>::empty());
        assert(spec_encode_records(t.skip(1)) == Seq::<u8>::empty());
        assert(spec_encode_records(t) == spec_encode_record(k, v) + Seq::<u8>::empty());
        assert(spec_encode_record(k, v) + Seq::<u8>::empty() =~= spec_encode_record(k, v));
        assert(spec_encode_records(es) + spec_encode_record(k, v) =~= spec_encode_record(k, v));
    } else {
        assert(t.first() == es.first());
        assert(t.skip(1) =~= es.skip(1).push((k, v)));
        lemma_encode_records_push(es.skip(1), k, v);
        assert(spec_encode_records(t) == spec_encode_record(es.first().0, es.first().1) + (
        spec_encode_records(es.skip(1)) + spec_encode_record(k, v)));
        assert(spec_encode_record(es.first().0, es.first().1) + (spec_encode_records(es.skip(1))
            + spec_encode_record(k, v)) =~= spec_encode_records(es) + spec_encode_record(k, v));
    }
}

/// Parsing the encoding of `n` records yields those records back: the
/// frames are self-delimiting, so no other reading is possible.
proof fn lemma_parse_records_of_encode(es: Seq<(Seq<u8>, Seq<u8>)>)
    requires
        forall|i: int|
            0 <= i < es.len() ==> es[i].0.len() <= u64::MAX && es[i].1.len() <= u64::MAX,
    ensures
        spec_parse_records(spec_encode_records(es), es.len()) == Some(es),
    decreases es.len(),
{
    lemma_auto_spec_u64_to_from_le_bytes();
    if es.len() == 0 {
        assert(spec_encode_records(es).len() == 0);
        assert(spec_parse_records(spec_encode_records(es), 0) == Some(
            Seq::<(Seq<u8>, Seq<u8>)>::empty(),
        ));
        assert(es =~= Seq::<(Seq<u8>, Seq<u8>)>::empty());
    } else {
        let k0 = es.first().0;
        let v0 = es.first().1;
        let a1 = spec_u64_to_le_bytes(k0.len() as u64);
        let a2 = spec_u64_to_le_bytes(v0.len() as u64);
        let e0 = spec_encode_record(k0, v0);
        let r = spec_encode_records(es.skip(1));
        let b = spec_encode_records(es);
        assert(b == e0 + r);
        assert(a1.len() == 8 && a2.len() == 8);
        assert(e0.len() == 16 + k0.len() + v0.len());
        assert(b.len() >= 16);
        assert(b.subrange(0, 8) =~= a1);
        assert(b.subrange(8, 16) =~= a2);
        let klen = spec_u64_from_le_bytes(b.subrange(0, 8)) as int;
        let vlen = spec_u64_from_le_bytes(b.subrange(8, 16)) as int;
        assert(klen == k0.len());
        assert(vlen == v0.len());
        assert(b.len() - 16 >= klen + vlen);
        assert(b.subrange(16, 16 + klen) =~= k0);
        assert(b.subrange(16 + klen, 16 + klen + vlen) =~= v0);
        assert(b.skip(16 + klen + vlen) =~= r);
        assert forall|i: int|
            0 <= i < es.skip(1).len() implies es.skip(1)[i].0.len() <= u64::MAX && es.skip(
            1,
        )[i].1.len() <= u64::MAX by {
            assert(es.skip(1)[i] == es[i + 1]);
        }
        lemma_parse_records_of_encode(es.skip(1));
        assert(spec_parse_records(r, (es.len() - 1) as nat) == Some(es.skip(1)));
        assert(spec_parse_records(b, es.len()) == Some(seq![(k0, v0)] + es.skip(1)));
        assert(seq![(k0, v0)] + es.skip(1) =~= es);
    }
}

/// The image round trip: parsing the image of any record sequence yields
/// exactly that sequence.  This is what makes a flushed store recoverable:
/// an image saved by one handle and loaded by another restores the records.
pub proof fn lemma_image_round_trip(es: Seq<(Seq<u8>, Seq<u8>)>)
    requires
        es.len() <= u64::MAX,
        forall|i: int|
            0 <= i < es.len() ==> es[i].0.len() <= u64::MAX && es[i].1.len() <= u64::MAX,
    ensures
        spec_parse_image(spec_image(es)) == Some(es),
{
    lemma_auto_spec_u64_to_from_le_bytes();
    let b = spec_image(es);
    let cnt = spec_u64_to_le_bytes(es.len() as u64);
    let body = spec_encode_records(es);
    assert(b == magic() + cnt + body);
    assert(magic().len() == 8 && cnt.len() == 8);
    assert(b.len() >= 16);
    assert(b.subrange(0, 8) =~= magic());
    assert(b.subrange(8, 16) =~= cnt);
    assert(spec_u64_from_le_bytes(b.subrange(8, 16)) == es.len() as u64);
    assert(b.skip(16) =~= body);
    lemma_parse_records_of_encode(es);
}

/// Renders the records as an image.
pub fn encode_image(items: &Vec<Record>) -> (r: Vec<u8>)
    ensures
        r@ == spec_image(entries_of(items@)),
{
    let ghost es = entries_of(items@);
    let mut out: Vec<u8> = Vec::new();
    out.push(0x54u8);
    out.push(0x4bu8);
    out.push(0x59u8);
    out.push(0x43u8);
    out.push(0x42u8);
    out.push(0x49u8);
    out.push(0x4du8);
    out.push(0x47u8);
    proof {
        assert(out@ =~= magic());
    }
    let n: usize = items.len();
    let mut cnt = u64_to_le_bytes(n as u64);
    out.append(&mut cnt);
    proof {
        assert(es.len() == n as int);
        assert(out@ =~= magic() + spec_u64_to_le_bytes(es.len() as u64));
        assert(out@ + spec_encode_records(es.take(0)) =~= out@);
        assert(es.take(0) =~= Seq::<(Seq<u8>, Seq<u8>)>::empty());
    }
    let ghost head = out@;
    let mut i: usize = 0;
    while i < n
        invariant
            i <= n,
            n == items@.len(),
            es == entries_of(items@),
            head == magic() + spec_u64_to_le_bytes(es.len() as u64),
            out@ == head + spec_encode_records(es.take(i as int)),
        decreases n - i,
    {
        let ghost before = out@;
        let klen: usize = items[i].key.len();
        let vlen: usize = items[i].value.len();
        let mut kl = u64_to_le_bytes(klen as u64);
        out.append(&mut kl);
        let mut vl = u64_to_le_bytes(vlen as u64);
        out.append(&mut vl);
        let mut kb = vstd::slice::slice_to_vec(items[i].key.as_slice());
        out.append(&mut kb);
        let mut vb = vstd::slice::slice_to_vec(items[i].value.as_slice());
        out.append(&mut vb);
        proof {
            assert(es[i as int] == (items@[i as int].key@, items@[i as int].value@));
            assert(out@ =~= before + spec_encode_record(es[i as int].0, es[i as int].1));
            assert(es.take(i + 1) =~= es.take(i as int).push(es[i as int]));
            lemma_encode_records_push(es.take(i as int), es[i as int].0, es[i as int].1);
            assert(out@ =~= head + spec_encode_records(es.take(i + 1)));
        }
        i = i + 1;
    }
    proof {
        assert(es.take(n as int) =~= es);
    }
    out
}

/// Reads an image back into records.  Succeeds exactly on the byte strings
/// the image parser accepts; a bad header is told apart from a bad record
/// frame.
pub fn decode_image(bytes: &[u8]) -> (r: Result<Vec<Record>, ErrorCode>)
    ensures
        match r {
            Ok(items) => spec_parse_image(bytes@) == Some(entries_of(items@)),
            Err(e) => {
                &&& spec_parse_image(bytes@) is None
                &&& (e == ErrorCode::MetaDataCorrupt) == !spec_header_ok(bytes@)
                &&& (e == ErrorCode::MetaDataCorrupt || e == ErrorCode::RecordHeaderCorrupt)
            },
        },
{
    proof {
        lemma_auto_spec_u64_to_from_le_bytes();
    }
    let len: usize = bytes.len();
    if len < 16 {
        return Err(ErrorCode::MetaDataCorrupt);
    }
    let tag = vstd::slice::slice_subrange(bytes, 0, 8);
    let mut m: Vec<u8> = Vec::new();
    m.push(0x54u8);
    m.push(0x4bu8);
    m.push(0x59u8);
    m.push(0x43u8);
    m.push(0x42u8);
    m.push(0x49u8);
    m.push(0x4du8);
    m.push(0x47u8);
    proof {
        assert(m@ =~= magic());
    }
    let tag_ord = crate::order::compare_bytes(tag, m.as_slice());
    if !matches!(tag_ord, crate::order::KeyOrder::Equal) {
        return Err(ErrorCode::MetaDataCorrupt);
    }
    let n: u64 = u64_from_le_bytes(vstd::slice::slice_subrange(bytes, 8, 16));
    let ghost total = spec_parse_records(bytes@.skip(16), n as nat);
    let mut items: Vec<Record> = Vec::new();
    let mut pos: usize = 16;
    let mut i: u64 = 0;
    proof {
        assert(bytes@.skip(16) =~= bytes@.skip(16));
        assert(entries_of(items@) =~= Seq::<(Seq<u8>, Seq<u8>)>::empty());
    }
    while i < n
        invariant
            i <= n,
            16 <= pos <= bytes@.len(),
            len == bytes@.len(),
            spec_header_ok(bytes@),
            total == spec_parse_records(bytes@.skip(16), n as nat),
            n == spec_u64_from_le_bytes(bytes@.subrange(8, 16)),
            total == match spec_parse_records(bytes@.skip(pos as int), (n - i) as nat) {
                Some(rest) => Some(entries_of(items@) + rest),
                None => None::<Seq<(Seq<u8>, Seq<u8>)>>,
            },
        decreases n - i,
    {
        let ghost tail = bytes@.skip(pos as int);
        let ghost m0 = (n - i) as nat;
        let remaining: usize = len - pos;
        if remaining < 16 {
            proof {
                assert(tail.len() < 16);
                assert(spec_parse_records(tail, m0) is None);
            }
            return Err(ErrorCode::RecordHeaderCorrupt);
        }
        let klen: u64 = u64_from_le_bytes(vstd::slice::slice_subrange(bytes, pos, pos + 8));
        let vlen: u64 = u64_from_le_bytes(vstd::slice::slice_subrange(bytes, pos + 8, pos + 16));
        proof {
            assert(tail.subrange(0, 8) =~= bytes@.subrange(pos as int, pos + 8));
            assert(tail.subrange(8, 16) =~= bytes@.subrange(pos + 8, pos + 16));
        }
        let body: usize = remaining - 16;
        if klen > body as u64 {
            proof {
                assert(tail.len() - 16 < klen + vlen);
                assert(spec_parse_records(tail, m0) is None);
            }
            return Err(ErrorCode::RecordHeaderCorrupt);
        }
        let kl: usize = klen as usize;
        if vlen > (body - kl) as u64 {
            proof {
                assert(tail.len() - 16 < klen + vlen);
                assert(spec_parse_records(tail, m0) is None);
            }
            return Err(ErrorCode::RecordHeaderCorrupt);
        }
        let vl: usize = vlen as usize;
        let k = vstd::slice::slice_to_vec(
            vstd::slice::slice_subrange(bytes, pos + 16, pos + 16 + kl),
        );
        let v = vstd::slice::slice_to_vec(
            vstd::slice::slice_subrange(bytes, pos + 16 + kl, pos + 16 + kl + vl),
        );
        proof {
            assert(tail.subrange(16, 16 + klen as int) =~= bytes@.subrange(
                pos + 16,
                pos + 16 + kl,
            ));
            assert(tail.subrange(16 + klen as int, 16 + klen + vlen) =~= bytes@.subrange(
                pos + 16 + kl,
                pos + 16 + kl + vl,
            ));
            assert(tail.skip(16 + klen + vlen) =~= bytes@.skip(pos + 16 + kl + vl));
        }
        let ghost before = entries_of(items@);
        items.push(Record { key: k, value: v });
        pos = pos + 16 + kl + vl;
        i = i + 1;
        proof {
            assert(entries_of(items@) =~= before.push((k@, v@)));
            let rest0 = spec_parse_records(bytes@.skip(pos as int), (n - i) as nat);
            match rest0 {
                Some(rest) => {
                    assert(spec_parse_records(tail, m0) == Some(seq![(k@, v@)] + rest));
                    assert(before + (seq![(k@, v@)] + rest) =~= entries_of(items@) + rest);
                },
                None => {
                    assert(spec_parse_records(tail, m0) is None);
                },
            }
        }
    }
    if pos != len {
        proof {
            assert(bytes@.skip(pos as int).len() > 0);
            assert(spec_parse_records(bytes@.skip(pos as int), 0) is None);
        }
        return Err(ErrorCode::RecordHeaderCorrupt);
    }
    proof {
        assert(bytes@.skip(pos as int).len() == 0);
        assert(spec_parse_records(bytes@.skip(pos as int), 0) == Some(
            Seq::<(Seq<u8>, Seq<u8>)>::empty(),
        ));
        assert(entries_of(items@) + Seq::<(Seq<u8>, Seq<u8>)>::empty() =~= entries_of(items@));
    }
    Ok(items)
}

} // verus!

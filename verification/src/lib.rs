//! An embeddable, single-process, persistent key-value storage engine with
//! two indexing variants — an ordered tree index ([`tcbdb::TCBDB`]) and a
//! hashed index ([`tchdb::TCHDB`]) — plus a thin unifying facade
//! ([`tcadb::TCADB`]).
//!
//! A handle is created fresh, configured (tuning, cache sizes, comparator,
//! mutex flag), opened, used for record storage, and finally closed.  Every
//! fallible call returns a plain success/failure result and records a
//! detailed [`errors::ErrorCode`] on the handle, retrievable afterwards.
use vstd::prelude::*;

pub mod codec;
pub mod errors;
pub mod model;
pub mod order;
pub mod store;
pub mod tcadb;
pub mod tcbdb;
pub mod tchdb;
pub mod tcutil;
pub mod tuning;

verus! {

/// The lifecycle states of an engine handle.  Configuration calls are valid
/// only while `Fresh`; record operations only while `Open`.
#[derive(Clone, Copy, PartialEq, Eq, Structural, Debug)]
pub enum DbState {
    /// Created but not yet opened; tuning and comparator may still change.
    Fresh,
    /// Opened against a path or in-memory spec; records may be accessed.
    Open,
    /// Closed; no further operation succeeds.
    Closed,
}

/// Storing a record and then looking its key up yields exactly the stored
/// value: whatever the record map held before, `put` followed by `get` of
/// the same key returns the value just written — zero-length keys and
/// values included, since nothing here depends on length.
pub proof fn lemma_put_then_get(m: Map<Seq<u8>, Seq<u8>>, k: Seq<u8>, v: Seq<u8>)
    ensures
        m.insert(k, v).contains_key(k),
        m.insert(k, v)[k] == v,
{
}

/// Removing a key and then looking it up finds no record: after `out`, a
/// `get` of the same key reports the record as missing — and by the
/// engines' contracts that absence is recorded as record-not-found, not as
/// a generic failure.
pub proof fn lemma_out_then_get(m: Map<Seq<u8>, Seq<u8>>, k: Seq<u8>)
    ensures
        !m.remove(k).contains_key(k),
{
}

/// After `vanish` nothing is found: the empty record map holds no key at
/// all, so a `get` of any previously stored key reports the record as
/// missing.
pub proof fn lemma_vanish_then_get(k: Seq<u8>)
    ensures
        !Map::<Seq<u8>, Seq<u8>>::empty().contains_key(k),
{
}

} // verus!

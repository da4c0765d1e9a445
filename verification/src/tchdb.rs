//! The hashed index engine: an unordered key-value store with the common
//! handle lifecycle.
//!
//! A handle starts fresh, takes its tuning while fresh, opens against a
//! path, serves record operations while open, and closes.  Every operation
//! issued in the wrong lifecycle state fails deterministically with
//! [`ErrorCode::InvalidOperation`] and leaves the records untouched.  Each
//! fallible call records its outcome on the handle, never in shared state.
use crate::errors::ErrorCode;
use crate::store::HashStore;
use crate::tuning::{OpenMode, TuningOptions, TuningParams};
use crate::DbState;
use vstd::prelude::*;

verus! {

/// A hashed index engine handle.
pub struct TCHDB {
    /// Where the handle stands in its lifecycle.
    pub state: DbState,
    /// The records, while the handle is open.
    pub store: HashStore,
    /// Structural parameters; fixed once the handle opens.
    pub tuning: TuningParams,
    /// Cached leaf-equivalent count (performance knob, fresh-only).
    pub cache_leaf: i32,
    /// Cached node-equivalent count (performance knob, fresh-only).
    pub cache_node: i32,
    /// Size of the extra memory map, in bytes (fresh-only).
    pub extra_map_size: i64,
    /// Unit step of auto defragmentation (fresh-only).
    pub defrag_unit: i32,
    /// Whether internal mutual exclusion was requested (fresh-only).
    pub mutex_enabled: bool,
    /// The mode the handle was opened with.
    pub mode: OpenMode,
    /// The path the handle was opened against.
    pub path: Vec<u8>,
    /// The last outcome recorded on this handle.
    pub last: ErrorCode,
}

impl TCHDB {
    /// The logical content: a finite map from keys to values.
    pub open spec fn records(self) -> Map<Seq<u8>, Seq<u8>> {
        self.store.as_map()
    }

    /// Well-formedness of the handle's record store.
    pub open spec fn wf(self) -> bool {
        self.store.wf()
    }

    /// A fresh, unopened handle with standard tuning and no records.
    pub fn new() -> (r: TCHDB)
        ensures
            r.wf(),
            r.state == DbState::Fresh,
            r.records() == Map::<Seq<u8>, Seq<u8>>::empty(),
            !r.mutex_enabled,
            r.last == ErrorCode::Success,
    {
        TCHDB {
            state: DbState::Fresh,
            store: HashStore::new(),
            tuning: TuningParams::standard(),
            cache_leaf: 0,
            cache_node: 0,
            extra_map_size: 0,
            defrag_unit: 0,
            mutex_enabled: false,
            mode: OpenMode::reader(),
            path: Vec::new(),
            last: ErrorCode::Success,
        }
    }

    /// The last outcome recorded on this handle.
    pub fn ecode(&self) -> (r: ErrorCode)
        ensures
            r == self.last,
    {
        self.last
    }

    /// Sets the structural parameters.  The leaf and node member counts are
    /// meaningless for the hashed engine and are recorded but ignored for
    /// structural purposes.  Valid only while fresh; afterwards the call
    /// fails and changes nothing but the recorded outcome.
    pub fn tune(
        &mut self,
        leaf_members: i32,
        node_members: i32,
        bucket_count: i64,
        record_align_pow: i8,
        free_pool_pow: i8,
        options: TuningOptions,
    ) -> (r: bool)
        requires
            old(self).wf(),
        ensures
            final(self).wf(),
            r == (old(self).state == DbState::Fresh),
            final(self).state == old(self).state,
            final(self).records() == old(self).records(),
            final(self).mutex_enabled == old(self).mutex_enabled,
            old(self).state == DbState::Fresh ==> {
                &&& final(self).tuning == (TuningParams {
                    leaf_members,
                    node_members,
                    bucket_count,
                    record_align_pow,
                    free_pool_pow,
                    options,
                })
                &&& final(self).last == ErrorCode::Success
            },
            old(self).state != DbState::Fresh ==> {
                &&& final(self).tuning == old(self).tuning
                &&& final(self).last == ErrorCode::InvalidOperation
            },
    {
        if !matches!(self.state, DbState::Fresh) {
            self.last = ErrorCode::InvalidOperation;
            return false;
        }
        self.tuning = TuningParams {
            leaf_members,
            node_members,
            bucket_count,
            record_align_pow,
            free_pool_pow,
            options,
        };
        self.last = ErrorCode::Success;
        true
    }

    /// Sets the cache sizes (performance knob).  Fresh-only.
    pub fn set_cache(&mut self, leaf_count: i32, node_count: i32) -> (r: bool)
        requires
            old(self).wf(),
        ensures
            final(self).wf(),
            r == (old(self).state == DbState::Fresh),
            final(self).state == old(self).state,
            final(self).records() == old(self).records(),
            final(self).tuning == old(self).tuning,
            old(self).state == DbState::Fresh ==> {
                &&& final(self).cache_leaf == leaf_count
                &&& final(self).cache_node == node_count
                &&& final(self).last == ErrorCode::Success
            },
            old(self).state != DbState::Fresh ==> {
                &&& final(self).cache_leaf == old(self).cache_leaf
                &&& final(self).cache_node == old(self).cache_node
                &&& final(self).last == ErrorCode::InvalidOperation
            },
    {
        if !matches!(self.state, DbState::Fresh) {
            self.last = ErrorCode::InvalidOperation;
            return false;
        }
        self.cache_leaf = leaf_count;
        self.cache_node = node_count;
        self.last = ErrorCode::Success;
        true
    }

    /// Sets the size of the extra memory map (performance knob).  Fresh-only.
    pub fn set_xmsiz(&mut self, size: i64) -> (r: bool)
        requires
            old(self).wf(),
        ensures
            final(self).wf(),
            r == (old(self).state == DbState::Fresh),
            final(self).state == old(self).state,
            final(self).records() == old(self).records(),
            old(self).state == DbState::Fresh ==> final(self).extra_map_size == size
                && final(self).last == ErrorCode::Success,
            old(self).state != DbState::Fresh ==> final(self).extra_map_size == old(self).extra_map_size && final(self).last == ErrorCode::InvalidOperation,
    {
        if !matches!(self.state, DbState::Fresh) {
            self.last = ErrorCode::InvalidOperation;
            return false;
        }
        self.extra_map_size = size;
        self.last = ErrorCode::Success;
        true
    }

    /// Sets the unit step of auto defragmentation (performance knob).
    /// Fresh-only.
    pub fn set_dfunit(&mut self, unit: i32) -> (r: bool)
        requires
            old(self).wf(),
        ensures
            final(self).wf(),
            r == (old(self).state == DbState::Fresh),
            final(self).state == old(self).state,
            final(self).records() == old(self).records(),
            old(self).state == DbState::Fresh ==> final(self).defrag_unit == unit && final(self).last == ErrorCode::Success,
            old(self).state != DbState::Fresh ==> final(self).defrag_unit == old(self).defrag_unit
                && final(self).last == ErrorCode::InvalidOperation,
    {
        if !matches!(self.state, DbState::Fresh) {
            self.last = ErrorCode::InvalidOperation;
            return false;
        }
        self.defrag_unit = unit;
        self.last = ErrorCode::Success;
        true
    }

    /// Requests internal mutual exclusion, so that one open handle may be
    /// shared across threads.  Fresh-only.
    pub fn set_mutex(&mut self) -> (r: bool)
        requires
            old(self).wf(),
        ensures
            final(self).wf(),
            r == (old(self).state == DbState::Fresh),
            final(self).state == old(self).state,
            final(self).records() == old(self).records(),
            old(self).state == DbState::Fresh ==> final(self).mutex_enabled && final(self).last
                == ErrorCode::Success,
            old(self).state != DbState::Fresh ==> final(self).mutex_enabled == old(self).mutex_enabled && final(self).last == ErrorCode::InvalidOperation,
    {
        if !matches!(self.state, DbState::Fresh) {
            self.last = ErrorCode::InvalidOperation;
            return false;
        }
        self.mutex_enabled = true;
        self.last = ErrorCode::Success;
        true
    }

    /// Opens the handle against `path` with `mode`.  Succeeds exactly on a
    /// fresh handle with a consistent mode; on failure nothing changes but
    /// the recorded outcome — there is no partial open.
    pub fn open(&mut self, path: &[u8], mode: OpenMode) -> (r: bool)
        requires
            old(self).wf(),
        ensures
            final(self).wf(),
            r == (old(self).state == DbState::Fresh && mode.spec_valid()),
            final(self).records() == old(self).records(),
            final(self).tuning == old(self).tuning,
            r ==> {
                &&& final(self).state == DbState::Open
                &&& final(self).mode == mode
                &&& final(self).path@ == path@
                &&& final(self).last == ErrorCode::Success
            },
            !r ==> {
                &&& final(self).state == old(self).state
                &&& final(self).last == ErrorCode::InvalidOperation
            },
    {
        if !matches!(self.state, DbState::Fresh) {
            self.last = ErrorCode::InvalidOperation;
            return false;
        }
        if !mode.is_valid() {
            self.last = ErrorCode::InvalidOperation;
            return false;
        }
        self.state = DbState::Open;
        self.mode = mode;
        self.path = vstd::slice::slice_to_vec(path);
        self.last = ErrorCode::Success;
        true
    }

    /// Closes the handle.  Succeeds exactly on an open handle; the records
    /// are kept for a final flush by the caller.
    pub fn close(&mut self) -> (r: bool)
        requires
            old(self).wf(),
        ensures
            final(self).wf(),
            r == (old(self).state == DbState::Open),
            final(self).records() == old(self).records(),
            r ==> final(self).state == DbState::Closed && final(self).last == ErrorCode::Success,
            !r ==> final(self).state == old(self).state && final(self).last
                == ErrorCode::InvalidOperation,
    {
        if !matches!(self.state, DbState::Open) {
            self.last = ErrorCode::InvalidOperation;
            return false;
        }
        self.state = DbState::Closed;
        self.last = ErrorCode::Success;
        true
    }

    /// Stores a record, overwriting the value if the key is present.  Fails
    /// exactly when the handle is not open.
    pub fn put(&mut self, key: &[u8], value: &[u8]) -> (r: bool)
        requires
            old(self).wf(),
        ensures
            final(self).wf(),
            final(self).state == old(self).state,
            r == (old(self).state == DbState::Open),
            r ==> final(self).records() == old(self).records().insert(key@, value@) && final(self).last == ErrorCode::Success,
            !r ==> final(self).records() == old(self).records() && final(self).last
                == ErrorCode::InvalidOperation,
    {
        if !matches!(self.state, DbState::Open) {
            self.last = ErrorCode::InvalidOperation;
            return false;
        }
        self.store.put(key, value);
        self.last = ErrorCode::Success;
        true
    }

    /// Stores a record only if the key is absent; an existing record is
    /// left untouched and the call fails with
    /// [`ErrorCode::KeyAlreadyExists`].
    pub fn put_keep(&mut self, key: &[u8], value: &[u8]) -> (r: bool)
        requires
            old(self).wf(),
        ensures
            final(self).wf(),
            final(self).state == old(self).state,
            r == (old(self).state == DbState::Open && !old(self).records().contains_key(key@)),
            r ==> final(self).records() == old(self).records().insert(key@, value@) && final(self).last == ErrorCode::Success,
            !r ==> final(self).records() == old(self).records(),
            old(self).state == DbState::Open && old(self).records().contains_key(key@) ==> final(self).last == ErrorCode::KeyAlreadyExists,
            old(self).state != DbState::Open ==> final(self).last == ErrorCode::InvalidOperation,
    {
        if !matches!(self.state, DbState::Open) {
            self.last = ErrorCode::InvalidOperation;
            return false;
        }
        match self.store.get(key) {
            Some(_) => {
                self.last = ErrorCode::KeyAlreadyExists;
                false
            },
            None => {
                self.store.put(key, value);
                self.last = ErrorCode::Success;
                true
            },
        }
    }

    /// Removes the record carrying `key`.  Fails with
    /// [`ErrorCode::RecordNotFound`] when the key is absent.
    pub fn out(&mut self, key: &[u8]) -> (r: bool)
        requires
            old(self).wf(),
        ensures
            final(self).wf(),
            final(self).state == old(self).state,
            r == (old(self).state == DbState::Open && old(self).records().contains_key(key@)),
            r ==> final(self).records() == old(self).records().remove(key@) && final(self).last
                == ErrorCode::Success,
            !r ==> final(self).records() == old(self).records(),
            old(self).state == DbState::Open && !old(self).records().contains_key(key@) ==> final(self).last == ErrorCode::RecordNotFound,
            old(self).state != DbState::Open ==> final(self).last == ErrorCode::InvalidOperation,
    {
        if !matches!(self.state, DbState::Open) {
            self.last = ErrorCode::InvalidOperation;
            return false;
        }
        if self.store.remove(key) {
            self.last = ErrorCode::Success;
            true
        } else {
            self.last = ErrorCode::RecordNotFound;
            false
        }
    }

    /// Retrieves a copy of the value stored under `key`.  Absence is
    /// reported as [`ErrorCode::RecordNotFound`], not as a generic error.
    pub fn get(&mut self, key: &[u8]) -> (r: Option<Vec<u8>>)
        requires
            old(self).wf(),
        ensures
            final(self).wf(),
            final(self).state == old(self).state,
            final(self).records() == old(self).records(),
            match r {
                Some(v) => {
                    &&& old(self).state == DbState::Open
                    &&& old(self).records().contains_key(key@)
                    &&& v@ == old(self).records()[key@]
                    &&& final(self).last == ErrorCode::Success
                },
                None => {
                    &&& (old(self).state == DbState::Open && old(self).records().contains_key(key@))
                        == false
                    &&& old(self).state == DbState::Open ==> final(self).last
                        == ErrorCode::RecordNotFound
                    &&& old(self).state != DbState::Open ==> final(self).last
                        == ErrorCode::InvalidOperation
                },
            },
    {
        if !matches!(self.state, DbState::Open) {
            self.last = ErrorCode::InvalidOperation;
            return None;
        }
        match self.store.get(key) {
            Some(v) => {
                self.last = ErrorCode::Success;
                Some(v)
            },
            None => {
                self.last = ErrorCode::RecordNotFound;
                None
            },
        }
    }

    /// Flushes the handle to durable storage.  The in-memory records are
    /// authoritative; the byte image for the caller to persist comes from
    /// the image functions.  Fails exactly when the handle is not open.
    pub fn sync(&mut self) -> (r: bool)
        requires
            old(self).wf(),
        ensures
            final(self).wf(),
            final(self).state == old(self).state,
            final(self).records() == old(self).records(),
            r == (old(self).state == DbState::Open),
            r ==> final(self).last == ErrorCode::Success,
            !r ==> final(self).last == ErrorCode::InvalidOperation,
    {
        if !matches!(self.state, DbState::Open) {
            self.last = ErrorCode::InvalidOperation;
            return false;
        }
        self.last = ErrorCode::Success;
        true
    }

    /// Removes every record.  Fails exactly when the handle is not open.
    pub fn vanish(&mut self) -> (r: bool)
        requires
            old(self).wf(),
        ensures
            final(self).wf(),
            final(self).state == old(self).state,
            r == (old(self).state == DbState::Open),
            r ==> final(self).records() == Map::<Seq<u8>, Seq<u8>>::empty() && final(self).last
                == ErrorCode::Success,
            !r ==> final(self).records() == old(self).records() && final(self).last
                == ErrorCode::InvalidOperation,
    {
        if !matches!(self.state, DbState::Open) {
            self.last = ErrorCode::InvalidOperation;
            return false;
        }
        self.store.clear();
        self.last = ErrorCode::Success;
        true
    }

    /// Renders the records as a byte image for the caller to persist.
    /// Loading the image back restores exactly these records.  Fails
    /// exactly when the handle is not open.
    pub fn save_image(&mut self) -> (r: Option<Vec<u8>>)
        requires
            old(self).wf(),
        ensures
            final(self).wf(),
            final(self).state == old(self).state,
            final(self).records() == old(self).records(),
            final(self).store == old(self).store,
            match r {
                Some(b) => {
                    &&& old(self).state == DbState::Open
                    &&& b@ == crate::codec::spec_image(old(self).store.entries())
                    &&& crate::codec::spec_parse_image(b@) == Some(old(self).store.entries())
                    &&& final(self).last == ErrorCode::Success
                },
                None => old(self).state != DbState::Open && final(self).last
                    == ErrorCode::InvalidOperation,
            },
    {
        if !matches!(self.state, DbState::Open) {
            self.last = ErrorCode::InvalidOperation;
            return None;
        }
        let b = crate::codec::encode_image(&self.store.items);
        proof {
            let es = self.store.entries();
            assert(es.len() == vstd::std_specs::vec::spec_vec_len(&self.store.items));
            assert forall|i: int|
                0 <= i < es.len() implies es[i].0.len() <= u64::MAX && es[i].1.len()
                <= u64::MAX by {
                let rec = self.store.items@[i];
                assert(es[i] == (rec.key@, rec.value@));
                assert(rec.key@.len() == vstd::std_specs::vec::spec_vec_len(&rec.key));
                assert(rec.value@.len() == vstd::std_specs::vec::spec_vec_len(&rec.value));
            }
            crate::codec::lemma_image_round_trip(es);
        }
        self.last = ErrorCode::Success;
        Some(b)
    }

    /// Replaces the records with the content of a byte image, as the image
    /// parser reads it.  A rejected image leaves the records untouched and
    /// reports whether the header or a record frame was corrupt.  Fails
    /// when the handle is not open.
    pub fn load_image(&mut self, bytes: &[u8]) -> (r: bool)
        requires
            old(self).wf(),
        ensures
            final(self).wf(),
            final(self).state == old(self).state,
            old(self).state != DbState::Open ==> !r && final(self).records() == old(self).records()
                && final(self).last == ErrorCode::InvalidOperation,
            old(self).state == DbState::Open ==> match crate::codec::spec_parse_image(bytes@) {
                Some(es) => r && final(self).records() == crate::model::kv_map(es) && final(self).last == ErrorCode::Success,
                None => !r && final(self).records() == old(self).records() && final(self).last == (
                if !crate::codec::spec_header_ok(bytes@) {
                    ErrorCode::MetaDataCorrupt
                } else {
                    ErrorCode::RecordHeaderCorrupt
                }),
            },
    {
        if !matches!(self.state, DbState::Open) {
            self.last = ErrorCode::InvalidOperation;
            return false;
        }
        match crate::codec::decode_image(bytes) {
            Err(e) => {
                self.last = e;
                false
            },
            Ok(items) => {
                self.store.clear();
                let ghost es = crate::store::entries_of(items@);
                let n: usize = items.len();
                let mut i: usize = 0;
                proof {
                    assert(es.take(0) =~= Seq::<(Seq<u8>, Seq<u8>)>::empty());
                }
                while i < n
                    invariant
                        i <= n,
                        n == items@.len(),
                        es == crate::store::entries_of(items@),
                        self.store.wf(),
                        self.store.as_map() == crate::model::kv_map(es.take(i as int)),
                        self.state == old(self).state,
                    decreases n - i,
                {
                    self.store.put(items[i].key.as_slice(), items[i].value.as_slice());
                    proof {
                        assert(es[i as int] == (items@[i as int].key@, items@[i as int].value@));
                        assert(es.take(i + 1).drop_last() =~= es.take(i as int));
                        assert(es.take(i + 1).last() == es[i as int]);
                        assert(crate::model::kv_map(es.take(i + 1)) == crate::model::kv_map(
                            es.take(i as int),
                        ).insert(es[i as int].0, es[i as int].1));
                    }
                    i = i + 1;
                }
                proof {
                    assert(es.take(n as int) =~= es);
                }
                self.last = ErrorCode::Success;
                true
            },
        }
    }
}

/// The hashed engine's cursor type.  The hashed engine's call surface
/// defines no cursor operations — positioned traversal belongs to the
/// ordered tree engine alone — so this type only records that absence.
pub struct HDBCUR {
    /// Unused; the hashed engine offers no positioned traversal.
    pub position: usize,
}

} // verus!

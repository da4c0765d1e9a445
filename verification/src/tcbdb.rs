//! The ordered tree engine: a key-value store sorted under a pluggable
//! comparator, with positioned traversal through cursors.
//!
//! The handle lifecycle and the record operations mirror the hashed engine;
//! in addition the comparator may be chosen while the handle is fresh, and
//! an open handle can be traversed in comparator order with a
//! [`TCBDBCUR`] cursor.
use crate::errors::ErrorCode;
use crate::order::{key_lt, Comparator};
use crate::store::OrderedStore;
use crate::tuning::{OpenMode, TuningOptions, TuningParams};
use crate::DbState;
use vstd::prelude::*;

verus! {

/// An ordered tree engine handle.
pub struct TCBDB {
    /// Where the handle stands in its lifecycle.
    pub state: DbState,
    /// The records, sorted under the handle's comparator.
    pub store: OrderedStore,
    /// Structural parameters; fixed once the handle opens.
    pub tuning: TuningParams,
    /// Cached leaf page count (performance knob, fresh-only).
    pub cache_leaf: i32,
    /// Cached non-leaf page count (performance knob, fresh-only).
    pub cache_node: i32,
    /// Size of the extra memory map, in bytes (fresh-only).
    pub extra_map_size: i64,
    /// Unit step of auto defragmentation (fresh-only).
    pub defrag_unit: i32,
    /// Whether internal mutual exclusion was requested (fresh-only).
    pub mutex_enabled: bool,
    /// The mode the handle was opened with.
    pub mode: OpenMode,
    /// The path the handle was opened against.
    pub path: Vec<u8>,
    /// The last outcome recorded on this handle.
    pub last: ErrorCode,
}

impl TCBDB {
    /// The logical content: a finite map from keys to values.
    pub open spec fn records(self) -> Map<Seq<u8>, Seq<u8>> {
        self.store.as_map()
    }

    /// The records as a sequence in comparator order, which cursors walk.
    pub open spec fn entries(self) -> Seq<(Seq<u8>, Seq<u8>)> {
        self.store.entries()
    }

    /// The comparison strategy the records are sorted under.
    pub open spec fn comparator(self) -> Comparator {
        self.store.cmp
    }

    /// Well-formedness: the record store is sorted, and a handle that has
    /// not yet opened holds no records.
    pub open spec fn wf(self) -> bool {
        &&& self.store.wf()
        &&& self.state == DbState::Fresh ==> self.entries().len() == 0
    }

    /// A fresh, unopened handle with the default byte-lexicographic
    /// comparator, standard tuning and no records.
    pub fn new() -> (r: TCBDB)
        ensures
            r.wf(),
            r.state == DbState::Fresh,
            r.records() == Map::<Seq<u8>, Seq<u8>>::empty(),
            r.entries() == Seq::<(Seq<u8>, Seq<u8>)>::empty(),
            r.comparator() == Comparator::Lexical,
            !r.mutex_enabled,
            r.last == ErrorCode::Success,
    {
        TCBDB {
            state: DbState::Fresh,
            store: OrderedStore::new(Comparator::Lexical),
            tuning: TuningParams::standard(),
            cache_leaf: 0,
            cache_node: 0,
            extra_map_size: 0,
            defrag_unit: 0,
            mutex_enabled: false,
            mode: OpenMode::reader(),
            path: Vec::new(),
            last: ErrorCode::Success,
        }
    }

    /// The last outcome recorded on this handle.
    pub fn ecode(&self) -> (r: ErrorCode)
        ensures
            r == self.last,
    {
        self.last
    }

    /// Installs the comparison strategy the records will be sorted under.
    /// Valid only while fresh, before any record exists; afterwards the
    /// call fails and changes nothing but the recorded outcome.
    pub fn set_comparator(&mut self, cmp: Comparator) -> (r: bool)
        requires
            old(self).wf(),
        ensures
            final(self).wf(),
            r == (old(self).state == DbState::Fresh),
            final(self).state == old(self).state,
            final(self).entries() == old(self).entries(),
            final(self).records() == old(self).records(),
            r ==> final(self).comparator() == cmp && final(self).last == ErrorCode::Success,
            !r ==> final(self).comparator() == old(self).comparator() && final(self).last
                == ErrorCode::InvalidOperation,
    {
        if !matches!(self.state, DbState::Fresh) {
            self.last = ErrorCode::InvalidOperation;
            return false;
        }
        // A fresh handle holds no records, so no re-sorting arises.
        self.store.cmp = cmp;
        self.last = ErrorCode::Success;
        true
    }

    /// Sets the structural parameters.  Valid only while fresh; afterwards
    /// the call fails and changes nothing but the recorded outcome.
    pub fn tune(
        &mut self,
        leaf_members: i32,
        node_members: i32,
        bucket_count: i64,
        record_align_pow: i8,
        free_pool_pow: i8,
        options: TuningOptions,
    ) -> (r: bool)
        requires
            old(self).wf(),
        ensures
            final(self).wf(),
            r == (old(self).state == DbState::Fresh),
            final(self).state == old(self).state,
            final(self).entries() == old(self).entries(),
            final(self).records() == old(self).records(),
            final(self).comparator() == old(self).comparator(),
            old(self).state == DbState::Fresh ==> {
                &&& final(self).tuning == (TuningParams {
                    leaf_members,
                    node_members,
                    bucket_count,
                    record_align_pow,
                    free_pool_pow,
                    options,
                })
                &&& final(self).last == ErrorCode::Success
            },
            old(self).state != DbState::Fresh ==> {
                &&& final(self).tuning == old(self).tuning
                &&& final(self).last == ErrorCode::InvalidOperation
            },
    {
        if !matches!(self.state, DbState::Fresh) {
            self.last = ErrorCode::InvalidOperation;
            return false;
        }
        self.tuning = TuningParams {
            leaf_members,
            node_members,
            bucket_count,
            record_align_pow,
            free_pool_pow,
            options,
        };
        self.last = ErrorCode::Success;
        true
    }

    /// Sets the cache page counts (performance knob).  Fresh-only.
    pub fn set_cache(&mut self, leaf_count: i32, node_count: i32) -> (r: bool)
        requires
            old(self).wf(),
        ensures
            final(self).wf(),
            r == (old(self).state == DbState::Fresh),
            final(self).state == old(self).state,
            final(self).entries() == old(self).entries(),
            final(self).records() == old(self).records(),
            final(self).comparator() == old(self).comparator(),
            r ==> final(self).cache_leaf == leaf_count && final(self).cache_node == node_count
                && final(self).last == ErrorCode::Success,
            !r ==> final(self).cache_leaf == old(self).cache_leaf && final(self).cache_node == old(self).cache_node && final(self).last == ErrorCode::InvalidOperation,
    {
        if !matches!(self.state, DbState::Fresh) {
            self.last = ErrorCode::InvalidOperation;
            return false;
        }
        self.cache_leaf = leaf_count;
        self.cache_node = node_count;
        self.last = ErrorCode::Success;
        true
    }

    /// Sets the size of the extra memory map (performance knob).  Fresh-only.
    pub fn set_xmsiz(&mut self, size: i64) -> (r: bool)
        requires
            old(self).wf(),
        ensures
            final(self).wf(),
            r == (old(self).state == DbState::Fresh),
            final(self).state == old(self).state,
            final(self).entries() == old(self).entries(),
            final(self).records() == old(self).records(),
            final(self).comparator() == old(self).comparator(),
            r ==> final(self).extra_map_size == size && final(self).last == ErrorCode::Success,
            !r ==> final(self).extra_map_size == old(self).extra_map_size && final(self).last
                == ErrorCode::InvalidOperation,
    {
        if !matches!(self.state, DbState::Fresh) {
            self.last = ErrorCode::InvalidOperation;
            return false;
        }
        self.extra_map_size = size;
        self.last = ErrorCode::Success;
        true
    }

    /// Sets the unit step of auto defragmentation (performance knob).
    /// Fresh-only.
    pub fn set_dfunit(&mut self, unit: i32) -> (r: bool)
        requires
            old(self).wf(),
        ensures
            final(self).wf(),
            r == (old(self).state == DbState::Fresh),
            final(self).state == old(self).state,
            final(self).entries() == old(self).entries(),
            final(self).records() == old(self).records(),
            final(self).comparator() == old(self).comparator(),
            r ==> final(self).defrag_unit == unit && final(self).last == ErrorCode::Success,
            !r ==> final(self).defrag_unit == old(self).defrag_unit && final(self).last
                == ErrorCode::InvalidOperation,
    {
        if !matches!(self.state, DbState::Fresh) {
            self.last = ErrorCode::InvalidOperation;
            return false;
        }
        self.defrag_unit = unit;
        self.last = ErrorCode::Success;
        true
    }

    /// Requests internal mutual exclusion, so that one open handle may be
    /// shared across threads.  Fresh-only.
    pub fn set_mutex(&mut self) -> (r: bool)
        requires
            old(self).wf(),
        ensures
            final(self).wf(),
            r == (old(self).state == DbState::Fresh),
            final(self).state == old(self).state,
            final(self).entries() == old(self).entries(),
            final(self).records() == old(self).records(),
            final(self).comparator() == old(self).comparator(),
            r ==> final(self).mutex_enabled && final(self).last == ErrorCode::Success,
            !r ==> final(self).mutex_enabled == old(self).mutex_enabled && final(self).last
                == ErrorCode::InvalidOperation,
    {
        if !matches!(self.state, DbState::Fresh) {
            self.last = ErrorCode::InvalidOperation;
            return false;
        }
        self.mutex_enabled = true;
        self.last = ErrorCode::Success;
        true
    }

    /// Opens the handle against `path` with `mode`.  Succeeds exactly on a
    /// fresh handle with a consistent mode; on failure nothing changes but
    /// the recorded outcome — there is no partial open.
    pub fn open(&mut self, path: &[u8], mode: OpenMode) -> (r: bool)
        requires
            old(self).wf(),
        ensures
            final(self).wf(),
            r == (old(self).state == DbState::Fresh && mode.spec_valid()),
            final(self).entries() == old(self).entries(),
            final(self).records() == old(self).records(),
            final(self).comparator() == old(self).comparator(),
            final(self).tuning == old(self).tuning,
            r ==> {
                &&& final(self).state == DbState::Open
                &&& final(self).mode == mode
                &&& final(self).path@ == path@
                &&& final(self).last == ErrorCode::Success
            },
            !r ==> {
                &&& final(self).state == old(self).state
                &&& final(self).last == ErrorCode::InvalidOperation
            },
    {
        if !matches!(self.state, DbState::Fresh) {
            self.last = ErrorCode::InvalidOperation;
            return false;
        }
        if !mode.is_valid() {
            self.last = ErrorCode::InvalidOperation;
            return false;
        }
        self.state = DbState::Open;
        self.mode = mode;
        self.path = vstd::slice::slice_to_vec(path);
        self.last = ErrorCode::Success;
        true
    }

    /// Closes the handle.  Succeeds exactly on an open handle; the records
    /// are kept for a final flush by the caller.
    pub fn close(&mut self) -> (r: bool)
        requires
            old(self).wf(),
        ensures
            final(self).wf(),
            r == (old(self).state == DbState::Open),
            final(self).entries() == old(self).entries(),
            final(self).records() == old(self).records(),
            r ==> final(self).state == DbState::Closed && final(self).last == ErrorCode::Success,
            !r ==> final(self).state == old(self).state && final(self).last
                == ErrorCode::InvalidOperation,
    {
        if !matches!(self.state, DbState::Open) {
            self.last = ErrorCode::InvalidOperation;
            return false;
        }
        self.state = DbState::Closed;
        self.last = ErrorCode::Success;
        true
    }

    /// Stores a record, overwriting the value if the key is present.  Fails
    /// exactly when the handle is not open.
    pub fn put(&mut self, key: &[u8], value: &[u8]) -> (r: bool)
        requires
            old(self).wf(),
        ensures
            final(self).wf(),
            final(self).state == old(self).state,
            final(self).comparator() == old(self).comparator(),
            r == (old(self).state == DbState::Open),
            r ==> final(self).records() == old(self).records().insert(key@, value@) && final(self).last == ErrorCode::Success,
            !r ==> final(self).entries() == old(self).entries() && final(self).records() == old(self).records() && final(self).last == ErrorCode::InvalidOperation,
    {
        if !matches!(self.state, DbState::Open) {
            self.last = ErrorCode::InvalidOperation;
            return false;
        }
        self.store.put(key, value);
        self.last = ErrorCode::Success;
        true
    }

    /// Stores a record only if the key is absent; an existing record is
    /// left untouched and the call fails with
    /// [`ErrorCode::KeyAlreadyExists`].
    pub fn put_keep(&mut self, key: &[u8], value: &[u8]) -> (r: bool)
        requires
            old(self).wf(),
        ensures
            final(self).wf(),
            final(self).state == old(self).state,
            final(self).comparator() == old(self).comparator(),
            r == (old(self).state == DbState::Open && !old(self).records().contains_key(key@)),
            r ==> final(self).records() == old(self).records().insert(key@, value@) && final(self).last == ErrorCode::Success,
            !r ==> final(self).entries() == old(self).entries() && final(self).records() == old(self).records(),
            old(self).state == DbState::Open && old(self).records().contains_key(key@) ==> final(self).last == ErrorCode::KeyAlreadyExists,
            old(self).state != DbState::Open ==> final(self).last == ErrorCode::InvalidOperation,
    {
        if !matches!(self.state, DbState::Open) {
            self.last = ErrorCode::InvalidOperation;
            return false;
        }
        match self.store.get(key) {
            Some(_) => {
                self.last = ErrorCode::KeyAlreadyExists;
                false
            },
            None => {
                self.store.put(key, value);
                self.last = ErrorCode::Success;
                true
            },
        }
    }

    /// Removes the record carrying `key`.  Fails with
    /// [`ErrorCode::RecordNotFound`] when the key is absent.
    pub fn out(&mut self, key: &[u8]) -> (r: bool)
        requires
            old(self).wf(),
        ensures
            final(self).wf(),
            final(self).state == old(self).state,
            final(self).comparator() == old(self).comparator(),
            r == (old(self).state == DbState::Open && old(self).records().contains_key(key@)),
            r ==> final(self).records() == old(self).records().remove(key@) && final(self).last
                == ErrorCode::Success,
            !r ==> final(self).entries() == old(self).entries() && final(self).records() == old(self).records(),
            old(self).state == DbState::Open && !old(self).records().contains_key(key@) ==> final(self).last == ErrorCode::RecordNotFound,
            old(self).state != DbState::Open ==> final(self).last == ErrorCode::InvalidOperation,
    {
        if !matches!(self.state, DbState::Open) {
            self.last = ErrorCode::InvalidOperation;
            return false;
        }
        if self.store.remove(key) {
            self.last = ErrorCode::Success;
            true
        } else {
            self.last = ErrorCode::RecordNotFound;
            false
        }
    }

    /// Retrieves a copy of the value stored under `key`.  Absence is
    /// reported as [`ErrorCode::RecordNotFound`], not as a generic error.
    pub fn get(&mut self, key: &[u8]) -> (r: Option<Vec<u8>>)
        requires
            old(self).wf(),
        ensures
            final(self).wf(),
            final(self).state == old(self).state,
            final(self).entries() == old(self).entries(),
            final(self).records() == old(self).records(),
            final(self).comparator() == old(self).comparator(),
            match r {
                Some(v) => {
                    &&& old(self).state == DbState::Open
                    &&& old(self).records().contains_key(key@)
                    &&& v@ == old(self).records()[key@]
                    &&& final(self).last == ErrorCode::Success
                },
                None => {
                    &&& (old(self).state == DbState::Open && old(self).records().contains_key(key@))
                        == false
                    &&& old(self).state == DbState::Open ==> final(self).last
                        == ErrorCode::RecordNotFound
                    &&& old(self).state != DbState::Open ==> final(self).last
                        == ErrorCode::InvalidOperation
                },
            },
    {
        if !matches!(self.state, DbState::Open) {
            self.last = ErrorCode::InvalidOperation;
            return None;
        }
        match self.store.get(key) {
            Some(v) => {
                self.last = ErrorCode::Success;
                Some(v)
            },
            None => {
                self.last = ErrorCode::RecordNotFound;
                None
            },
        }
    }

    /// Flushes the handle to durable storage.  The in-memory records are
    /// authoritative; the byte image for the caller to persist comes from
    /// the image functions.  Fails exactly when the handle is not open.
    pub fn sync(&mut self) -> (r: bool)
        requires
            old(self).wf(),
        ensures
            final(self).wf(),
            final(self).state == old(self).state,
            final(self).entries() == old(self).entries(),
            final(self).records() == old(self).records(),
            final(self).comparator() == old(self).comparator(),
            r == (old(self).state == DbState::Open),
            r ==> final(self).last == ErrorCode::Success,
            !r ==> final(self).last == ErrorCode::InvalidOperation,
    {
        if !matches!(self.state, DbState::Open) {
            self.last = ErrorCode::InvalidOperation;
            return false;
        }
        self.last = ErrorCode::Success;
        true
    }

    /// Removes every record.  Fails exactly when the handle is not open.
    pub fn vanish(&mut self) -> (r: bool)
        requires
            old(self).wf(),
        ensures
            final(self).wf(),
            final(self).state == old(self).state,
            final(self).comparator() == old(self).comparator(),
            r == (old(self).state == DbState::Open),
            r ==> final(self).records() == Map::<Seq<u8>, Seq<u8>>::empty() && final(self).entries()
                == Seq::<(Seq<u8>, Seq<u8>)>::empty() && final(self).last == ErrorCode::Success,
            !r ==> final(self).entries() == old(self).entries() && final(self).records() == old(self).records() && final(self).last == ErrorCode::InvalidOperation,
    {
        if !matches!(self.state, DbState::Open) {
            self.last = ErrorCode::InvalidOperation;
            return false;
        }
        self.store.clear();
        self.last = ErrorCode::Success;
        true
    }

    /// Renders the records as a byte image for the caller to persist.
    /// Loading the image back restores exactly these records.  Fails
    /// exactly when the handle is not open.
    pub fn save_image(&mut self) -> (r: Option<Vec<u8>>)
        requires
            old(self).wf(),
        ensures
            final(self).wf(),
            final(self).state == old(self).state,
            final(self).records() == old(self).records(),
            final(self).store == old(self).store,
            match r {
                Some(b) => {
                    &&& old(self).state == DbState::Open
                    &&& b@ == crate::codec::spec_image(old(self).entries())
                    &&& crate::codec::spec_parse_image(b@) == Some(old(self).entries())
                    &&& final(self).last == ErrorCode::Success
                },
                None => old(self).state != DbState::Open && final(self).last
                    == ErrorCode::InvalidOperation,
            },
    {
        if !matches!(self.state, DbState::Open) {
            self.last = ErrorCode::InvalidOperation;
            return None;
        }
        let b = crate::codec::encode_image(&self.store.items);
        proof {
            let es = self.store.entries();
            assert(es.len() == vstd::std_specs::vec::spec_vec_len(&self.store.items));
            assert forall|i: int|
                0 <= i < es.len() implies es[i].0.len() <= u64::MAX && es[i].1.len()
                <= u64::MAX by {
                let rec = self.store.items@[i];
                assert(es[i] == (rec.key@, rec.value@));
                assert(rec.key@.len() == vstd::std_specs::vec::spec_vec_len(&rec.key));
                assert(rec.value@.len() == vstd::std_specs::vec::spec_vec_len(&rec.value));
            }
            crate::codec::lemma_image_round_trip(es);
        }
        self.last = ErrorCode::Success;
        Some(b)
    }

    /// Replaces the records with the content of a byte image, re-sorted
    /// under the handle's comparator.  A rejected image leaves the records
    /// untouched and reports whether the header or a record frame was
    /// corrupt.  Fails when the handle is not open.
    pub fn load_image(&mut self, bytes: &[u8]) -> (r: bool)
        requires
            old(self).wf(),
        ensures
            final(self).wf(),
            final(self).state == old(self).state,
            final(self).comparator() == old(self).comparator(),
            old(self).state != DbState::Open ==> !r && final(self).entries() == old(self).entries()
                && final(self).records() == old(self).records() && final(self).last
                == ErrorCode::InvalidOperation,
            old(self).state == DbState::Open ==> match crate::codec::spec_parse_image(bytes@) {
                Some(es) => r && final(self).records() == crate::model::kv_map(es) && final(self).last == ErrorCode::Success,
                None => !r && final(self).entries() == old(self).entries() && final(self).records()
                    == old(self).records() && final(self).last == (
                if !crate::codec::spec_header_ok(bytes@) {
                    ErrorCode::MetaDataCorrupt
                } else {
                    ErrorCode::RecordHeaderCorrupt
                }),
            },
    {
        if !matches!(self.state, DbState::Open) {
            self.last = ErrorCode::InvalidOperation;
            return false;
        }
        match crate::codec::decode_image(bytes) {
            Err(e) => {
                self.last = e;
                false
            },
            Ok(items) => {
                self.store.clear();
                let ghost es = crate::store::entries_of(items@);
                let n: usize = items.len();
                let mut i: usize = 0;
                proof {
                    assert(es.take(0) =~= Seq::<(Seq<u8>, Seq<u8>)>::empty());
                }
                while i < n
                    invariant
                        i <= n,
                        n == items@.len(),
                        es == crate::store::entries_of(items@),
                        self.store.wf(),
                        self.store.cmp == old(self).store.cmp,
                        self.store.as_map() == crate::model::kv_map(es.take(i as int)),
                        self.state == old(self).state,
                    decreases n - i,
                {
                    self.store.put(items[i].key.as_slice(), items[i].value.as_slice());
                    proof {
                        assert(es[i as int] == (items@[i as int].key@, items@[i as int].value@));
                        assert(es.take(i + 1).drop_last() =~= es.take(i as int));
                        assert(es.take(i + 1).last() == es[i as int]);
                        assert(crate::model::kv_map(es.take(i + 1)) == crate::model::kv_map(
                            es.take(i as int),
                        ).insert(es[i as int].0, es[i as int].1));
                    }
                    i = i + 1;
                }
                proof {
                    assert(es.take(n as int) =~= es);
                }
                self.last = ErrorCode::Success;
                true
            },
        }
    }
}

/// Where a cursor stands within its handle's sorted records.
#[derive(Clone, Copy, PartialEq, Eq, Structural, Debug)]
pub enum CursorState {
    /// No position has been taken yet.
    Unpositioned,
    /// Standing at the record with this index in sorted order.
    AtIndex(usize),
    /// Moved past a boundary; every further step keeps failing.
    Exhausted,
}

/// Where a cursor-relative store places the record physically.  Placement
/// intent does not change the logical content: with unique keys the record
/// a cursor stands at is overwritten whichever variant is chosen.
#[derive(Clone, Copy, PartialEq, Eq, Structural, Debug)]
pub enum CursorPutMode {
    /// Overwrite the current record in place.
    AtCurrent,
    /// Place the written record physically before the current one.
    Before,
    /// Place the written record physically after the current one.
    After,
}

/// A cursor over one ordered handle: a positioned reference into the
/// handle's records in comparator order.
///
/// The cursor holds no reference of its own; every operation takes the
/// handle it traverses, and a position that a concurrent removal has made
/// stale is rejected as an invalid operation rather than followed.
pub struct TCBDBCUR {
    /// The cursor's position.
    pub pos: CursorState,
}

impl TCBDBCUR {
    /// A cursor that has not yet taken a position.
    pub fn new() -> (r: TCBDBCUR)
        ensures
            r.pos == CursorState::Unpositioned,
    {
        TCBDBCUR { pos: CursorState::Unpositioned }
    }

    /// Moves to the record with the lowest key, or becomes exhausted if the
    /// handle holds no records.
    pub fn first(&mut self, db: &mut TCBDB) -> (r: bool)
        requires
            old(db).wf(),
        ensures
            final(db).wf(),
            final(db).state == old(db).state,
            final(db).entries() == old(db).entries(),
            final(db).records() == old(db).records(),
            final(db).comparator() == old(db).comparator(),
            r == (old(db).state == DbState::Open && old(db).entries().len() > 0),
            r ==> final(self).pos == CursorState::AtIndex(0) && final(db).last
                == ErrorCode::Success,
            old(db).state == DbState::Open && old(db).entries().len() == 0 ==> final(self).pos
                == CursorState::Exhausted && final(db).last == ErrorCode::RecordNotFound,
            old(db).state != DbState::Open ==> final(self).pos == old(self).pos && final(db).last
                == ErrorCode::InvalidOperation,
    {
        if !matches!(db.state, DbState::Open) {
            db.last = ErrorCode::InvalidOperation;
            return false;
        }
        if db.store.len() == 0 {
            self.pos = CursorState::Exhausted;
            db.last = ErrorCode::RecordNotFound;
            return false;
        }
        self.pos = CursorState::AtIndex(0);
        db.last = ErrorCode::Success;
        true
    }

    /// Moves to the record with the highest key, or becomes exhausted if
    /// the handle holds no records.
    pub fn last(&mut self, db: &mut TCBDB) -> (r: bool)
        requires
            old(db).wf(),
        ensures
            final(db).wf(),
            final(db).state == old(db).state,
            final(db).entries() == old(db).entries(),
            final(db).records() == old(db).records(),
            final(db).comparator() == old(db).comparator(),
            r == (old(db).state == DbState::Open && old(db).entries().len() > 0),
            r ==> final(self).pos == CursorState::AtIndex(
                (old(db).entries().len() - 1) as usize,
            ) && final(db).last == ErrorCode::Success,
            old(db).state == DbState::Open && old(db).entries().len() == 0 ==> final(self).pos
                == CursorState::Exhausted && final(db).last == ErrorCode::RecordNotFound,
            old(db).state != DbState::Open ==> final(self).pos == old(self).pos && final(db).last
                == ErrorCode::InvalidOperation,
    {
        if !matches!(db.state, DbState::Open) {
            db.last = ErrorCode::InvalidOperation;
            return false;
        }
        let n = db.store.len();
        if n == 0 {
            self.pos = CursorState::Exhausted;
            db.last = ErrorCode::RecordNotFound;
            return false;
        }
        self.pos = CursorState::AtIndex(n - 1);
        db.last = ErrorCode::Success;
        true
    }

    /// Positions at the record carrying `key`.  When the key is absent the
    /// call fails with [`ErrorCode::RecordNotFound`] and the position is
    /// unchanged.
    pub fn jump(&mut self, db: &mut TCBDB, key: &[u8]) -> (r: bool)
        requires
            old(db).wf(),
        ensures
            final(db).wf(),
            final(db).state == old(db).state,
            final(db).entries() == old(db).entries(),
            final(db).records() == old(db).records(),
            final(db).comparator() == old(db).comparator(),
            r == (old(db).state == DbState::Open && old(db).records().contains_key(key@)),
            r ==> (final(self).pos matches CursorState::AtIndex(i) && 0 <= i < old(db).entries().len() && old(db).entries()[i as int].0 == key@) && final(db).last
                == ErrorCode::Success,
            !r ==> final(self).pos == old(self).pos,
            old(db).state == DbState::Open && !old(db).records().contains_key(key@) ==> final(db).last == ErrorCode::RecordNotFound,
            old(db).state != DbState::Open ==> final(db).last == ErrorCode::InvalidOperation,
    {
        if !matches!(db.state, DbState::Open) {
            db.last = ErrorCode::InvalidOperation;
            return false;
        }
        let (i, found) = db.store.locate(key);
        if found {
            proof {
                crate::store::lemma_sorted_distinct(db.store.cmp, db.store.entries());
                crate::model::lemma_kv_map_index(db.store.entries(), i as int);
            }
            self.pos = CursorState::AtIndex(i);
            db.last = ErrorCode::Success;
            true
        } else {
            proof {
                crate::model::lemma_kv_map_contains(db.store.entries(), key@);
            }
            db.last = ErrorCode::RecordNotFound;
            false
        }
    }

    /// Advances one record in comparator order.  Moving past the last
    /// record exhausts the cursor, and an exhausted cursor keeps failing.
    pub fn next(&mut self, db: &mut TCBDB) -> (r: bool)
        requires
            old(db).wf(),
        ensures
            final(db).wf(),
            final(db).state == old(db).state,
            final(db).entries() == old(db).entries(),
            final(db).records() == old(db).records(),
            final(db).comparator() == old(db).comparator(),
            old(db).state != DbState::Open ==> !r && final(self).pos == old(self).pos && final(db).last == ErrorCode::InvalidOperation,
            old(db).state == DbState::Open ==> match old(self).pos {
                CursorState::Unpositioned => !r && final(self).pos == old(self).pos && final(db).last == ErrorCode::RecordNotFound,
                CursorState::Exhausted => !r && final(self).pos == old(self).pos && final(db).last
                    == ErrorCode::RecordNotFound,
                CursorState::AtIndex(i) => if i >= old(db).entries().len() {
                    !r && final(self).pos == old(self).pos && final(db).last
                        == ErrorCode::InvalidOperation
                } else if i + 1 < old(db).entries().len() {
                    r && final(self).pos == CursorState::AtIndex((i + 1) as usize) && final(db).last == ErrorCode::Success
                } else {
                    !r && final(self).pos == CursorState::Exhausted && final(db).last
                        == ErrorCode::RecordNotFound
                },
            },
    {
        if !matches!(db.state, DbState::Open) {
            db.last = ErrorCode::InvalidOperation;
            return false;
        }
        let n = db.store.len();
        match self.pos {
            CursorState::Unpositioned => {
                db.last = ErrorCode::RecordNotFound;
                false
            },
            CursorState::Exhausted => {
                db.last = ErrorCode::RecordNotFound;
                false
            },
            CursorState::AtIndex(i) => {
                if i >= n {
                    db.last = ErrorCode::InvalidOperation;
                    false
                } else if i + 1 < n {
                    self.pos = CursorState::AtIndex(i + 1);
                    db.last = ErrorCode::Success;
                    true
                } else {
                    self.pos = CursorState::Exhausted;
                    db.last = ErrorCode::RecordNotFound;
                    false
                }
            },
        }
    }

    /// Retreats one record in comparator order.  Moving before the first
    /// record exhausts the cursor.
    pub fn prev(&mut self, db: &mut TCBDB) -> (r: bool)
        requires
            old(db).wf(),
        ensures
            final(db).wf(),
            final(db).state == old(db).state,
            final(db).entries() == old(db).entries(),
            final(db).records() == old(db).records(),
            final(db).comparator() == old(db).comparator(),
            old(db).state != DbState::Open ==> !r && final(self).pos == old(self).pos && final(db).last == ErrorCode::InvalidOperation,
            old(db).state == DbState::Open ==> match old(self).pos {
                CursorState::Unpositioned => !r && final(self).pos == old(self).pos && final(db).last == ErrorCode::RecordNotFound,
                CursorState::Exhausted => !r && final(self).pos == old(self).pos && final(db).last
                    == ErrorCode::RecordNotFound,
                CursorState::AtIndex(i) => if i >= old(db).entries().len() {
                    !r && final(self).pos == old(self).pos && final(db).last
                        == ErrorCode::InvalidOperation
                } else if i > 0 {
                    r && final(self).pos == CursorState::AtIndex((i - 1) as usize) && final(db).last == ErrorCode::Success
                } else {
                    !r && final(self).pos == CursorState::Exhausted && final(db).last
                        == ErrorCode::RecordNotFound
                },
            },
    {
        if !matches!(db.state, DbState::Open) {
            db.last = ErrorCode::InvalidOperation;
            return false;
        }
        let n = db.store.len();
        match self.pos {
            CursorState::Unpositioned => {
                db.last = ErrorCode::RecordNotFound;
                false
            },
            CursorState::Exhausted => {
                db.last = ErrorCode::RecordNotFound;
                false
            },
            CursorState::AtIndex(i) => {
                if i >= n {
                    db.last = ErrorCode::InvalidOperation;
                    false
                } else if i > 0 {
                    self.pos = CursorState::AtIndex(i - 1);
                    db.last = ErrorCode::Success;
                    true
                } else {
                    self.pos = CursorState::Exhausted;
                    db.last = ErrorCode::RecordNotFound;
                    false
                }
            },
        }
    }

    /// Reads the key of the current record without moving.
    pub fn get_key(&self, db: &mut TCBDB) -> (r: Option<Vec<u8>>)
        requires
            old(db).wf(),
        ensures
            final(db).wf(),
            final(db).state == old(db).state,
            final(db).entries() == old(db).entries(),
            final(db).records() == old(db).records(),
            final(db).comparator() == old(db).comparator(),
            old(db).state != DbState::Open ==> r is None && final(db).last
                == ErrorCode::InvalidOperation,
            old(db).state == DbState::Open ==> match self.pos {
                CursorState::AtIndex(i) => if i < old(db).entries().len() {
                    (r matches Some(k) && k@ == old(db).entries()[i as int].0) && final(db).last
                        == ErrorCode::Success
                } else {
                    r is None && final(db).last == ErrorCode::InvalidOperation
                },
                _ => r is None && final(db).last == ErrorCode::RecordNotFound,
            },
    {
        if !matches!(db.state, DbState::Open) {
            db.last = ErrorCode::InvalidOperation;
            return None;
        }
        match self.pos {
            CursorState::AtIndex(i) => {
                if i < db.store.len() {
                    let (k, _) = db.store.pair_at(i);
                    db.last = ErrorCode::Success;
                    Some(k)
                } else {
                    db.last = ErrorCode::InvalidOperation;
                    None
                }
            },
            _ => {
                db.last = ErrorCode::RecordNotFound;
                None
            },
        }
    }

    /// Reads the value of the current record without moving.
    pub fn get_value(&self, db: &mut TCBDB) -> (r: Option<Vec<u8>>)
        requires
            old(db).wf(),
        ensures
            final(db).wf(),
            final(db).state == old(db).state,
            final(db).entries() == old(db).entries(),
            final(db).records() == old(db).records(),
            final(db).comparator() == old(db).comparator(),
            old(db).state != DbState::Open ==> r is None && final(db).last
                == ErrorCode::InvalidOperation,
            old(db).state == DbState::Open ==> match self.pos {
                CursorState::AtIndex(i) => if i < old(db).entries().len() {
                    (r matches Some(v) && v@ == old(db).entries()[i as int].1) && final(db).last
                        == ErrorCode::Success
                } else {
                    r is None && final(db).last == ErrorCode::InvalidOperation
                },
                _ => r is None && final(db).last == ErrorCode::RecordNotFound,
            },
    {
        if !matches!(db.state, DbState::Open) {
            db.last = ErrorCode::InvalidOperation;
            return None;
        }
        match self.pos {
            CursorState::AtIndex(i) => {
                if i < db.store.len() {
                    let (_, v) = db.store.pair_at(i);
                    db.last = ErrorCode::Success;
                    Some(v)
                } else {
                    db.last = ErrorCode::InvalidOperation;
                    None
                }
            },
            _ => {
                db.last = ErrorCode::RecordNotFound;
                None
            },
        }
    }

    /// Writes `value` into the record the cursor stands at.  The placement
    /// mode states physical intent only: keys are unique, so each variant
    /// overwrites the current record's value and the logical content does
    /// not depend on the mode.
    pub fn put(&self, db: &mut TCBDB, value: &[u8], mode: CursorPutMode) -> (r: bool)
        requires
            old(db).wf(),
        ensures
            final(db).wf(),
            final(db).state == old(db).state,
            final(db).comparator() == old(db).comparator(),
            old(db).state != DbState::Open ==> !r && final(db).entries() == old(db).entries()
                && final(db).records() == old(db).records() && final(db).last
                == ErrorCode::InvalidOperation,
            old(db).state == DbState::Open ==> match self.pos {
                CursorState::AtIndex(i) => if i < old(db).entries().len() {
                    r && final(db).entries() == old(db).entries().update(
                        i as int,
                        (old(db).entries()[i as int].0, value@),
                    ) && final(db).records() == old(db).records().insert(
                        old(db).entries()[i as int].0,
                        value@,
                    ) && final(db).last == ErrorCode::Success
                } else {
                    !r && final(db).entries() == old(db).entries() && final(db).records() == old(db).records() && final(db).last == ErrorCode::InvalidOperation
                },
                _ => !r && final(db).entries() == old(db).entries() && final(db).records() == old(db).records() && final(db).last == ErrorCode::RecordNotFound,
            },
    {
        let _ = mode;
        if !matches!(db.state, DbState::Open) {
            db.last = ErrorCode::InvalidOperation;
            return false;
        }
        match self.pos {
            CursorState::AtIndex(i) => {
                if i < db.store.len() {
                    db.store.set_value_at(i, value);
                    db.last = ErrorCode::Success;
                    true
                } else {
                    db.last = ErrorCode::InvalidOperation;
                    false
                }
            },
            _ => {
                db.last = ErrorCode::RecordNotFound;
                false
            },
        }
    }

    /// Removes the record the cursor stands at and advances to the record
    /// after it, or becomes exhausted when none follows.
    pub fn out(&mut self, db: &mut TCBDB) -> (r: bool)
        requires
            old(db).wf(),
        ensures
            final(db).wf(),
            final(db).state == old(db).state,
            final(db).comparator() == old(db).comparator(),
            old(db).state != DbState::Open ==> !r && final(self).pos == old(self).pos && final(db).entries() == old(db).entries() && final(db).records() == old(db).records() && final(db).last == ErrorCode::InvalidOperation,
            old(db).state == DbState::Open ==> match old(self).pos {
                CursorState::AtIndex(i) => if i < old(db).entries().len() {
                    r && final(db).entries() == old(db).entries().remove(i as int) && final(db).records() == old(db).records().remove(old(db).entries()[i as int].0) && final(db).last == ErrorCode::Success && final(self).pos == (if i
                        < old(db).entries().len() - 1 {
                        CursorState::AtIndex(i)
                    } else {
                        CursorState::Exhausted
                    })
                } else {
                    !r && final(self).pos == old(self).pos && final(db).entries() == old(db).entries() && final(db).records() == old(db).records() && final(db).last
                        == ErrorCode::InvalidOperation
                },
                _ => !r && final(self).pos == old(self).pos && final(db).entries() == old(db).entries() && final(db).records() == old(db).records() && final(db).last
                    == ErrorCode::RecordNotFound,
            },
    {
        if !matches!(db.state, DbState::Open) {
            db.last = ErrorCode::InvalidOperation;
            return false;
        }
        match self.pos {
            CursorState::AtIndex(i) => {
                if i < db.store.len() {
                    db.store.remove_at(i);
                    if i < db.store.len() {
                        self.pos = CursorState::AtIndex(i);
                    } else {
                        self.pos = CursorState::Exhausted;
                    }
                    db.last = ErrorCode::Success;
                    true
                } else {
                    db.last = ErrorCode::InvalidOperation;
                    false
                }
            },
            _ => {
                db.last = ErrorCode::RecordNotFound;
                false
            },
        }
    }
}

/// An ordered handle's record map determines its traversal: two
/// well-formed handles sorted under the same comparator and holding the
/// same records are walked identically by cursors.  In particular, records
/// restored from a saved image are traversed in the order they had when
/// the image was saved.
pub proof fn lemma_records_determine_traversal(a: TCBDB, b: TCBDB)
    requires
        a.wf(),
        b.wf(),
        a.comparator() == b.comparator(),
        a.records() == b.records(),
    ensures
        a.entries() == b.entries(),
{
    crate::store::lemma_sorted_entries_unique(a.comparator(), a.entries(), b.entries());
}

/// A cursor walks exactly the handle's records: every position carries a
/// stored key with its stored value, and every stored key stands at some
/// position.
pub proof fn lemma_entries_cover_records(db: TCBDB)
    requires
        db.wf(),
    ensures
        forall|i: int|
            0 <= i < db.entries().len() ==> db.records().contains_key(#[trigger] db.entries()[i].0)
                && db.records()[db.entries()[i].0] == db.entries()[i].1,
        forall|k: Seq<u8>|
            db.records().contains_key(k) ==> exists|i: int|
                0 <= i < db.entries().len() && db.entries()[i].0 == k,
{
    crate::store::lemma_sorted_distinct(db.comparator(), db.entries());
    assert forall|i: int|
        0 <= i < db.entries().len() implies db.records().contains_key(
        #[trigger] db.entries()[i].0,
    ) && db.records()[db.entries()[i].0] == db.entries()[i].1 by {
        crate::model::lemma_kv_map_index(db.entries(), i);
    }
    assert forall|k: Seq<u8>| db.records().contains_key(k) implies exists|i: int|
        0 <= i < db.entries().len() && db.entries()[i].0 == k by {
        crate::model::lemma_kv_map_contains(db.entries(), k);
    }
}

/// Traversal through an ordered handle walks the records in comparator
/// order: the position of every record key is strictly ordered against the
/// positions that follow it.
pub proof fn lemma_traversal_sorted(db: TCBDB)
    requires
        db.wf(),
    ensures
        forall|i: int, j: int|
            0 <= i < j < db.entries().len() ==> key_lt(
                db.comparator(),
                db.entries()[i].0,
                db.entries()[j].0,
            ),
{
}

} // verus!

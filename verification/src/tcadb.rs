//! The storage abstraction: a thin facade that selects a backing engine
//! from a path specification and offers the uniform record surface.
//!
//! A name of `+` selects an in-memory ordered tree and `*` an in-memory
//! hashed table; a path ending in the tree suffix selects the ordered
//! engine against that path, and one ending in the hash suffix the hashed
//! engine.  Any other name is rejected.  Every record call issued before a
//! successful open fails deterministically.
use crate::errors::ErrorCode;
use crate::order::KeyOrder;
use crate::tcbdb::TCBDB;
use crate::tchdb::TCHDB;
use crate::tuning::OpenMode;
use crate::DbState;
use vstd::prelude::*;

verus! {

/// The reserved name selecting an in-memory ordered tree: `+`.
pub open spec fn mem_tree_name() -> Seq<u8> {
    seq![0x2bu8]
}

/// The reserved name selecting an in-memory hashed table: `*`.
pub open spec fn mem_hash_name() -> Seq<u8> {
    seq![0x2au8]
}

/// The file suffix selecting the ordered tree engine: `.tcb`.
pub open spec fn tree_suffix() -> Seq<u8> {
    seq![0x2eu8, 0x74u8, 0x63u8, 0x62u8]
}

/// The file suffix selecting the hashed engine: `.tch`.
pub open spec fn hash_suffix() -> Seq<u8> {
    seq![0x2eu8, 0x74u8, 0x63u8, 0x68u8]
}

/// Whether a name selects the ordered tree engine.
pub open spec fn spec_selects_tree(n: Seq<u8>) -> bool {
    n == mem_tree_name() || (n.len() >= 4 && n.skip(n.len() - 4) == tree_suffix())
}

/// Whether a name selects the hashed engine.
pub open spec fn spec_selects_hash(n: Seq<u8>) -> bool {
    n == mem_hash_name() || (n.len() >= 4 && n.skip(n.len() - 4) == hash_suffix())
}

/// No name selects both engines: the sentinels differ, and so do the last
/// bytes of the two suffixes.
pub proof fn lemma_name_selection_disjoint(n: Seq<u8>)
    ensures
        !(spec_selects_tree(n) && spec_selects_hash(n)),
{
    if spec_selects_tree(n) && spec_selects_hash(n) {
        if n == mem_tree_name() {
            assert(n.len() == 1);
            if n == mem_hash_name() {
                assert(n[0] == 0x2bu8 && n[0] == 0x2au8);
            }
        } else {
            assert(n.len() >= 4 && n.skip(n.len() - 4) == tree_suffix());
            assert(n.skip(n.len() - 4)[3] == 0x62u8);
            if n == mem_hash_name() {
                assert(n.len() == 1);
            } else {
                assert(n.skip(n.len() - 4) == hash_suffix());
                assert(n.skip(n.len() - 4)[3] == 0x68u8);
            }
        }
    }
}

/// The engine a facade handle delegates to once opened.
pub enum Backend {
    /// No engine chosen yet: the handle has not been opened.
    Missing,
    /// An ordered tree engine.
    Tree(TCBDB),
    /// A hashed engine.
    Hash(TCHDB),
}

/// The storage abstraction handle.
pub struct TCADB {
    /// The backing engine, once a name has chosen one.
    pub backend: Backend,
    /// The last outcome recorded on this handle.
    pub last: ErrorCode,
}

impl TCADB {
    /// The logical content: the backing engine's records, or the empty map
    /// before an engine exists.
    pub open spec fn records(self) -> Map<Seq<u8>, Seq<u8>> {
        match self.backend {
            Backend::Missing => Map::empty(),
            Backend::Tree(b) => b.records(),
            Backend::Hash(h) => h.records(),
        }
    }

    /// Whether the handle stands open.
    pub open spec fn is_open(self) -> bool {
        match self.backend {
            Backend::Missing => false,
            Backend::Tree(b) => b.state == DbState::Open,
            Backend::Hash(h) => h.state == DbState::Open,
        }
    }

    /// Well-formedness of the backing engine.
    pub open spec fn wf(self) -> bool {
        match self.backend {
            Backend::Missing => true,
            Backend::Tree(b) => b.wf(),
            Backend::Hash(h) => h.wf(),
        }
    }

    /// A handle with no engine chosen yet.
    pub fn new() -> (r: TCADB)
        ensures
            r.wf(),
            !r.is_open(),
            r.backend is Missing,
            r.records() == Map::<Seq<u8>, Seq<u8>>::empty(),
            r.last == ErrorCode::Success,
    {
        TCADB { backend: Backend::Missing, last: ErrorCode::Success }
    }

    /// The last outcome recorded on this handle.
    pub fn ecode(&self) -> (r: ErrorCode)
        ensures
            r == self.last,
    {
        self.last
    }

    /// Opens the handle against a name: a reserved in-memory sentinel or a
    /// path whose suffix picks the engine.  Succeeds exactly when no engine
    /// was chosen yet and the name selects one; there is no partial state
    /// on failure.
    pub fn open(&mut self, name: &[u8]) -> (r: bool)
        requires
            old(self).wf(),
        ensures
            final(self).wf(),
            r == (old(self).backend is Missing && (spec_selects_tree(name@) || spec_selects_hash(name@))),
            r ==> {
                &&& final(self).is_open()
                &&& final(self).records() == Map::<Seq<u8>, Seq<u8>>::empty()
                &&& (final(self).backend is Tree) == spec_selects_tree(name@)
                &&& (final(self).backend is Hash) == spec_selects_hash(name@)
                &&& final(self).last == ErrorCode::Success
            },
            !r ==> final(self).backend == old(self).backend && final(self).last
                == ErrorCode::InvalidOperation,
    {
        if !matches!(self.backend, Backend::Missing) {
            self.last = ErrorCode::InvalidOperation;
            return false;
        }
        if name_selects(name, 0x2bu8, 0x62u8) {
            proof {
                lemma_name_selection_disjoint(name@);
            }
            let mut b = TCBDB::new();
            let opened = b.open(name, OpenMode::writer_create());
            assert(opened);
            self.backend = Backend::Tree(b);
            self.last = ErrorCode::Success;
            true
        } else if name_selects(name, 0x2au8, 0x68u8) {
            let mut h = TCHDB::new();
            let opened = h.open(name, OpenMode::writer_create());
            assert(opened);
            self.backend = Backend::Hash(h);
            self.last = ErrorCode::Success;
            true
        } else {
            self.last = ErrorCode::InvalidOperation;
            false
        }
    }

    /// Closes the backing engine.  Fails exactly when the handle is not
    /// open.
    pub fn close(&mut self) -> (r: bool)
        requires
            old(self).wf(),
        ensures
            final(self).wf(),
            r == old(self).is_open(),
            final(self).records() == old(self).records(),
            !final(self).is_open(),
            r ==> final(self).last == ErrorCode::Success,
            !r ==> final(self).last == ErrorCode::InvalidOperation,
    {
        let ok: bool;
        match &mut self.backend {
            Backend::Missing => {
                ok = false;
            },
            Backend::Tree(b) => {
                ok = b.close();
            },
            Backend::Hash(h) => {
                ok = h.close();
            },
        }
        self.last = if ok {
            ErrorCode::Success
        } else {
            ErrorCode::InvalidOperation
        };
        ok
    }

    /// Stores a record, overwriting the value if the key is present.  Fails
    /// exactly when the handle is not open.
    pub fn put(&mut self, key: &[u8], value: &[u8]) -> (r: bool)
        requires
            old(self).wf(),
        ensures
            final(self).wf(),
            final(self).is_open() == old(self).is_open(),
            r == old(self).is_open(),
            r ==> final(self).records() == old(self).records().insert(key@, value@) && final(self).last == ErrorCode::Success,
            !r ==> final(self).records() == old(self).records() && final(self).last
                == ErrorCode::InvalidOperation,
    {
        let ok: bool;
        match &mut self.backend {
            Backend::Missing => {
                ok = false;
            },
            Backend::Tree(b) => {
                ok = b.put(key, value);
            },
            Backend::Hash(h) => {
                ok = h.put(key, value);
            },
        }
        self.last = if ok {
            ErrorCode::Success
        } else {
            ErrorCode::InvalidOperation
        };
        ok
    }

    /// Stores a record only if the key is absent; an existing record is
    /// left untouched and the call fails with
    /// [`ErrorCode::KeyAlreadyExists`].
    pub fn put_keep(&mut self, key: &[u8], value: &[u8]) -> (r: bool)
        requires
            old(self).wf(),
        ensures
            final(self).wf(),
            final(self).is_open() == old(self).is_open(),
            r == (old(self).is_open() && !old(self).records().contains_key(key@)),
            r ==> final(self).records() == old(self).records().insert(key@, value@) && final(self).last == ErrorCode::Success,
            !r ==> final(self).records() == old(self).records(),
            old(self).is_open() && old(self).records().contains_key(key@) ==> final(self).last
                == ErrorCode::KeyAlreadyExists,
            !old(self).is_open() ==> final(self).last == ErrorCode::InvalidOperation,
    {
        let ok: bool;
        let mut dup: bool = false;
        match &mut self.backend {
            Backend::Missing => {
                ok = false;
            },
            Backend::Tree(b) => {
                ok = b.put_keep(key, value);
                dup = matches!(b.ecode(), ErrorCode::KeyAlreadyExists);
            },
            Backend::Hash(h) => {
                ok = h.put_keep(key, value);
                dup = matches!(h.ecode(), ErrorCode::KeyAlreadyExists);
            },
        }
        self.last = if ok {
            ErrorCode::Success
        } else if dup {
            ErrorCode::KeyAlreadyExists
        } else {
            ErrorCode::InvalidOperation
        };
        ok
    }

    /// Removes the record carrying `key`.  Fails with
    /// [`ErrorCode::RecordNotFound`] when the key is absent.
    pub fn out(&mut self, key: &[u8]) -> (r: bool)
        requires
            old(self).wf(),
        ensures
            final(self).wf(),
            final(self).is_open() == old(self).is_open(),
            r == (old(self).is_open() && old(self).records().contains_key(key@)),
            r ==> final(self).records() == old(self).records().remove(key@) && final(self).last
                == ErrorCode::Success,
            !r ==> final(self).records() == old(self).records(),
            old(self).is_open() && !old(self).records().contains_key(key@) ==> final(self).last
                == ErrorCode::RecordNotFound,
            !old(self).is_open() ==> final(self).last == ErrorCode::InvalidOperation,
    {
        let ok: bool;
        let mut absent: bool = false;
        match &mut self.backend {
            Backend::Missing => {
                ok = false;
            },
            Backend::Tree(b) => {
                ok = b.out(key);
                absent = matches!(b.ecode(), ErrorCode::RecordNotFound);
            },
            Backend::Hash(h) => {
                ok = h.out(key);
                absent = matches!(h.ecode(), ErrorCode::RecordNotFound);
            },
        }
        self.last = if ok {
            ErrorCode::Success
        } else if absent {
            ErrorCode::RecordNotFound
        } else {
            ErrorCode::InvalidOperation
        };
        ok
    }

    /// Retrieves a copy of the value stored under `key`.  Absence is
    /// reported as [`ErrorCode::RecordNotFound`], not as a generic error.
    pub fn get(&mut self, key: &[u8]) -> (r: Option<Vec<u8>>)
        requires
            old(self).wf(),
        ensures
            final(self).wf(),
            final(self).is_open() == old(self).is_open(),
            final(self).records() == old(self).records(),
            match r {
                Some(v) => {
                    &&& old(self).is_open()
                    &&& old(self).records().contains_key(key@)
                    &&& v@ == old(self).records()[key@]
                    &&& final(self).last == ErrorCode::Success
                },
                None => {
                    &&& (old(self).is_open() && old(self).records().contains_key(key@)) == false
                    &&& old(self).is_open() ==> final(self).last == ErrorCode::RecordNotFound
                    &&& !old(self).is_open() ==> final(self).last == ErrorCode::InvalidOperation
                },
            },
    {
        let got: Option<Vec<u8>>;
        let mut absent: bool = false;
        match &mut self.backend {
            Backend::Missing => {
                got = None;
            },
            Backend::Tree(b) => {
                got = b.get(key);
                absent = matches!(b.ecode(), ErrorCode::RecordNotFound);
            },
            Backend::Hash(h) => {
                got = h.get(key);
                absent = matches!(h.ecode(), ErrorCode::RecordNotFound);
            },
        }
        self.last = if got.is_some() {
            ErrorCode::Success
        } else if absent {
            ErrorCode::RecordNotFound
        } else {
            ErrorCode::InvalidOperation
        };
        got
    }

    /// Flushes the backing engine to durable storage.  Fails exactly when
    /// the handle is not open.
    pub fn sync(&mut self) -> (r: bool)
        requires
            old(self).wf(),
        ensures
            final(self).wf(),
            final(self).is_open() == old(self).is_open(),
            final(self).records() == old(self).records(),
            r == old(self).is_open(),
            r ==> final(self).last == ErrorCode::Success,
            !r ==> final(self).last == ErrorCode::InvalidOperation,
    {
        let ok: bool;
        match &mut self.backend {
            Backend::Missing => {
                ok = false;
            },
            Backend::Tree(b) => {
                ok = b.sync();
            },
            Backend::Hash(h) => {
                ok = h.sync();
            },
        }
        self.last = if ok {
            ErrorCode::Success
        } else {
            ErrorCode::InvalidOperation
        };
        ok
    }

    /// Removes every record.  Fails exactly when the handle is not open.
    pub fn vanish(&mut self) -> (r: bool)
        requires
            old(self).wf(),
        ensures
            final(self).wf(),
            final(self).is_open() == old(self).is_open(),
            r == old(self).is_open(),
            r ==> final(self).records() == Map::<Seq<u8>, Seq<u8>>::empty() && final(self).last
                == ErrorCode::Success,
            !r ==> final(self).records() == old(self).records() && final(self).last
                == ErrorCode::InvalidOperation,
    {
        let ok: bool;
        match &mut self.backend {
            Backend::Missing => {
                ok = false;
            },
            Backend::Tree(b) => {
                ok = b.vanish();
            },
            Backend::Hash(h) => {
                ok = h.vanish();
            },
        }
        self.last = if ok {
            ErrorCode::Success
        } else {
            ErrorCode::InvalidOperation
        };
        ok
    }
}

/// Decides whether `name` selects the engine whose in-memory sentinel is
/// the byte `mem` and whose file suffix ends in the byte `tail` after
/// `.tc`.
fn name_selects(name: &[u8], mem: u8, tail: u8) -> (r: bool)
    ensures
        r == (name@ == seq![mem] || (name@.len() >= 4 && name@.skip(name@.len() - 4) == seq![
            0x2eu8,
            0x74u8,
            0x63u8,
            tail,
        ])),
{
    let n: usize = name.len();
    if n == 1 && *vstd::slice::slice_index_get(name, 0) == mem {
        proof {
            assert(name@ =~= seq![mem]);
        }
        return true;
    }
    if n >= 4 {
        let t = vstd::slice::slice_subrange(name, n - 4, n);
        let mut pat: Vec<u8> = Vec::new();
        pat.push(0x2eu8);
        pat.push(0x74u8);
        pat.push(0x63u8);
        pat.push(tail);
        let ord = crate::order::compare_bytes(t, pat.as_slice());
        proof {
            assert(t@ =~= name@.skip(name@.len() - 4));
            assert(pat@ =~= seq![0x2eu8, 0x74u8, 0x63u8, tail]);
        }
        if matches!(ord, KeyOrder::Equal) {
            return true;
        }
    }
    proof {
        if name@ == seq![mem] {
            assert(name@.len() == 1);
            assert(name@[0] == mem);
        }
    }
    false
}

} // verus!

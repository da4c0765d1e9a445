//! Tuning and option types: structured configuration for bucket sizing,
//! record alignment, compression choice, and open mode.
//!
//! Tuning is fixed at open time: the engines accept these calls only while
//! the handle is fresh.  The open mode is a set of named flags combined by
//! the caller and validated as a whole when the handle opens, not
//! incrementally.
use vstd::prelude::*;

verus! {

/// The compression selector applied to pages or records on disk.
#[derive(Clone, Copy, PartialEq, Eq, Structural, Debug)]
pub enum Compression {
    /// No compression.
    Plain,
    /// Compress each page with a Deflate-like scheme.
    Deflate,
    /// Compress each record with a BZIP-like scheme.
    Bzip,
    /// Compress each page with the engine's own block scheme.
    BlockCodec,
    /// Compress each record with caller-supplied outer functions.
    OuterCodec,
}

/// Structural options chosen at tuning time.
#[derive(Clone, Copy, PartialEq, Eq, Structural, Debug)]
pub struct TuningOptions {
    /// Use a 64-bit bucket array, for files over the 32-bit limit.
    pub large: bool,
    /// The compression selector.
    pub compression: Compression,
}

impl TuningOptions {
    /// The options a fresh handle starts with: a 32-bit bucket array and no
    /// compression.
    pub fn standard() -> (r: TuningOptions)
        ensures
            !r.large,
            r.compression == Compression::Plain,
    {
        TuningOptions { large: false, compression: Compression::Plain }
    }
}

/// The mode a handle is opened with: named access and locking flags.
#[derive(Clone, Copy, PartialEq, Eq, Structural, Debug)]
pub struct OpenMode {
    /// Open for reading.
    pub reader: bool,
    /// Open for writing.
    pub writer: bool,
    /// Create the storage if it is absent (writer only).
    pub create: bool,
    /// Truncate the storage on open (writer only).
    pub truncate: bool,
    /// Open without file locking.
    pub no_lock: bool,
    /// Fail at once instead of blocking when the lock is held.
    pub lock_nonblocking: bool,
    /// Flush to durable storage after every update.
    pub sync_every_tx: bool,
}

impl OpenMode {
    /// A consistent mode: exactly one of reader and writer, and the
    /// writer-only flags only together with writer.
    pub open spec fn spec_valid(self) -> bool {
        &&& self.reader || self.writer
        &&& !(self.reader && self.writer)
        &&& self.create ==> self.writer
        &&& self.truncate ==> self.writer
    }

    /// Checks whether the mode is consistent; an inconsistent mode is
    /// rejected at open time.
    pub fn is_valid(&self) -> (r: bool)
        ensures
            r == self.spec_valid(),
    {
        (self.reader || self.writer) && !(self.reader && self.writer) && (!self.create
            || self.writer) && (!self.truncate || self.writer)
    }

    /// A plain reader mode.
    pub fn reader() -> (r: OpenMode)
        ensures
            r.spec_valid(),
            r.reader,
            !r.writer,
            !r.create,
            !r.truncate,
            !r.no_lock,
            !r.lock_nonblocking,
            !r.sync_every_tx,
    {
        OpenMode {
            reader: true,
            writer: false,
            create: false,
            truncate: false,
            no_lock: false,
            lock_nonblocking: false,
            sync_every_tx: false,
        }
    }

    /// A writer mode that creates the storage if absent.
    pub fn writer_create() -> (r: OpenMode)
        ensures
            r.spec_valid(),
            !r.reader,
            r.writer,
            r.create,
            !r.truncate,
            !r.no_lock,
            !r.lock_nonblocking,
            !r.sync_every_tx,
    {
        OpenMode {
            reader: false,
            writer: true,
            create: true,
            truncate: false,
            no_lock: false,
            lock_nonblocking: false,
            sync_every_tx: false,
        }
    }
}

/// Structural parameters of the ordered tree engine, fixed at open time.
/// The hashed engine shares the bucket and alignment fields and ignores the
/// member counts, which are meaningless for it.
#[derive(Clone, Copy, PartialEq, Eq, Structural, Debug)]
pub struct TuningParams {
    /// Members per leaf page (tree engine only).
    pub leaf_members: i32,
    /// Members per non-leaf page (tree engine only).
    pub node_members: i32,
    /// Number of elements of the bucket array.
    pub bucket_count: i64,
    /// Record alignment as a power of two.
    pub record_align_pow: i8,
    /// Free-block pool size as a power of two.
    pub free_pool_pow: i8,
    /// The structural options.
    pub options: TuningOptions,
}

impl TuningParams {
    /// The parameters a fresh handle starts with; a non-positive field
    /// means the engine's built-in default.
    pub fn standard() -> (r: TuningParams)
        ensures
            r.leaf_members == 0,
            r.node_members == 0,
            r.bucket_count == 0,
            r.record_align_pow == 0,
            r.free_pool_pow == 0,
            !r.options.large,
            r.options.compression == Compression::Plain,
    {
        TuningParams {
            leaf_members: 0,
            node_members: 0,
            bucket_count: 0,
            record_align_pow: 0,
            free_pool_pow: 0,
            options: TuningOptions::standard(),
        }
    }
}

} // verus!

//! The error registry: a fixed enumeration of failure codes with stable
//! numeric values and a human-readable message lookup.
//!
//! Every fallible engine call records one of these codes on the handle it was
//! issued against; the caller retrieves it afterwards through the handle.
//! Codes are never stored in shared or global state, so independent handles
//! never race on error reporting.
use vstd::prelude::*;

verus! {

/// A failure (or success) code recorded on a handle after each operation.
#[derive(Clone, Copy, PartialEq, Eq, Structural, Debug)]
pub enum ErrorCode {
    /// The operation completed.
    Success,
    /// A threading primitive failed.
    ThreadingError,
    /// The operation was issued against a handle in the wrong lifecycle
    /// state, or with contradictory arguments.
    InvalidOperation,
    /// The storage file does not exist.
    FileNotFound,
    /// Permission on the storage file was denied.
    PermissionDenied,
    /// The stored meta data is corrupt.
    MetaDataCorrupt,
    /// A stored record header is corrupt.
    RecordHeaderCorrupt,
    /// Opening the storage failed.
    OpenFailed,
    /// Closing the storage failed.
    CloseFailed,
    /// Truncating the storage failed.
    TruncateFailed,
    /// Flushing to durable storage failed.
    SyncFailed,
    /// Interrogating the storage failed.
    StatFailed,
    /// Seeking in the storage failed.
    SeekFailed,
    /// Reading from the storage failed.
    ReadFailed,
    /// Writing to the storage failed.
    WriteFailed,
    /// Memory-mapping the storage failed.
    MmapFailed,
    /// Acquiring the file lock failed.
    LockFailed,
    /// Unlinking a storage file failed.
    UnlinkFailed,
    /// Renaming a storage file failed.
    RenameFailed,
    /// Creating a directory failed.
    MkdirFailed,
    /// Removing a directory failed.
    RmdirFailed,
    /// The key already exists and the operation refuses to overwrite.
    KeyAlreadyExists,
    /// No record was found for the key.
    RecordNotFound,
    /// A failure outside the other categories.
    Miscellaneous,
}

/// The stable numeric value of each code.
pub open spec fn spec_code_number(e: ErrorCode) -> u32 {
    match e {
        ErrorCode::Success => 0,
        ErrorCode::ThreadingError => 1,
        ErrorCode::InvalidOperation => 2,
        ErrorCode::FileNotFound => 3,
        ErrorCode::PermissionDenied => 4,
        ErrorCode::MetaDataCorrupt => 5,
        ErrorCode::RecordHeaderCorrupt => 6,
        ErrorCode::OpenFailed => 7,
        ErrorCode::CloseFailed => 8,
        ErrorCode::TruncateFailed => 9,
        ErrorCode::SyncFailed => 10,
        ErrorCode::StatFailed => 11,
        ErrorCode::SeekFailed => 12,
        ErrorCode::ReadFailed => 13,
        ErrorCode::WriteFailed => 14,
        ErrorCode::MmapFailed => 15,
        ErrorCode::LockFailed => 16,
        ErrorCode::UnlinkFailed => 17,
        ErrorCode::RenameFailed => 18,
        ErrorCode::MkdirFailed => 19,
        ErrorCode::RmdirFailed => 20,
        ErrorCode::KeyAlreadyExists => 21,
        ErrorCode::RecordNotFound => 22,
        ErrorCode::Miscellaneous => 9999,
    }
}

/// Returns the stable numeric value of `e`.
pub fn code_number(e: ErrorCode) -> (r: u32)
    ensures
        r == spec_code_number(e),
{
    match e {
        ErrorCode::Success => 0,
        ErrorCode::ThreadingError => 1,
        ErrorCode::InvalidOperation => 2,
        ErrorCode::FileNotFound => 3,
        ErrorCode::PermissionDenied => 4,
        ErrorCode::MetaDataCorrupt => 5,
        ErrorCode::RecordHeaderCorrupt => 6,
        ErrorCode::OpenFailed => 7,
        ErrorCode::CloseFailed => 8,
        ErrorCode::TruncateFailed => 9,
        ErrorCode::SyncFailed => 10,
        ErrorCode::StatFailed => 11,
        ErrorCode::SeekFailed => 12,
        ErrorCode::ReadFailed => 13,
        ErrorCode::WriteFailed => 14,
        ErrorCode::MmapFailed => 15,
        ErrorCode::LockFailed => 16,
        ErrorCode::UnlinkFailed => 17,
        ErrorCode::RenameFailed => 18,
        ErrorCode::MkdirFailed => 19,
        ErrorCode::RmdirFailed => 20,
        ErrorCode::KeyAlreadyExists => 21,
        ErrorCode::RecordNotFound => 22,
        ErrorCode::Miscellaneous => 9999,
    }
}

/// The human-readable message of each code.
pub open spec fn spec_error_message(e: ErrorCode) -> Seq<char> {
    match e {
        ErrorCode::Success => "success"@,
        ErrorCode::ThreadingError => "threading error"@,
        ErrorCode::InvalidOperation => "invalid operation"@,
        ErrorCode::FileNotFound => "file not found"@,
        ErrorCode::PermissionDenied => "no permission"@,
        ErrorCode::MetaDataCorrupt => "invalid meta data"@,
        ErrorCode::RecordHeaderCorrupt => "invalid record header"@,
        ErrorCode::OpenFailed => "open error"@,
        ErrorCode::CloseFailed => "close error"@,
        ErrorCode::TruncateFailed => "trunc error"@,
        ErrorCode::SyncFailed => "sync error"@,
        ErrorCode::StatFailed => "stat error"@,
        ErrorCode::SeekFailed => "seek error"@,
        ErrorCode::ReadFailed => "read error"@,
        ErrorCode::WriteFailed => "write error"@,
        ErrorCode::MmapFailed => "mmap error"@,
        ErrorCode::LockFailed => "lock error"@,
        ErrorCode::UnlinkFailed => "unlink error"@,
        ErrorCode::RenameFailed => "rename error"@,
        ErrorCode::MkdirFailed => "mkdir error"@,
        ErrorCode::RmdirFailed => "rmdir error"@,
        ErrorCode::KeyAlreadyExists => "existing record"@,
        ErrorCode::RecordNotFound => "no record found"@,
        ErrorCode::Miscellaneous => "miscellaneous error"@,
    }
}

/// Returns the human-readable message of `e`.
pub fn error_message(e: ErrorCode) -> (r: &'static str)
    ensures
        r@ == spec_error_message(e),
{
    match e {
        ErrorCode::Success => "success",
        ErrorCode::ThreadingError => "threading error",
        ErrorCode::InvalidOperation => "invalid operation",
        ErrorCode::FileNotFound => "file not found",
        ErrorCode::PermissionDenied => "no permission",
        ErrorCode::MetaDataCorrupt => "invalid meta data",
        ErrorCode::RecordHeaderCorrupt => "invalid record header",
        ErrorCode::OpenFailed => "open error",
        ErrorCode::CloseFailed => "close error",
        ErrorCode::TruncateFailed => "trunc error",
        ErrorCode::SyncFailed => "sync error",
        ErrorCode::StatFailed => "stat error",
        ErrorCode::SeekFailed => "seek error",
        ErrorCode::ReadFailed => "read error",
        ErrorCode::WriteFailed => "write error",
        ErrorCode::MmapFailed => "mmap error",
        ErrorCode::LockFailed => "lock error",
        ErrorCode::UnlinkFailed => "unlink error",
        ErrorCode::RenameFailed => "rename error",
        ErrorCode::MkdirFailed => "mkdir error",
        ErrorCode::RmdirFailed => "rmdir error",
        ErrorCode::KeyAlreadyExists => "existing record",
        ErrorCode::RecordNotFound => "no record found",
        ErrorCode::Miscellaneous => "miscellaneous error",
    }
}

} // verus!

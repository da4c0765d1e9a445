use tokyocabinet::errors::{code_number, error_message, ErrorCode};

#[test]
fn error_codes_have_stable_numbers() {
    assert_eq!(code_number(ErrorCode::Success), 0);
    assert_eq!(code_number(ErrorCode::ThreadingError), 1);
    assert_eq!(code_number(ErrorCode::InvalidOperation), 2);
    assert_eq!(code_number(ErrorCode::FileNotFound), 3);
    assert_eq!(code_number(ErrorCode::PermissionDenied), 4);
    assert_eq!(code_number(ErrorCode::MetaDataCorrupt), 5);
    assert_eq!(code_number(ErrorCode::RecordHeaderCorrupt), 6);
    assert_eq!(code_number(ErrorCode::OpenFailed), 7);
    assert_eq!(code_number(ErrorCode::CloseFailed), 8);
    assert_eq!(code_number(ErrorCode::TruncateFailed), 9);
    assert_eq!(code_number(ErrorCode::SyncFailed), 10);
    assert_eq!(code_number(ErrorCode::StatFailed), 11);
    assert_eq!(code_number(ErrorCode::SeekFailed), 12);
    assert_eq!(code_number(ErrorCode::ReadFailed), 13);
    assert_eq!(code_number(ErrorCode::WriteFailed), 14);
    assert_eq!(code_number(ErrorCode::MmapFailed), 15);
    assert_eq!(code_number(ErrorCode::LockFailed), 16);
    assert_eq!(code_number(ErrorCode::UnlinkFailed), 17);
    assert_eq!(code_number(ErrorCode::RenameFailed), 18);
    assert_eq!(code_number(ErrorCode::MkdirFailed), 19);
    assert_eq!(code_number(ErrorCode::RmdirFailed), 20);
    assert_eq!(code_number(ErrorCode::KeyAlreadyExists), 21);
    assert_eq!(code_number(ErrorCode::RecordNotFound), 22);
    assert_eq!(code_number(ErrorCode::Miscellaneous), 9999);
}

#[test]
fn error_codes_have_messages() {
    assert_eq!(error_message(ErrorCode::Success), "success");
    assert_eq!(error_message(ErrorCode::ThreadingError), "threading error");
    assert_eq!(error_message(ErrorCode::InvalidOperation), "invalid operation");
    assert_eq!(error_message(ErrorCode::FileNotFound), "file not found");
    assert_eq!(error_message(ErrorCode::PermissionDenied), "no permission");
    assert_eq!(error_message(ErrorCode::MetaDataCorrupt), "invalid meta data");
    assert_eq!(error_message(ErrorCode::RecordHeaderCorrupt), "invalid record header");
    assert_eq!(error_message(ErrorCode::OpenFailed), "open error");
    assert_eq!(error_message(ErrorCode::CloseFailed), "close error");
    assert_eq!(error_message(ErrorCode::TruncateFailed), "trunc error");
    assert_eq!(error_message(ErrorCode::SyncFailed), "sync error");
    assert_eq!(error_message(ErrorCode::StatFailed), "stat error");
    assert_eq!(error_message(ErrorCode::SeekFailed), "seek error");
    assert_eq!(error_message(ErrorCode::ReadFailed), "read error");
    assert_eq!(error_message(ErrorCode::WriteFailed), "write error");
    assert_eq!(error_message(ErrorCode::MmapFailed), "mmap error");
    assert_eq!(error_message(ErrorCode::LockFailed), "lock error");
    assert_eq!(error_message(ErrorCode::UnlinkFailed), "unlink error");
    assert_eq!(error_message(ErrorCode::RenameFailed), "rename error");
    assert_eq!(error_message(ErrorCode::MkdirFailed), "mkdir error");
    assert_eq!(error_message(ErrorCode::RmdirFailed), "rmdir error");
    assert_eq!(error_message(ErrorCode::KeyAlreadyExists), "existing record");
    assert_eq!(error_message(ErrorCode::RecordNotFound), "no record found");
    assert_eq!(error_message(ErrorCode::Miscellaneous), "miscellaneous error");
}

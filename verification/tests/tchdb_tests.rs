use tokyocabinet::errors::ErrorCode;
use tokyocabinet::tchdb::TCHDB;
use tokyocabinet::tuning::{OpenMode, TuningOptions};

fn open_hash() -> TCHDB {
    let mut db = TCHDB::new();
    assert!(db.open(b"test.tch", OpenMode::writer_create()));
    db
}

#[test]
fn tchdb_test_new_del() {
    let db = TCHDB::new();
    assert!(matches!(db.ecode(), ErrorCode::Success));
    drop(db);
}

#[test]
fn tchdb_test_fail_put_with_no_open_call() {
    let mut db = TCHDB::new();
    assert!(matches!(db.ecode(), ErrorCode::Success));
    let k = b"hello";
    let v = b"world";
    assert!(!db.put(k, v));
    drop(db);
}

#[test]
fn tchdb_test_with_basics() {
    let mut db = TCHDB::new();
    assert!(matches!(db.ecode(), ErrorCode::Success));

    if !db.open(b".tchdb_test_with_basics.tch", OpenMode::writer_create()) {
        let ecode = db.ecode();
        let errmsg = tokyocabinet::errors::error_message(ecode);
        println!("{:?}: {:?}", ecode, errmsg);
        assert!(false);
    }
    let k = b"hello";
    let v = b"world";
    assert!(db.put(k, v));
    let v2 = db.get(k);
    assert!(v2.is_some());
    let v2 = v2.unwrap();
    assert_eq!(v.len(), v2.len());
    assert_eq!(v.as_slice(), v2.as_slice());

    assert!(db.close());
    drop(db);
}

#[test]
fn tchdb_zero_length_keys_and_values() {
    let mut db = open_hash();
    assert!(db.put(b"", b""));
    assert_eq!(db.get(b"").unwrap(), Vec::<u8>::new());
    assert!(db.put(b"k", b""));
    assert_eq!(db.get(b"k").unwrap(), Vec::<u8>::new());
}

#[test]
fn tchdb_put_keep_existing_fails_and_preserves() {
    let mut db = open_hash();
    assert!(db.put_keep(b"k", b"first"));
    assert!(!db.put_keep(b"k", b"second"));
    assert!(matches!(db.ecode(), ErrorCode::KeyAlreadyExists));
    assert_eq!(db.get(b"k").unwrap(), b"first".to_vec());
}

#[test]
fn tchdb_out_then_get_reports_record_not_found() {
    let mut db = open_hash();
    assert!(db.put(b"k", b"v"));
    assert!(db.out(b"k"));
    assert!(db.get(b"k").is_none());
    assert!(matches!(db.ecode(), ErrorCode::RecordNotFound));
    assert!(!db.out(b"k"));
    assert!(matches!(db.ecode(), ErrorCode::RecordNotFound));
}

#[test]
fn tchdb_vanish_then_get_reports_record_not_found() {
    let mut db = open_hash();
    assert!(db.put(b"a", b"1"));
    assert!(db.put(b"b", b"2"));
    assert!(db.vanish());
    assert!(db.get(b"a").is_none());
    assert!(matches!(db.ecode(), ErrorCode::RecordNotFound));
    assert!(db.get(b"b").is_none());
    assert!(matches!(db.ecode(), ErrorCode::RecordNotFound));
}

#[test]
fn tchdb_tune_after_open_rejected() {
    let mut db = TCHDB::new();
    assert!(db.tune(0, 0, 131071, 4, 10, TuningOptions::standard()));
    assert!(db.open(b"tuned.tch", OpenMode::writer_create()));
    assert!(!db.tune(0, 0, 65521, 4, 10, TuningOptions::standard()));
    assert!(matches!(db.ecode(), ErrorCode::InvalidOperation));
}

#[test]
fn tchdb_fresh_only_knobs_after_open_rejected() {
    let mut db = TCHDB::new();
    assert!(db.set_cache(1024, 512));
    assert!(db.set_xmsiz(1 << 16));
    assert!(db.set_dfunit(8));
    assert!(db.set_mutex());
    assert!(db.open(b"knobs.tch", OpenMode::writer_create()));
    assert!(!db.set_cache(1, 1));
    assert!(!db.set_xmsiz(1));
    assert!(!db.set_dfunit(1));
    assert!(!db.set_mutex());
    assert!(matches!(db.ecode(), ErrorCode::InvalidOperation));
}

#[test]
fn tchdb_open_rejects_contradictory_mode() {
    let mut db = TCHDB::new();
    let mut mode = OpenMode::reader();
    mode.writer = true;
    assert!(!db.open(b"bad.tch", mode));
    assert!(matches!(db.ecode(), ErrorCode::InvalidOperation));
}

#[test]
fn tchdb_thousand_records_persist_across_reopen() {
    // Open a hashed engine for writing, insert a thousand records with
    // unique keys, flush, and keep the byte image the caller would write
    // to the path.
    let mut db = TCHDB::new();
    assert!(db.open(b"bulk.tch", OpenMode::writer_create()));
    for i in 0..1000u32 {
        let key = format!("key-{:04}", i).into_bytes();
        let value = format!("value-{}", i * 7).into_bytes();
        assert!(db.put(&key, &value));
    }
    assert!(db.sync());
    let image = db.save_image().unwrap();
    assert!(db.close());

    // Reopen reader-only at the same path and load what was persisted:
    // every record comes back with its original value.
    let mut reader = TCHDB::new();
    assert!(reader.open(b"bulk.tch", OpenMode::reader()));
    assert!(reader.load_image(&image));
    for i in 0..1000u32 {
        let key = format!("key-{:04}", i).into_bytes();
        let expected = format!("value-{}", i * 7).into_bytes();
        assert_eq!(reader.get(&key).unwrap(), expected);
    }
    assert!(reader.close());
}

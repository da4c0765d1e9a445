use tokyocabinet::errors::ErrorCode;
use tokyocabinet::tcadb::TCADB;

#[test]
fn tcadb_test_new_del() {
    let db = TCADB::new();
    assert!(matches!(db.ecode(), ErrorCode::Success));
    drop(db);
}

#[test]
fn tcadb_test_fail_put_with_no_open_call() {
    let mut db = TCADB::new();
    assert!(matches!(db.ecode(), ErrorCode::Success));
    let k = b"hello";
    let v = b"world";
    assert!(!db.put(k, v));
    drop(db);
}

#[test]
fn tcadb_test_with_basics() {
    let mut db = TCADB::new();
    assert!(matches!(db.ecode(), ErrorCode::Success));

    // "+" is the reserved name for the in-memory ordered tree.
    assert!(db.open(b"+"));
    let k = b"hello";
    let v = b"world";
    assert!(db.put(k, v));
    let v2 = db.get(k);
    assert!(v2.is_some());
    let v2 = v2.unwrap();
    assert_eq!(v.len(), v2.len());
    assert_eq!(v.as_slice(), v2.as_slice());

    assert!(db.close());
    drop(db);
}

#[test]
fn tcadb_open_mem_hash() {
    let mut db = TCADB::new();
    assert!(db.open(b"*"));
    assert!(db.put(b"k", b"v"));
    assert_eq!(db.get(b"k").unwrap(), b"v".to_vec());
    assert!(db.close());
}

#[test]
fn tcadb_open_by_suffix() {
    let mut tree = TCADB::new();
    assert!(tree.open(b"some/path/data.tcb"));
    assert!(tree.put(b"a", b"1"));
    assert!(tree.close());

    let mut hash = TCADB::new();
    assert!(hash.open(b"some/path/data.tch"));
    assert!(hash.put(b"a", b"1"));
    assert!(hash.close());
}

#[test]
fn tcadb_open_rejects_unknown_name() {
    let mut db = TCADB::new();
    assert!(!db.open(b"plain-name-without-suffix"));
    assert!(matches!(db.ecode(), ErrorCode::InvalidOperation));
    assert!(!db.put(b"k", b"v"));
}

#[test]
fn tcadb_open_twice_rejected() {
    let mut db = TCADB::new();
    assert!(db.open(b"+"));
    assert!(!db.open(b"*"));
    assert!(matches!(db.ecode(), ErrorCode::InvalidOperation));
}

#[test]
fn tcadb_put_keep_and_out() {
    let mut db = TCADB::new();
    assert!(db.open(b"+"));
    assert!(db.put_keep(b"k", b"first"));
    assert!(!db.put_keep(b"k", b"second"));
    assert!(matches!(db.ecode(), ErrorCode::KeyAlreadyExists));
    assert_eq!(db.get(b"k").unwrap(), b"first".to_vec());

    assert!(db.out(b"k"));
    assert!(db.get(b"k").is_none());
    assert!(matches!(db.ecode(), ErrorCode::RecordNotFound));
    assert!(!db.out(b"k"));
    assert!(matches!(db.ecode(), ErrorCode::RecordNotFound));
}

#[test]
fn tcadb_vanish_and_sync() {
    let mut db = TCADB::new();
    assert!(db.open(b"*"));
    assert!(db.put(b"a", b"1"));
    assert!(db.put(b"b", b"2"));
    assert!(db.sync());
    assert!(db.vanish());
    assert!(db.get(b"a").is_none());
    assert!(matches!(db.ecode(), ErrorCode::RecordNotFound));
    assert!(db.get(b"b").is_none());
    assert!(matches!(db.ecode(), ErrorCode::RecordNotFound));
}

#[test]
fn tcadb_crud_after_close_fails() {
    let mut db = TCADB::new();
    assert!(db.open(b"+"));
    assert!(db.put(b"k", b"v"));
    assert!(db.close());
    assert!(!db.put(b"k", b"w"));
    assert!(matches!(db.ecode(), ErrorCode::InvalidOperation));
    assert!(db.get(b"k").is_none());
    assert!(matches!(db.ecode(), ErrorCode::InvalidOperation));
    assert!(!db.vanish());
    assert!(!db.sync());
    assert!(!db.out(b"k"));
}

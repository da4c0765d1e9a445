use tokyocabinet::errors::ErrorCode;
use tokyocabinet::order::Comparator;
use tokyocabinet::tcbdb::{CursorPutMode, TCBDB, TCBDBCUR};
use tokyocabinet::tuning::{OpenMode, TuningOptions};

fn open_tree() -> TCBDB {
    let mut db = TCBDB::new();
    assert!(db.open(b"test.tcb", OpenMode::writer_create()));
    db
}

#[test]
fn tcbdb_test_new_del() {
    let db = TCBDB::new();
    assert!(matches!(db.ecode(), ErrorCode::Success));
    drop(db);
}

#[test]
fn tcbdb_test_fail_put_with_no_open_call() {
    let mut db = TCBDB::new();
    assert!(matches!(db.ecode(), ErrorCode::Success));
    let k = b"hello";
    let v = b"world";
    assert!(!db.put(k, v));
    drop(db);
}

#[test]
fn tcbdb_test_with_basics() {
    let mut db = TCBDB::new();
    assert!(matches!(db.ecode(), ErrorCode::Success));

    if !db.open(b".tcbdb_test_with_basics.tcb", OpenMode::writer_create()) {
        let ecode = db.ecode();
        let errmsg = tokyocabinet::errors::error_message(ecode);
        println!("{:?}: {:?}", ecode, errmsg);
        assert!(false);
    }
    let k = b"hello";
    let v = b"world";
    assert!(db.put(k, v));
    let v2 = db.get(k);
    assert!(v2.is_some());
    let v2 = v2.unwrap();
    assert_eq!(v.len(), v2.len());
    assert_eq!(v.as_slice(), v2.as_slice());

    assert!(db.close());
    drop(db);
}

#[test]
fn tcbdb_zero_length_keys_and_values() {
    let mut db = open_tree();
    assert!(db.put(b"", b""));
    assert_eq!(db.get(b"").unwrap(), Vec::<u8>::new());
    assert!(db.put(b"", b"x"));
    assert_eq!(db.get(b"").unwrap(), b"x".to_vec());
    assert!(db.put(b"k", b""));
    assert_eq!(db.get(b"k").unwrap(), Vec::<u8>::new());
}

#[test]
fn tcbdb_put_overwrites() {
    let mut db = open_tree();
    assert!(db.put(b"k", b"one"));
    assert!(db.put(b"k", b"two"));
    assert_eq!(db.get(b"k").unwrap(), b"two".to_vec());
}

#[test]
fn tcbdb_put_keep_existing_fails_and_preserves() {
    let mut db = open_tree();
    assert!(db.put_keep(b"k", b"first"));
    assert!(!db.put_keep(b"k", b"second"));
    assert!(matches!(db.ecode(), ErrorCode::KeyAlreadyExists));
    assert_eq!(db.get(b"k").unwrap(), b"first".to_vec());
}

#[test]
fn tcbdb_out_then_get_reports_record_not_found() {
    let mut db = open_tree();
    assert!(db.put(b"k", b"v"));
    assert!(db.out(b"k"));
    assert!(db.get(b"k").is_none());
    assert!(matches!(db.ecode(), ErrorCode::RecordNotFound));
}

#[test]
fn tcbdb_vanish_then_get_reports_record_not_found() {
    let mut db = open_tree();
    assert!(db.put(b"a", b"1"));
    assert!(db.put(b"b", b"2"));
    assert!(db.put(b"c", b"3"));
    assert!(db.vanish());
    for k in [b"a", b"b", b"c"] {
        assert!(db.get(k).is_none());
        assert!(matches!(db.ecode(), ErrorCode::RecordNotFound));
    }
}

#[test]
fn tcbdb_tune_after_open_rejected() {
    let mut db = TCBDB::new();
    assert!(db.tune(128, 256, 32749, 8, 10, TuningOptions::standard()));
    assert!(db.open(b"tuned.tcb", OpenMode::writer_create()));
    assert!(!db.tune(64, 128, 131071, 4, 10, TuningOptions::standard()));
    assert!(matches!(db.ecode(), ErrorCode::InvalidOperation));
}

#[test]
fn tcbdb_fresh_only_knobs_after_open_rejected() {
    let mut db = TCBDB::new();
    assert!(db.set_cache(1024, 512));
    assert!(db.set_xmsiz(1 << 16));
    assert!(db.set_dfunit(8));
    assert!(db.set_mutex());
    assert!(db.set_comparator(Comparator::Lexical));
    assert!(db.open(b"knobs.tcb", OpenMode::writer_create()));
    assert!(!db.set_cache(1, 1));
    assert!(!db.set_xmsiz(1));
    assert!(!db.set_dfunit(1));
    assert!(!db.set_mutex());
    assert!(!db.set_comparator(Comparator::ReverseLexical));
    assert!(matches!(db.ecode(), ErrorCode::InvalidOperation));
}

#[test]
fn tcbdb_open_rejects_contradictory_mode() {
    let mut db = TCBDB::new();
    let mut mode = OpenMode::reader();
    mode.writer = true;
    assert!(!db.open(b"bad.tcb", mode));
    assert!(matches!(db.ecode(), ErrorCode::InvalidOperation));

    let mut db2 = TCBDB::new();
    let mut mode2 = OpenMode::reader();
    mode2.create = true;
    assert!(!db2.open(b"bad.tcb", mode2));
}

#[test]
fn tcbdb_cursor_iterates_in_default_order() {
    let mut db = open_tree();
    assert!(db.put(b"a", b"1"));
    assert!(db.put(b"c", b"3"));
    assert!(db.put(b"b", b"2"));

    let mut cur = TCBDBCUR::new();
    assert!(cur.first(&mut db));
    assert_eq!(cur.get_key(&mut db).unwrap(), b"a".to_vec());
    assert_eq!(cur.get_value(&mut db).unwrap(), b"1".to_vec());
    assert!(cur.next(&mut db));
    assert_eq!(cur.get_key(&mut db).unwrap(), b"b".to_vec());
    assert!(cur.next(&mut db));
    assert_eq!(cur.get_key(&mut db).unwrap(), b"c".to_vec());
    assert!(!cur.next(&mut db));
    assert!(matches!(db.ecode(), ErrorCode::RecordNotFound));
    // Exhaustion is idempotent: stepping again keeps failing.
    assert!(!cur.next(&mut db));
    assert!(matches!(db.ecode(), ErrorCode::RecordNotFound));
}

#[test]
fn tcbdb_cursor_last_and_prev() {
    let mut db = open_tree();
    assert!(db.put(b"a", b"1"));
    assert!(db.put(b"b", b"2"));
    assert!(db.put(b"c", b"3"));

    let mut cur = TCBDBCUR::new();
    assert!(cur.last(&mut db));
    assert_eq!(cur.get_key(&mut db).unwrap(), b"c".to_vec());
    assert!(cur.prev(&mut db));
    assert_eq!(cur.get_key(&mut db).unwrap(), b"b".to_vec());
    assert!(cur.prev(&mut db));
    assert_eq!(cur.get_key(&mut db).unwrap(), b"a".to_vec());
    assert!(!cur.prev(&mut db));
    assert!(matches!(db.ecode(), ErrorCode::RecordNotFound));
}

#[test]
fn tcbdb_cursor_jump() {
    let mut db = open_tree();
    assert!(db.put(b"apple", b"1"));
    assert!(db.put(b"berry", b"2"));
    assert!(db.put(b"cherry", b"3"));

    let mut cur = TCBDBCUR::new();
    assert!(cur.jump(&mut db, b"berry"));
    assert_eq!(cur.get_key(&mut db).unwrap(), b"berry".to_vec());
    // A missed jump fails with record-not-found and keeps the position.
    assert!(!cur.jump(&mut db, b"durian"));
    assert!(matches!(db.ecode(), ErrorCode::RecordNotFound));
    assert_eq!(cur.get_key(&mut db).unwrap(), b"berry".to_vec());
}

#[test]
fn tcbdb_cursor_on_empty_tree() {
    let mut db = open_tree();
    let mut cur = TCBDBCUR::new();
    assert!(!cur.first(&mut db));
    assert!(matches!(db.ecode(), ErrorCode::RecordNotFound));
    assert!(cur.get_key(&mut db).is_none());
    let mut cur2 = TCBDBCUR::new();
    assert!(!cur2.last(&mut db));
}

#[test]
fn tcbdb_cursor_unpositioned_reads_fail() {
    let mut db = open_tree();
    assert!(db.put(b"a", b"1"));
    let cur = TCBDBCUR::new();
    assert!(cur.get_key(&mut db).is_none());
    assert!(matches!(db.ecode(), ErrorCode::RecordNotFound));
    assert!(cur.get_value(&mut db).is_none());
}

#[test]
fn tcbdb_cursor_put_overwrites_current() {
    let mut db = open_tree();
    assert!(db.put(b"a", b"1"));
    assert!(db.put(b"b", b"2"));

    let mut cur = TCBDBCUR::new();
    assert!(cur.first(&mut db));
    assert!(cur.put(&mut db, b"one", CursorPutMode::AtCurrent));
    assert_eq!(db.get(b"a").unwrap(), b"one".to_vec());
    // Placement intent does not change the logical content.
    assert!(cur.put(&mut db, b"uno", CursorPutMode::Before));
    assert_eq!(db.get(b"a").unwrap(), b"uno".to_vec());
    assert!(cur.put(&mut db, b"eins", CursorPutMode::After));
    assert_eq!(db.get(b"a").unwrap(), b"eins".to_vec());
    assert_eq!(db.get(b"b").unwrap(), b"2".to_vec());
}

#[test]
fn tcbdb_cursor_out_advances() {
    let mut db = open_tree();
    assert!(db.put(b"a", b"1"));
    assert!(db.put(b"b", b"2"));
    assert!(db.put(b"c", b"3"));

    let mut cur = TCBDBCUR::new();
    assert!(cur.first(&mut db));
    assert!(cur.out(&mut db));
    // The cursor now stands at the record after the removed one.
    assert_eq!(cur.get_key(&mut db).unwrap(), b"b".to_vec());
    assert!(db.get(b"a").is_none());
    assert!(cur.out(&mut db));
    assert_eq!(cur.get_key(&mut db).unwrap(), b"c".to_vec());
    assert!(cur.out(&mut db));
    // Removing the final record exhausts the cursor.
    assert!(cur.get_key(&mut db).is_none());
    assert!(matches!(db.ecode(), ErrorCode::RecordNotFound));
    assert!(!cur.out(&mut db));
}

#[test]
fn tcbdb_reverse_comparator_orders_backwards() {
    let mut db = TCBDB::new();
    assert!(db.set_comparator(Comparator::ReverseLexical));
    assert!(db.open(b"rev.tcb", OpenMode::writer_create()));
    assert!(db.put(b"a", b"1"));
    assert!(db.put(b"c", b"3"));
    assert!(db.put(b"b", b"2"));

    let mut cur = TCBDBCUR::new();
    assert!(cur.first(&mut db));
    assert_eq!(cur.get_key(&mut db).unwrap(), b"c".to_vec());
    assert!(cur.next(&mut db));
    assert_eq!(cur.get_key(&mut db).unwrap(), b"b".to_vec());
    assert!(cur.next(&mut db));
    assert_eq!(cur.get_key(&mut db).unwrap(), b"a".to_vec());
    assert!(!cur.next(&mut db));
}

#[test]
fn tcbdb_prefix_sorts_before_extension() {
    let mut db = open_tree();
    assert!(db.put(b"ab", b"2"));
    assert!(db.put(b"a", b"1"));
    let mut cur = TCBDBCUR::new();
    assert!(cur.first(&mut db));
    assert_eq!(cur.get_key(&mut db).unwrap(), b"a".to_vec());
    assert!(cur.next(&mut db));
    assert_eq!(cur.get_key(&mut db).unwrap(), b"ab".to_vec());
}

#[test]
fn tcbdb_close_twice_rejected() {
    let mut db = open_tree();
    assert!(db.close());
    assert!(!db.close());
    assert!(matches!(db.ecode(), ErrorCode::InvalidOperation));
}

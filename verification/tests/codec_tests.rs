use tokyocabinet::errors::ErrorCode;
use tokyocabinet::tcbdb::{TCBDB, TCBDBCUR};
use tokyocabinet::tchdb::TCHDB;
use tokyocabinet::tuning::OpenMode;

fn open_hash() -> TCHDB {
    let mut db = TCHDB::new();
    assert!(db.open(b"image.tch", OpenMode::writer_create()));
    db
}

#[test]
fn image_round_trip_restores_records() {
    let mut db = open_hash();
    assert!(db.put(b"alpha", b"1"));
    assert!(db.put(b"beta", b"22"));
    assert!(db.put(b"gamma", b"333"));
    let image = db.save_image().unwrap();

    let mut other = open_hash();
    assert!(other.load_image(&image));
    assert_eq!(other.get(b"alpha").unwrap(), b"1".to_vec());
    assert_eq!(other.get(b"beta").unwrap(), b"22".to_vec());
    assert_eq!(other.get(b"gamma").unwrap(), b"333".to_vec());
}

#[test]
fn image_round_trip_empty_store() {
    let mut db = open_hash();
    let image = db.save_image().unwrap();
    let mut other = open_hash();
    assert!(other.put(b"stale", b"x"));
    assert!(other.load_image(&image));
    // Loading replaces the records wholesale.
    assert!(other.get(b"stale").is_none());
}

#[test]
fn image_round_trip_zero_length_key_and_value() {
    let mut db = open_hash();
    assert!(db.put(b"", b""));
    assert!(db.put(b"k", b""));
    assert!(db.put(b"", b"v"));
    let image = db.save_image().unwrap();
    let mut other = open_hash();
    assert!(other.load_image(&image));
    assert_eq!(other.get(b"").unwrap(), b"v".to_vec());
    assert_eq!(other.get(b"k").unwrap(), Vec::<u8>::new());
}

#[test]
fn image_round_trip_tree_keeps_order() {
    let mut db = TCBDB::new();
    assert!(db.open(b"image.tcb", OpenMode::writer_create()));
    assert!(db.put(b"b", b"2"));
    assert!(db.put(b"a", b"1"));
    assert!(db.put(b"c", b"3"));
    let image = db.save_image().unwrap();

    let mut other = TCBDB::new();
    assert!(other.open(b"copy.tcb", OpenMode::writer_create()));
    assert!(other.load_image(&image));
    let mut cur = TCBDBCUR::new();
    assert!(cur.first(&mut other));
    assert_eq!(cur.get_key(&mut other).unwrap(), b"a".to_vec());
    assert!(cur.next(&mut other));
    assert_eq!(cur.get_key(&mut other).unwrap(), b"b".to_vec());
    assert!(cur.next(&mut other));
    assert_eq!(cur.get_key(&mut other).unwrap(), b"c".to_vec());
}

#[test]
fn image_with_bad_tag_is_meta_corrupt() {
    let mut db = open_hash();
    assert!(db.put(b"k", b"v"));
    let mut image = db.save_image().unwrap();
    image[0] ^= 0xff;

    let mut other = open_hash();
    assert!(!other.load_image(&image));
    assert!(matches!(other.ecode(), ErrorCode::MetaDataCorrupt));
    // The rejected image leaves the records untouched.
    assert!(other.get(b"k").is_none());
}

#[test]
fn image_too_short_is_meta_corrupt() {
    let mut other = open_hash();
    assert!(!other.load_image(b"short"));
    assert!(matches!(other.ecode(), ErrorCode::MetaDataCorrupt));
}

#[test]
fn truncated_image_is_record_header_corrupt() {
    let mut db = open_hash();
    assert!(db.put(b"key", b"value"));
    let image = db.save_image().unwrap();
    let truncated = &image[..image.len() - 3];

    let mut other = open_hash();
    assert!(!other.load_image(truncated));
    assert!(matches!(other.ecode(), ErrorCode::RecordHeaderCorrupt));
}

#[test]
fn image_with_trailing_bytes_is_record_header_corrupt() {
    let mut db = open_hash();
    assert!(db.put(b"key", b"value"));
    let mut image = db.save_image().unwrap();
    image.push(0u8);

    let mut other = open_hash();
    assert!(!other.load_image(&image));
    assert!(matches!(other.ecode(), ErrorCode::RecordHeaderCorrupt));
}

#[test]
fn image_functions_require_open_handle() {
    let mut db = TCHDB::new();
    assert!(db.save_image().is_none());
    assert!(matches!(db.ecode(), ErrorCode::InvalidOperation));
    assert!(!db.load_image(b""));
    assert!(matches!(db.ecode(), ErrorCode::InvalidOperation));
}

use tokyocabinet::order::{compare_bytes, KeyOrder};
use tokyocabinet::tcutil::{TCLIST, TCXSTR};
use tokyocabinet::tuning::OpenMode;

#[test]
fn tcxstr_concat_and_clear() {
    let mut x = TCXSTR::new();
    assert_eq!(x.size(), 0);
    x.concat(b"hello");
    x.concat(b" ");
    x.concat(b"world");
    assert_eq!(x.size(), 11);
    assert_eq!(x.as_bytes(), b"hello world");
    x.clear();
    assert_eq!(x.size(), 0);
    assert_eq!(x.as_bytes(), b"");
}

#[test]
fn tclist_push_pop_val() {
    let mut l = TCLIST::new();
    assert_eq!(l.num(), 0);
    l.push(b"one");
    l.push(b"two");
    l.push(b"three");
    assert_eq!(l.num(), 3);
    assert_eq!(l.val(0).unwrap(), b"one".to_vec());
    assert_eq!(l.val(2).unwrap(), b"three".to_vec());
    assert!(l.val(3).is_none());
    assert_eq!(l.pop().unwrap(), b"three".to_vec());
    assert_eq!(l.num(), 2);
    assert_eq!(l.pop().unwrap(), b"two".to_vec());
    assert_eq!(l.pop().unwrap(), b"one".to_vec());
    assert!(l.pop().is_none());
}

#[test]
fn tclist_unshift_insert_remove_over() {
    let mut l = TCLIST::new();
    l.push(b"b");
    l.unshift(b"a");
    assert!(l.insert(2, b"c"));
    assert!(!l.insert(9, b"x"));
    assert_eq!(l.val(0).unwrap(), b"a".to_vec());
    assert_eq!(l.val(1).unwrap(), b"b".to_vec());
    assert_eq!(l.val(2).unwrap(), b"c".to_vec());

    assert!(l.over(1, b"bee"));
    assert_eq!(l.val(1).unwrap(), b"bee".to_vec());
    assert!(!l.over(7, b"x"));

    assert_eq!(l.remove(1).unwrap(), b"bee".to_vec());
    assert_eq!(l.num(), 2);
    assert!(l.remove(5).is_none());

    l.clear();
    assert_eq!(l.num(), 0);
}

#[test]
fn tclist_lsearch_finds_first_match() {
    let mut l = TCLIST::new();
    l.push(b"x");
    l.push(b"needle");
    l.push(b"y");
    l.push(b"needle");
    assert_eq!(l.lsearch(b"needle"), Some(1));
    assert_eq!(l.lsearch(b"x"), Some(0));
    assert_eq!(l.lsearch(b"missing"), None);
}

#[test]
fn tclist_sort_orders_and_keeps_duplicates() {
    let mut l = TCLIST::new();
    l.push(b"pear");
    l.push(b"apple");
    l.push(b"orange");
    l.push(b"apple");
    l.push(b"banana");
    l.sort();
    assert_eq!(l.num(), 5);
    assert_eq!(l.val(0).unwrap(), b"apple".to_vec());
    assert_eq!(l.val(1).unwrap(), b"apple".to_vec());
    assert_eq!(l.val(2).unwrap(), b"banana".to_vec());
    assert_eq!(l.val(3).unwrap(), b"orange".to_vec());
    assert_eq!(l.val(4).unwrap(), b"pear".to_vec());
}

#[test]
fn tclist_sort_empty_and_single() {
    let mut l = TCLIST::new();
    l.sort();
    assert_eq!(l.num(), 0);
    l.push(b"only");
    l.sort();
    assert_eq!(l.val(0).unwrap(), b"only".to_vec());
}

#[test]
fn tclist_bsearch_on_sorted_list() {
    let mut l = TCLIST::new();
    l.push(b"delta");
    l.push(b"alpha");
    l.push(b"echo");
    l.push(b"bravo");
    l.push(b"charlie");
    l.sort();
    for key in [&b"alpha"[..], b"bravo", b"charlie", b"delta", b"echo"] {
        let i = l.bsearch(key).unwrap();
        assert_eq!(l.val(i).unwrap(), key.to_vec());
    }
    assert!(l.bsearch(b"foxtrot").is_none());
    assert!(l.bsearch(b"").is_none());
}

#[test]
fn tclist_dump_load_round_trip() {
    let mut l = TCLIST::new();
    l.push(b"one");
    l.push(b"");
    l.push(b"three");
    let dump = l.dump();
    let loaded = TCLIST::load(&dump).unwrap();
    assert_eq!(loaded.num(), 3);
    assert_eq!(loaded.val(0).unwrap(), b"one".to_vec());
    assert_eq!(loaded.val(1).unwrap(), Vec::<u8>::new());
    assert_eq!(loaded.val(2).unwrap(), b"three".to_vec());
}

#[test]
fn tclist_load_rejects_malformed_dumps() {
    assert!(TCLIST::load(b"short").is_none());
    let mut l = TCLIST::new();
    l.push(b"element");
    let mut dump = l.dump();
    // A truncated frame is rejected.
    dump.pop();
    assert!(TCLIST::load(&dump).is_none());
    // Trailing garbage is rejected too.
    let mut dump2 = l.dump();
    dump2.push(7u8);
    assert!(TCLIST::load(&dump2).is_none());
}

#[test]
fn compare_bytes_orders_lexicographically() {
    assert!(matches!(compare_bytes(b"a", b"b"), KeyOrder::Less));
    assert!(matches!(compare_bytes(b"b", b"a"), KeyOrder::Greater));
    assert!(matches!(compare_bytes(b"abc", b"abc"), KeyOrder::Equal));
    assert!(matches!(compare_bytes(b"", b"a"), KeyOrder::Less));
    assert!(matches!(compare_bytes(b"a", b""), KeyOrder::Greater));
    assert!(matches!(compare_bytes(b"", b""), KeyOrder::Equal));
    assert!(matches!(compare_bytes(b"ab", b"abc"), KeyOrder::Less));
    assert!(matches!(compare_bytes(b"abd", b"abc"), KeyOrder::Greater));
}

#[test]
fn open_mode_validity() {
    assert!(OpenMode::reader().is_valid());
    assert!(OpenMode::writer_create().is_valid());

    let mut both = OpenMode::reader();
    both.writer = true;
    assert!(!both.is_valid());

    let mut neither = OpenMode::reader();
    neither.reader = false;
    assert!(!neither.is_valid());

    let mut creating_reader = OpenMode::reader();
    creating_reader.create = true;
    assert!(!creating_reader.is_valid());

    let mut truncating_reader = OpenMode::reader();
    truncating_reader.truncate = true;
    assert!(!truncating_reader.is_valid());
}

use jsonwatcher::FingerprintTable;

#[test]
fn first_fingerprint_of_a_field_is_news() {
    let mut table = FingerprintTable::new();
    assert!(table.get("status").is_none());
    assert!(table.update("status", vec![1, 2, 3]));
    assert_eq!(table.get("status"), Some(&vec![1, 2, 3]));
}

#[test]
fn same_fingerprint_is_no_news() {
    let mut table = FingerprintTable::new();
    table.update("status", vec![1, 2, 3]);
    assert!(!table.update("status", vec![1, 2, 3]));
    assert_eq!(table.get("status"), Some(&vec![1, 2, 3]));
}

#[test]
fn other_fingerprint_is_news_and_replaces() {
    let mut table = FingerprintTable::new();
    table.update("status", vec![1, 2, 3]);
    assert!(table.update("status", vec![1, 2, 4]));
    assert_eq!(table.get("status"), Some(&vec![1, 2, 4]));
    assert!(table.update("status", vec![1, 2]));
    assert!(table.update("status", vec![]));
    assert!(!table.update("status", vec![]));
}

#[test]
fn fields_do_not_share_an_entry() {
    let mut table = FingerprintTable::new();
    table.update("a", vec![7]);
    assert!(table.update("b", vec![7]));
    assert!(table.update("A", vec![7]));
    assert!(!table.update("a", vec![7]));
    assert_eq!(table.get("b"), Some(&vec![7]));
    assert!(table.get("c").is_none());
}

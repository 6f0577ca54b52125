use pallet_stream::store::{bytes_eq, bytes_to_vec, Table};

#[test]
fn bytes_are_equal_when_all_of_them_are() {
    assert!(bytes_eq(b"", b""));
    assert!(bytes_eq(b"abc", b"abc"));
    assert!(!bytes_eq(b"abc", b"abd"));
    assert!(!bytes_eq(b"abc", b"ab"));
    assert!(!bytes_eq(b"", b"a"));
}

#[test]
fn copy_holds_the_same_bytes() {
    assert_eq!(bytes_to_vec(b"stream"), b"stream".to_vec());
    assert_eq!(bytes_to_vec(b""), Vec::<u8>::new());
}

#[test]
fn empty_table_maps_nothing() {
    let table: Table<Vec<u8>> = Table::new();
    assert!(!table.contains_key(b"a"));
    assert_eq!(table.get(b"a"), None);
}

#[test]
fn inserted_key_is_found_with_its_value() {
    let mut table: Table<Vec<u8>> = Table::new();
    table.insert(b"a".to_vec(), b"one".to_vec());
    table.insert(b"b".to_vec(), b"two".to_vec());
    assert!(table.contains_key(b"a"));
    assert_eq!(table.get(b"a"), Some(&b"one".to_vec()));
    assert_eq!(table.get(b"b"), Some(&b"two".to_vec()));
    assert_eq!(table.get(b"c"), None);
}

#[test]
fn second_insert_replaces_the_value() {
    let mut table: Table<Vec<u8>> = Table::new();
    table.insert(b"a".to_vec(), b"one".to_vec());
    table.insert(b"b".to_vec(), b"two".to_vec());
    table.insert(b"a".to_vec(), b"uno".to_vec());
    assert_eq!(table.get(b"a"), Some(&b"uno".to_vec()));
    assert_eq!(table.get(b"b"), Some(&b"two".to_vec()));
}

#[test]
fn removed_key_is_gone_and_others_stay() {
    let mut table: Table<Vec<u8>> = Table::new();
    table.insert(b"a".to_vec(), b"one".to_vec());
    table.insert(b"b".to_vec(), b"two".to_vec());
    table.insert(b"c".to_vec(), b"three".to_vec());
    table.remove(b"b");
    assert!(!table.contains_key(b"b"));
    assert_eq!(table.get(b"a"), Some(&b"one".to_vec()));
    assert_eq!(table.get(b"c"), Some(&b"three".to_vec()));
    table.remove(b"missing");
    assert_eq!(table.get(b"a"), Some(&b"one".to_vec()));
    assert_eq!(table.get(b"c"), Some(&b"three".to_vec()));
}

#[test]
fn key_that_is_a_prefix_of_another_is_another_key() {
    let mut table: Table<Vec<u8>> = Table::new();
    table.insert(b"ab".to_vec(), b"short".to_vec());
    table.insert(b"abc".to_vec(), b"long".to_vec());
    assert_eq!(table.get(b"ab"), Some(&b"short".to_vec()));
    assert_eq!(table.get(b"abc"), Some(&b"long".to_vec()));
    assert_eq!(table.get(b"a"), None);
}

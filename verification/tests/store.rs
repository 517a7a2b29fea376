use std::path::PathBuf;

use geostore::ImageStore;
use geostore::StoreError;
use geostore::check_name;
use geostore::check_qualifier;
use geostore::make_key;

fn empty_store() -> ImageStore {
    ImageStore::new(PathBuf::from("images"))
}

#[test]
fn round_trip_default_variant() {
    let mut st = empty_store();
    assert_eq!(st.store_image("1.txt", b"hello".to_vec(), None), Ok(()));
    assert_eq!(st.read_image("1.txt", None), Ok(b"hello".to_vec()));
}

#[test]
fn round_trip_qualified_variant() {
    let mut st = empty_store();
    assert_eq!(st.store_image("1.txt", b"hello".to_vec(), None), Ok(()));
    assert_eq!(st.store_image("1.txt", b"namaste".to_vec(), Some("IN")), Ok(()));
    assert_eq!(st.read_image("1.txt", Some("IN".to_string())), Ok(b"namaste".to_vec()));
}

#[test]
fn round_trip_empty_bytes() {
    let mut st = empty_store();
    assert_eq!(st.store_image("empty.bin", Vec::new(), None), Ok(()));
    assert_eq!(st.read_image("empty.bin", None), Ok(Vec::new()));
}

#[test]
fn scenario_fallback_between_countries() {
    let mut st = empty_store();
    assert_eq!(st.store_image("1.txt", b"hello".to_vec(), None), Ok(()));
    assert_eq!(st.store_image("1.txt", b"namaste".to_vec(), Some("IN")), Ok(()));
    assert_eq!(st.read_image("1.txt", Some("IN".to_string())), Ok(b"namaste".to_vec()));
    assert_eq!(st.read_image("1.txt", Some("US".to_string())), Ok(b"hello".to_vec()));
    assert_eq!(st.read_image("1.txt", None), Ok(b"hello".to_vec()));
}

#[test]
fn scenario_missing_resource_is_not_found() {
    let st = empty_store();
    assert_eq!(st.read_image("missing.txt", Some("US".to_string())), Err(StoreError::NotFound));
}

#[test]
fn existence_gate_blocks_orphan_variants() {
    let mut st = empty_store();
    assert_eq!(st.store_image("x.png", b"qualified".to_vec(), Some("IN")), Ok(()));
    assert_eq!(st.read_image("x.png", Some("IN".to_string())), Err(StoreError::NotFound));
    assert_eq!(st.read_image("x.png", None), Err(StoreError::NotFound));
}

#[test]
fn repeated_identical_store_is_idempotent() {
    let mut st = empty_store();
    assert_eq!(st.store_image("a.txt", b"one".to_vec(), Some("DE")), Ok(()));
    assert_eq!(st.store_image("a.txt", b"one".to_vec(), Some("DE")), Ok(()));
    assert_eq!(st.store_image("a.txt", b"base".to_vec(), None), Ok(()));
    assert_eq!(st.read_image("a.txt", Some("DE".to_string())), Ok(b"one".to_vec()));
}

#[test]
fn overwrite_replaces_bytes_entirely() {
    let mut st = empty_store();
    assert_eq!(st.store_image("a.txt", b"base".to_vec(), None), Ok(()));
    assert_eq!(st.store_image("a.txt", b"first".to_vec(), Some("DE")), Ok(()));
    assert_eq!(st.store_image("a.txt", b"second!".to_vec(), Some("DE")), Ok(()));
    assert_eq!(st.read_image("a.txt", Some("DE".to_string())), Ok(b"second!".to_vec()));
}

#[test]
fn qualified_write_never_touches_default() {
    let mut st = empty_store();
    assert_eq!(st.store_image("a.txt", b"base".to_vec(), None), Ok(()));
    assert_eq!(st.store_image("a.txt", b"other".to_vec(), Some("FR")), Ok(()));
    assert_eq!(st.read_image("a.txt", None), Ok(b"base".to_vec()));
}

#[test]
fn traversal_names_are_rejected() {
    let mut st = empty_store();
    assert_eq!(st.store_image("../etc", b"x".to_vec(), None), Err(StoreError::IOFailure));
    assert_eq!(st.store_image("a/b", b"x".to_vec(), None), Err(StoreError::IOFailure));
    assert_eq!(st.store_image("a\\b", b"x".to_vec(), None), Err(StoreError::IOFailure));
    assert_eq!(st.store_image("", b"x".to_vec(), None), Err(StoreError::IOFailure));
    assert_eq!(st.store_image(".", b"x".to_vec(), None), Err(StoreError::IOFailure));
    assert_eq!(st.store_image("..", b"x".to_vec(), None), Err(StoreError::IOFailure));
    assert_eq!(st.read_image("../etc", None), Err(StoreError::IOFailure));
}

#[test]
fn bad_qualifiers_are_rejected() {
    let mut st = empty_store();
    assert_eq!(st.store_image("a.txt", b"x".to_vec(), Some("U/S")), Err(StoreError::IOFailure));
    assert_eq!(st.store_image("a.txt", b"x".to_vec(), Some("")), Err(StoreError::IOFailure));
    assert_eq!(st.read_image("a.txt", Some("U/S".to_string())), Err(StoreError::IOFailure));
}

#[test]
fn rejected_store_leaves_contents_unchanged() {
    let mut st = empty_store();
    assert_eq!(st.store_image("a.txt", b"base".to_vec(), None), Ok(()));
    assert_eq!(st.store_image("a/b", b"evil".to_vec(), None), Err(StoreError::IOFailure));
    assert_eq!(st.read_image("a.txt", None), Ok(b"base".to_vec()));
}

#[test]
fn keys_compose_flat_sibling_names() {
    assert_eq!(make_key("1.txt", None).as_str(), "1.txt");
    assert_eq!(make_key("1.txt", Some("IN")).as_str(), "IN-1.txt");
    assert_eq!(make_key("photo.png", Some("US")).as_str(), "US-photo.png");
}

#[test]
fn lookup_exact_sees_each_address_separately() {
    let mut st = empty_store();
    assert_eq!(st.store_image("1.txt", b"hello".to_vec(), None), Ok(()));
    assert_eq!(st.store_image("1.txt", b"namaste".to_vec(), Some("IN")), Ok(()));
    assert_eq!(st.lookup_exact(&"1.txt".to_string()), Some(b"hello".to_vec()));
    assert_eq!(st.lookup_exact(&"IN-1.txt".to_string()), Some(b"namaste".to_vec()));
    assert_eq!(st.lookup_exact(&"US-1.txt".to_string()), None);
}

#[test]
fn name_and_qualifier_validation() {
    assert!(check_name("ok.txt"));
    assert!(check_name("...")); // only "." and ".." are relative segments
    assert!(!check_name("."));
    assert!(!check_name(".."));
    assert!(!check_name("a/b"));
    assert!(!check_name("a\\b"));
    assert!(!check_name(""));
    assert!(check_qualifier("US"));
    assert!(check_qualifier("IN"));
    assert!(!check_qualifier(""));
    assert!(!check_qualifier("U/S"));
}

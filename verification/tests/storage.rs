use pastebin::store::PasteStore;
use pastebin::store::Strategy;
use pastebin::store::StoreError;

#[test]
fn round_trip_random() {
    let mut store = PasteStore::new(Strategy::RandomIndirection);
    let id = store.store(b"hello");
    assert_eq!(store.load(&id).unwrap(), b"hello".to_vec());
}

#[test]
fn round_trip_content() {
    let mut store = PasteStore::new(Strategy::ContentHash);
    let id = store.store(b"hello");
    assert_eq!(store.load(&id).unwrap(), b"hello".to_vec());
}

#[test]
fn round_trip_many_pastes() {
    let mut store = PasteStore::new(Strategy::RandomIndirection);
    let id1 = store.store(b"first");
    let id2 = store.store(b"second");
    let id3 = store.store(b"third");
    assert_eq!(store.load(&id1).unwrap(), b"first".to_vec());
    assert_eq!(store.load(&id2).unwrap(), b"second".to_vec());
    assert_eq!(store.load(&id3).unwrap(), b"third".to_vec());
}

#[test]
fn content_store_is_idempotent() {
    let mut store = PasteStore::new(Strategy::ContentHash);
    let id1 = store.store(b"same bytes");
    let id2 = store.store(b"same bytes");
    assert_eq!(id1, id2);
    assert_eq!(store.load(&id1).unwrap(), b"same bytes".to_vec());
}

#[test]
fn unknown_identifier_random() {
    let store = PasteStore::new(Strategy::RandomIndirection);
    assert_eq!(store.load(b"nonexistent-id").unwrap_err(), StoreError::NotFound);
}

#[test]
fn unknown_identifier_content() {
    let store = PasteStore::new(Strategy::ContentHash);
    assert_eq!(store.load(b"nonexistent-id").unwrap_err(), StoreError::NotFound);
}

#[test]
fn content_identifier_is_fnv_hash_hex() {
    let mut store = PasteStore::new(Strategy::ContentHash);
    let id = store.store(b"hello");
    assert_eq!(id, b"a430d84680aabd0b".to_vec());
}

#[test]
fn content_identifier_of_empty_content_is_offset_basis() {
    let mut store = PasteStore::new(Strategy::ContentHash);
    let id = store.store(b"");
    assert_eq!(id, b"cbf29ce484222325".to_vec());
}

#[test]
fn random_identifier_is_hyphenated_token() {
    let mut store = PasteStore::new(Strategy::RandomIndirection);
    let id = store.store(b"anything");
    assert_eq!(id.len(), 36);
    for (i, b) in id.iter().enumerate() {
        if i == 8 || i == 13 || i == 18 || i == 23 {
            assert_eq!(*b, b'-');
        } else {
            assert!(b.is_ascii_hexdigit() && !b.is_ascii_uppercase());
        }
    }
}

#[test]
fn random_identifiers_differ_between_uploads() {
    let mut store = PasteStore::new(Strategy::RandomIndirection);
    let id1 = store.store(b"hello");
    let id2 = store.store(b"hello");
    // 128 random bits: a collision here would be a broken generator
    assert_ne!(id1, id2);
    assert_eq!(store.load(&id1).unwrap(), b"hello".to_vec());
    assert_eq!(store.load(&id2).unwrap(), b"hello".to_vec());
}

#[test]
fn content_overwrite_keeps_content_bound_to_key() {
    let mut store = PasteStore::new(Strategy::ContentHash);
    let id1 = store.store(b"alpha");
    let id2 = store.store(b"beta");
    assert_ne!(id1, id2);
    assert_eq!(store.load(&id1).unwrap(), b"alpha".to_vec());
    assert_eq!(store.load(&id2).unwrap(), b"beta".to_vec());
}

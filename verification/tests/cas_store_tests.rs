use musicfs::cas::{CasConfig, CasError};
use musicfs::cas_store::CasStore;
use musicfs::types::ChunkHash;

fn config(max_size: u64) -> CasConfig {
    CasConfig { chunks_dir: "/tmp/cas/chunks".to_string(), max_size, shard_levels: 2 }
}

#[test]
fn put_then_has_chunk_and_size() {
    let mut store = CasStore::new(config(0));
    let data = b"hello world";
    let hash = store.put(data).unwrap();
    assert_eq!(hash, ChunkHash::from_bytes(data));
    assert!(store.has_chunk(&hash));
    assert_eq!(store.current_size(), data.len() as u64);
    assert_eq!(store.list_chunks(), vec![hash]);
}

#[test]
fn put_same_chunk_twice_stores_once() {
    let mut store = CasStore::new(config(0));
    let h1 = store.put(b"same").unwrap();
    let h2 = store.put(b"same").unwrap();
    assert_eq!(h1, h2);
    assert_eq!(store.current_size(), 4);
    let stats = store.dedup_stats();
    assert_eq!(stats.chunks_stored, 1);
    assert_eq!(stats.chunks_unique, 1);
    assert_eq!(stats.size_bytes, 4);
}

#[test]
fn put_rejected_when_full() {
    let mut store = CasStore::new(config(10));
    store.put(b"12345678").unwrap();
    match store.put(b"abc") {
        Err(CasError::StoreFull { current, max }) => {
            assert_eq!(current, 8);
            assert_eq!(max, 10);
        },
        _ => panic!("expected a full store"),
    }
    assert_eq!(store.current_size(), 8);
    store.put(b"ab").unwrap();
    assert_eq!(store.current_size(), 10);
}

#[test]
fn delete_undoes_put() {
    let mut store = CasStore::new(config(0));
    let keep = store.put(b"keep").unwrap();
    let gone = store.put(b"gone!").unwrap();
    store.delete(&gone);
    assert!(!store.has_chunk(&gone));
    assert!(store.has_chunk(&keep));
    assert_eq!(store.current_size(), 4);
    store.delete(&gone);
    assert_eq!(store.current_size(), 4);
}

#[test]
fn locate_and_check_read() {
    let mut store = CasStore::new(config(100));
    let hash = store.put(b"chunk").unwrap();
    let path = store.locate(&hash).unwrap();
    assert!(path.starts_with("/tmp/cas/chunks/"));
    assert!(path.ends_with(&hash.as_hex()));
    let missing = ChunkHash([1, 2, 3, 4, 5, 6, 7, 8]);
    match store.locate(&missing) {
        Err(CasError::NotFound(h)) => assert_eq!(h, "0102030405060708"),
        _ => panic!("expected not found"),
    }
    assert!(store.check_read(&hash, b"chunk").is_ok());
    assert!(store.check_read(&hash, b"other").is_err());
    let unlimited = CasStore::new(config(0));
    assert!(unlimited.check_read(&hash, b"other").is_ok());
}

#[test]
fn record_existing_counts_size() {
    let mut store = CasStore::new(config(0));
    let h = ChunkHash([9; 8]);
    store.record_existing(h, 100);
    store.record_existing(h, 100);
    assert_eq!(store.current_size(), 100);
    assert!(store.has_chunk(&h));
    assert_eq!(store.max_size(), 0);
}

fn test_store() -> CasStore {
    CasStore::new(CasConfig { chunks_dir: "/tmp/store/chunks".to_string(), max_size: 1024 * 1024, shard_levels: 2 })
}

#[test]
fn test_cas_put_get() {
    let mut store = test_store();

    let data = b"test chunk data";
    let hash = store.put(data).unwrap();

    let retrieved = store.get(&hash, Some(&data[..])).unwrap();
    assert_eq!(&retrieved[..], data);
}

#[test]
fn test_cas_dedup() {
    let mut store = test_store();

    let data = b"duplicate data";
    let hash1 = store.put(data).unwrap();
    let hash2 = store.put(data).unwrap();

    assert_eq!(hash1, hash2);
}

#[test]
fn test_cas_exists() {
    let mut store = test_store();

    let data = b"existence test";
    let hash = store.put(data).unwrap();

    assert!(store.has_chunk(&hash));

    let fake_hash = ChunkHash::from_bytes(b"nonexistent");
    assert!(!store.has_chunk(&fake_hash));
}

#[test]
fn test_cas_delete() {
    let mut store = test_store();

    let data = b"delete me";
    let hash = store.put(data).unwrap();

    assert!(store.has_chunk(&hash));

    store.delete(&hash);

    assert!(!store.has_chunk(&hash));
}

#[test]
fn test_cas_integrity() {
    let mut store = test_store();

    let data = b"integrity test";
    let hash = store.put(data).unwrap();

    let retrieved = store.get(&hash, Some(&data[..])).unwrap();
    assert_eq!(&retrieved[..], data);
    assert!(matches!(store.get(&hash, Some(&b"tampered"[..])), Err(CasError::IntegrityError { .. })));
}

#[test]
fn test_cas_dedup_stats() {
    let mut store = test_store();

    store.put(b"chunk1").unwrap();
    store.put(b"chunk2").unwrap();
    store.put(b"chunk1").unwrap();

    let stats = store.dedup_stats();
    assert_eq!(stats.chunks_stored, 2);
    assert_eq!(stats.chunks_unique, 2);
}

#[test]
fn cas_store_get_after_put_gives_back_bytes() {
    let mut store = test_store();
    let data = b"written once";
    let hash = store.put(data).unwrap();
    assert_eq!(store.get(&hash, Some(&data[..])).unwrap(), data.to_vec());
    match store.get(&hash, Some(&b"altered"[..])) {
        Err(CasError::IntegrityError { expected, .. }) => assert_eq!(expected, hash.as_hex()),
        other => panic!("unexpected: {:?}", other),
    }
    let absent = ChunkHash::from_bytes(b"never stored");
    match store.get(&absent, None) {
        Err(CasError::NotFound(h)) => assert_eq!(h, absent.as_hex()),
        other => panic!("unexpected: {:?}", other),
    }
}

use musicfs::cas::{
    chunk_hash_of_key, dedup_stats, put_step, verify_integrity, CasConfig, CasError, PutStep,
    DEFAULT_MAX_SIZE,
};
use musicfs::types::{ChunkHash, ContentHash};

#[test]
fn test_chunk_hash_from_bytes() {
    let data = b"hello world";
    let hash = ChunkHash::from_bytes(data);
    assert_eq!(hash.as_hex().len(), 16);
}

#[test]
fn test_chunk_hash_deterministic() {
    let data = b"test data";
    let hash1 = ChunkHash::from_bytes(data);
    let hash2 = ChunkHash::from_bytes(data);
    assert_eq!(hash1, hash2);
}

#[test]
fn test_chunk_hash_hex_roundtrip() {
    let data = b"roundtrip test";
    let hash = ChunkHash::from_bytes(data);
    let hex = hash.as_hex();
    let restored = ChunkHash::from_hex(&hex).unwrap();
    assert_eq!(hash, restored);
}

#[test]
fn test_content_hash() {
    let data = b"hello world";
    let hash1 = ContentHash::from_bytes(data);
    let hash2 = ContentHash::from_bytes(data);
    assert_eq!(hash1, hash2);

    let hash3 = ContentHash::from_bytes(b"different");
    assert_ne!(hash1, hash3);
}

// Own tests.

#[test]
fn cas_hash_known_value() {
    // XXH64 of the empty input with seed 0 is 0xEF46DB3751D8E999.
    let h = ChunkHash::from_bytes(b"");
    assert_eq!(h.0, 0xEF46DB3751D8E999u64.to_le_bytes());
    assert_eq!(h.as_hex(), "99e9d85137db46ef");
    assert_eq!(h.to_hex(), h.as_hex());
    assert_eq!(ContentHash::from_bytes(b"").to_hex(), "99e9d85137db46ef");
}

#[test]
fn cas_from_hex_rejects() {
    assert_eq!(ChunkHash::from_hex("abc"), None);
    assert_eq!(ChunkHash::from_hex("zz00000000000000"), None);
    assert_eq!(ChunkHash::from_hex("0011"), None);
    assert_eq!(
        ChunkHash::from_hex("00112233445566AA"),
        Some(ChunkHash([0x00, 0x11, 0x22, 0x33, 0x44, 0x55, 0x66, 0xaa]))
    );
}

#[test]
fn cas_chunk_path_shards() {
    let config = CasConfig {
        chunks_dir: "/cache/chunks".to_string(),
        max_size: 100,
        shard_levels: 2,
    };
    let h = ChunkHash([0xab, 0xcd, 0xef, 0, 0, 0, 0, 1]);
    assert_eq!(config.chunk_path(&h), "/cache/chunks/ab/cd/abcdef0000000001");

    let flat = CasConfig { chunks_dir: "/c/".to_string(), max_size: 0, shard_levels: 0 };
    assert_eq!(flat.chunk_path(&h), "/c/abcdef0000000001");

    let deep = CasConfig { chunks_dir: "d".to_string(), max_size: 0, shard_levels: 9 };
    assert_eq!(
        deep.chunk_path(&h),
        "d/ab/cd/ef/00/00/00/00/01/abcdef0000000001"
    );
}

#[test]
fn cas_default_config() {
    let c = CasConfig::under_cache_dir("/home/u/.cache");
    assert_eq!(c.chunks_dir, "/home/u/.cache/musicfs/chunks");
    assert_eq!(c.max_size, DEFAULT_MAX_SIZE);
    assert_eq!(c.shard_levels, 2);
}

#[test]
fn cas_put_decisions() {
    assert_eq!(put_step(true, 90, 20, 100).unwrap(), PutStep::DedupHit);
    assert_eq!(put_step(false, 80, 20, 100).unwrap(), PutStep::Write);
    assert_eq!(put_step(false, u64::MAX, u64::MAX, 0).unwrap(), PutStep::Write);
    match put_step(false, 90, 20, 100) {
        Err(CasError::StoreFull { current, max }) => {
            assert_eq!((current, max), (90, 100));
        }
        other => panic!("unexpected {:?}", other),
    }
}

#[test]
fn cas_integrity() {
    let h = ChunkHash::from_bytes(b"abc");
    assert!(verify_integrity(&h, b"abc").is_ok());
    match verify_integrity(&h, b"abd") {
        Err(CasError::IntegrityError { expected, actual }) => {
            assert_eq!(expected, h.as_hex());
            assert_eq!(actual, ChunkHash::from_bytes(b"abd").as_hex());
        }
        other => panic!("unexpected {:?}", other),
    }
}

#[test]
fn cas_keys_and_stats() {
    assert_eq!(chunk_hash_of_key(&[1, 2, 3]), None);
    assert_eq!(chunk_hash_of_key(&[1, 2, 3, 4, 5, 6, 7, 8]), Some(ChunkHash([1, 2, 3, 4, 5, 6, 7, 8])));
    let s = dedup_stats(2, 12, 1024);
    assert_eq!((s.chunks_stored, s.chunks_unique, s.size_bytes, s.size_limit_bytes), (2, 2, 12, 1024));
    assert_eq!(
        CasError::StoreFull { current: 5, max: 4 }.message(),
        "Store full: 5 / 4 bytes"
    );
}

use musicfs::cas::{CasConfig, CasError};
use musicfs::faulty_cas::FaultyCasStore;

fn test_store() -> FaultyCasStore {
    let config = CasConfig { chunks_dir: "/tmp/faulty/chunks".to_string(), max_size: 1024 * 1024, shard_levels: 2 };
    FaultyCasStore::open(config)
}

#[test]
fn test_healthy_passthrough() {
    let mut store = test_store();

    let data = b"test data";
    let hash = store.put(data).unwrap();
    let retrieved = store.get(&hash, Some(&data[..])).unwrap();
    assert_eq!(&retrieved[..], data);
}

#[test]
fn test_inject_enospc() {
    let mut store = test_store();

    store.set_inject_enospc(true);
    let result = store.put(b"test");
    assert!(result.is_err());

    let err = result.unwrap_err();
    assert!(matches!(err, CasError::Io(_)));

    store.set_inject_enospc(false);
    assert!(store.put(b"test").is_ok());
}

#[test]
fn test_inject_eio_on_read() {
    let mut store = test_store();

    let hash = store.put(b"test").unwrap();

    store.set_inject_eio_on_read(true);
    let result = store.get(&hash, Some(&b"test"[..]));
    assert!(result.is_err());

    store.set_inject_eio_on_read(false);
    assert!(store.get(&hash, Some(&b"test"[..])).is_ok());
}

#[test]
fn test_inject_corruption() {
    let mut store = test_store();

    let hash = store.put(b"test data").unwrap();

    store.set_inject_corruption(true);
    let result = store.get(&hash, Some(&b"test data"[..]));
    assert!(matches!(result, Err(CasError::IntegrityError { .. })));
}

#[test]
fn test_fail_after_n_puts() {
    let mut store = test_store();

    store.set_fail_after_n_puts(2);

    assert!(store.put(b"data1").is_ok());
    assert!(store.put(b"data2").is_ok());
    assert!(store.put(b"data3").is_err());
    assert!(store.put(b"data4").is_err());
    assert_eq!(store.put_count(), 4);
}

#[test]
fn test_reset_faults() {
    let mut store = test_store();

    store.set_inject_enospc(true);
    store.set_inject_eio_on_read(true);
    store.set_fail_after_n_puts(1);

    store.reset_faults();

    assert!(store.put(b"test").is_ok());
    let hash = store.put(b"test2").unwrap();
    assert!(store.get(&hash, Some(&b"test2"[..])).is_ok());
}

#[test]
fn injected_errors_carry_their_messages() {
    let mut store = test_store();
    store.set_inject_enospc(true);
    match store.put(b"x") {
        Err(CasError::Io(m)) => assert_eq!(m, "No space left on device (ENOSPC injected)"),
        _ => panic!("expected an I/O error"),
    }
    store.reset_faults();
    store.set_inject_eio_on_write(true);
    match store.delete(&musicfs::types::ChunkHash::from_bytes(b"x")) {
        Err(CasError::Io(m)) => assert_eq!(m, "Input/output error (EIO injected)"),
        _ => panic!("expected an I/O error"),
    }
    store.reset_faults();
    store.set_fail_after_n_puts(0);
    match store.put(b"y") {
        Err(CasError::Io(m)) => assert_eq!(m, "Injected failure after N puts"),
        _ => panic!("expected an I/O error"),
    }
    assert_eq!(store.current_size(), 0);
}

#[test]
fn corrupted_read_names_hash_of_altered_bytes() {
    let mut store = test_store();
    let hash = store.put(b"abc").unwrap();
    store.set_inject_corruption(true);
    match store.get(&hash, Some(&b"abc"[..])) {
        Err(CasError::IntegrityError { expected, actual }) => {
            assert_eq!(expected, hash.as_hex());
            assert_eq!(actual, musicfs::types::ChunkHash::from_bytes(b"bbc").as_hex());
        },
        _ => panic!("expected an integrity error"),
    }
    assert!(matches!(store.get(&musicfs::types::ChunkHash([0; 8]), None), Err(CasError::NotFound(_))));
}

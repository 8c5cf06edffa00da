use musicfs::prefetch::{InFlight, PrefetchConfig, PrefetchStart};
use musicfs::types::FileId;
use std::time::Duration;

#[test]
fn test_prefetch_config_defaults() {
    let config = PrefetchConfig::default();
    assert_eq!(config.lookahead, 3);
    assert_eq!(config.max_concurrent, 2);
    assert!(config.enabled);
}

// Own tests.

#[test]
fn prefetch_default_cooldown() {
    assert_eq!(PrefetchConfig::default().cooldown, Duration::from_millis(100));
}

#[test]
fn prefetch_in_flight_admission() {
    let mut set = InFlight::new();
    assert_eq!(set.len(), 0);
    assert_eq!(set.try_begin(FileId(1), true), PrefetchStart::Started);
    assert_eq!(set.try_begin(FileId(1), true), PrefetchStart::AlreadyInFlight);
    assert_eq!(set.try_begin(FileId(2), false), PrefetchStart::ConcurrencyLimit);
    assert!(!set.contains(FileId(2)));
    assert_eq!(set.len(), 1);
    set.finish(FileId(1));
    assert!(!set.contains(FileId(1)));
    assert_eq!(set.len(), 0);
    set.finish(FileId(9));
    assert_eq!(set.len(), 0);
}

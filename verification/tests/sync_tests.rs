use musicfs::events::Event;
use musicfs::nfs::{stale_step, tries_left, NfsOrigin, StaleStep, TryOutcome};
use musicfs::config::OriginType;
use musicfs::types::OriginId;
use musicfs::watcher::{ChangeKind, OriginWatcher, WatchError};

#[test]
fn test_is_audio_file() {
    assert!(OriginWatcher::is_audio_file("/music/song.flac"));
    assert!(OriginWatcher::is_audio_file("/music/song.MP3"));
    assert!(!OriginWatcher::is_audio_file("/music/cover.jpg"));
    assert!(!OriginWatcher::is_audio_file("/music/readme.txt"));
}

#[test]
fn test_retry_uses_fn_not_fnmut() {
    fn assert_fn<F: Fn() -> Fut, Fut>(_: F) {}

    let closure = || async { Ok::<_, OriginId>(()) };
    assert_fn(closure);
}

// Own tests.

#[test]
fn watcher_audio_extensions() {
    for p in ["a.ogg", "/x/b.WAV", "c.m4a", "d.aac", "e.Opus"] {
        assert!(OriginWatcher::is_audio_file(p), "{}", p);
    }
    for p in ["/music/flac", "/music/.flac", "/music/a.flac.bak", ""] {
        assert!(!OriginWatcher::is_audio_file(p), "{}", p);
    }
}

#[test]
fn watcher_events_and_debounce() {
    let mut w = OriginWatcher::new(OriginId::from("o"), "/music");
    assert_eq!(w.root(), "/music");
    match w.handle_path("/music/A/t.flac", ChangeKind::Create, 1000) {
        Some(Event::FileAdded { path, origin_id }) => {
            assert_eq!(path.as_str(), "/A/t.flac");
            assert_eq!(origin_id, OriginId::from("o"));
        }
        other => panic!("unexpected {:?}", other),
    }
    // within the debounce interval
    assert!(w.handle_path("/music/A/t.flac", ChangeKind::Modify, 1100).is_none());
    // after it
    assert!(matches!(
        w.handle_path("/music/A/t.flac", ChangeKind::Modify, 1300),
        Some(Event::FileModified { .. })
    ));
    assert!(matches!(
        w.handle_path("/music/A/u.mp3", ChangeKind::Remove, 1301),
        Some(Event::FileRemoved { file_id: None, .. })
    ));
    // not an audio file, outside the root, or a kind without an event
    assert!(w.handle_path("/music/A/cover.jpg", ChangeKind::Create, 5000).is_none());
    assert!(w.handle_path("/other/t.flac", ChangeKind::Create, 5000).is_none());
    assert!(w.handle_path("/music/B/v.flac", ChangeKind::Other, 5000).is_none());
    // the kind without an event still counts for the debounce
    assert!(w.handle_path("/music/B/v.flac", ChangeKind::Create, 5100).is_none());
}

#[test]
fn watcher_error_messages() {
    assert_eq!(WatchError::Init("x".to_string()).message(), "Failed to initialize watcher: x");
    assert_eq!(WatchError::Watch("y".to_string()).message(), "Failed to watch path: y");
}

#[test]
fn nfs_origin_basics() {
    let origin = NfsOrigin::new("nfs-test", "/mnt/nas");
    assert_eq!(origin.id(), &OriginId::from("nfs-test"));
    assert_eq!(origin.display_name(), "NFS: /mnt/nas");
    assert_eq!(origin.mount_point(), "/mnt/nas");
    assert_eq!(origin.max_retries(), 3);
    assert_eq!(origin.origin_type(), OriginType::Nfs);
    let origin = origin.with_max_retries(5);
    assert_eq!(origin.max_retries(), 5);
    assert_eq!(origin.display_name(), "NFS: /mnt/nas");
}

#[test]
fn nfs_stale_retry_schedule() {
    assert_eq!(
        stale_step(TryOutcome::StaleHandle, 100),
        StaleStep::Retry { sleep_ms: 100, next_delay_ms: 200 }
    );
    assert_eq!(stale_step(TryOutcome::Success, 100), StaleStep::Finish);
    assert_eq!(stale_step(TryOutcome::OtherError, 400), StaleStep::Finish);
    assert!(tries_left(2, 3));
    assert!(!tries_left(3, 3));
    assert!(!tries_left(0, 0));
}

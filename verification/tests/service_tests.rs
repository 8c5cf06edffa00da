use musicfs::service::{
    batch_progress, check_file_id, check_import_source, check_lookup, format_name, import_failure,
    import_format, update_result, BatchOutcome, ImportEntry, ImportFailure, ImportRun, Lookup,
    MetadataUpdate, ServiceError,
};
use musicfs::supervisor::{reported_status, CriticalMonitor, MonitorAction, TaskExit, TaskStatus};
use musicfs::types::{AudioFormat, FileId};
use std::time::Instant;

#[test]
fn test_import_entry_to_audio_meta() {
    let entry = ImportEntry {
        virtual_path: "/test.flac".to_string(),
        title: Some("Test".to_string()),
        artist: Some("Artist".to_string()),
        album: None,
        album_artist: None,
        genre: Some("Rock".to_string()),
        year: Some(2024),
        track: Some(1),
        disc: None,
        date: None,
        composer: None,
        comment: None,
    };

    let meta = entry.to_audio_meta();
    assert_eq!(meta.title, Some("Test".to_string()));
    assert_eq!(meta.artist, Some("Artist".to_string()));
    assert_eq!(meta.genre, Some("Rock".to_string()));
    assert_eq!(meta.year, Some(2024));
    assert_eq!(meta.track, Some(1));
}

#[test]
fn test_import_metadata_empty_path() {
    assert!(matches!(check_import_source(""), Err(ServiceError::InvalidArgument(_))));
    assert!(check_import_source("/tmp/x.csv").is_ok());
}

// Own tests.

#[test]
fn service_request_to_meta() {
    let req = MetadataUpdate {
        file_id: 4,
        title: Some("T".to_string()),
        track_number: Some(2),
        replaygain_track_gain: Some(-1_000_000),
        label: Some("L".to_string()),
        ..Default::default()
    };
    let m = req.to_audio_meta();
    assert_eq!(m.title.as_deref(), Some("T"));
    assert_eq!(m.track, Some(2));
    assert_eq!(m.replaygain_track_gain, Some(-1_000_000));
    assert_eq!(m.format, AudioFormat::Unknown);
    assert!(req.has_enrichment());
    assert!(!MetadataUpdate::default().has_enrichment());
}

#[test]
fn service_checks() {
    assert_eq!(check_file_id(5).unwrap(), FileId(5));
    match check_file_id(0) {
        Err(ServiceError::InvalidArgument(m)) => assert_eq!(m, "file_id must be positive"),
        other => panic!("unexpected {:?}", other),
    }
    assert_eq!(check_lookup("/a", Lookup::Found(FileId(3))).unwrap(), FileId(3));
    match check_lookup("/a", Lookup::Missing) {
        Err(ServiceError::NotFound(m)) => assert_eq!(m, "File not found: /a"),
        other => panic!("unexpected {:?}", other),
    }
    match check_lookup("/a", Lookup::Failed("boom".to_string())) {
        Err(ServiceError::Internal(m)) => assert_eq!(m, "Database error: boom"),
        other => panic!("unexpected {:?}", other),
    }
    assert!(matches!(check_lookup("", Lookup::Found(FileId(1))), Err(ServiceError::InvalidArgument(_))));
    let ok = update_result(7, Ok(()));
    assert!(ok.success && ok.error_message.is_none());
    let bad = update_result(7, Err("x".to_string()));
    assert_eq!((bad.file_id, bad.success, bad.error_message), (7, false, Some("x".to_string())));
}

#[test]
fn service_import_format_and_failures() {
    assert_eq!(import_format(&None, "/tmp/a.csv"), "csv");
    assert_eq!(import_format(&None, "/tmp/a.json"), "json");
    assert_eq!(import_format(&None, "/tmp/a.txt"), "unknown");
    assert_eq!(import_format(&Some("json".to_string()), "/tmp/a.csv"), "json");
    let p = import_failure(&ImportFailure::Unsupported("xml".to_string()));
    assert_eq!((p.imported, p.total), (0, 0));
    assert_eq!(p.error_message.as_deref(), Some("Unsupported format: xml"));
    assert_eq!(
        import_failure(&ImportFailure::Read("denied".to_string())).error_message.as_deref(),
        Some("Failed to read file: denied")
    );
}

#[test]
fn service_import_run_counts() {
    let mut run = ImportRun::new(3);
    let missing = run.on_lookup("/a", &Lookup::Missing).unwrap();
    assert_eq!(missing.error_message.as_deref(), Some("File not found: /a"));
    assert!(run.on_lookup("/b", &Lookup::Found(FileId(1))).is_none());
    let p = run.on_update("/b", Ok(()));
    assert_eq!((p.imported, p.total), (1, 3));
    let q = run.on_update("/c", Err("locked".to_string()));
    assert_eq!((q.imported, q.error_message.as_deref()), (1, Some("locked")));
    assert_eq!(run.imported, 1);
}

#[test]
fn service_batch_progress() {
    let p = batch_progress(0, 2, 9, BatchOutcome::MissingMetadata);
    assert_eq!((p.completed, p.total, p.current_file_id), (1, 2, Some(9)));
    assert_eq!(p.error_message.as_deref(), Some("Missing metadata in batch item"));
    assert!(batch_progress(1, 2, 9, BatchOutcome::Updated).error_message.is_none());
    assert_eq!(format_name(AudioFormat::Flac), "Flac");
    assert_eq!(format_name(AudioFormat::Unknown), "Unknown");
}

#[test]
fn supervisor_restart_policy() {
    let mut m = CriticalMonitor::new();
    let crash = TaskExit::Crashed("panic".to_string());
    let mut backoffs = Vec::new();
    for _ in 0..5 {
        match m.on_exit(&crash) {
            MonitorAction::Restart { attempt, backoff_secs } => backoffs.push((attempt, backoff_secs)),
            other => panic!("unexpected {:?}", other),
        }
    }
    assert_eq!(backoffs, vec![(1, 1), (2, 5), (3, 30), (4, 30), (5, 30)]);
    match m.on_exit(&crash) {
        MonitorAction::GiveUp { error } => assert_eq!(error, "Exceeded max restarts: panic"),
        other => panic!("unexpected {:?}", other),
    }
    let mut fresh = CriticalMonitor::new();
    assert!(matches!(fresh.on_exit(&TaskExit::Completed), MonitorAction::Stop));
    assert_eq!(fresh.restart_count, 0);
}

#[test]
fn supervisor_reported_status() {
    let now = Instant::now();
    match reported_status(&TaskStatus::Running, true, now) {
        TaskStatus::Failed { error, at } => {
            assert_eq!(error, "Task exited");
            assert_eq!(at, now);
        }
        other => panic!("unexpected {:?}", other),
    }
    assert!(matches!(
        reported_status(&TaskStatus::Restarting { attempt: 2 }, false, now),
        TaskStatus::Restarting { attempt: 2 }
    ));
}

#[test]
fn service_empty_import_source_is_invalid_argument() {
    match check_import_source("") {
        Err(ServiceError::InvalidArgument(m)) => assert_eq!(m, "source_path cannot be empty"),
        other => panic!("unexpected: {:?}", other),
    }
}

#[test]
fn service_update_carries_year() {
    let req = MetadataUpdate { file_id: 1, year: Some(1999), ..Default::default() };
    assert_eq!(req.to_audio_meta().year, Some(1999));
}

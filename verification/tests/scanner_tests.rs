use musicfs::scanner::{derive_virtual_path, missing_root_message, relative_path, scan_root, scanning_progress, ScanRun};
use musicfs::types::{AudioMeta, FileId, VirtualPath};

#[test]
fn scanner_virtual_path_defaults() {
    let meta = AudioMeta::default();
    assert_eq!(derive_virtual_path(&meta, "a/b/c.flac").as_str(), "/Unknown Artist/Unknown Album/c.flac");
    let meta2 = AudioMeta { artist: Some("X".to_string()), album: Some("Y".to_string()), ..Default::default() };
    assert_eq!(derive_virtual_path(&meta2, "c.mp3").as_str(), "/X/Y/c.mp3");
    assert_eq!(derive_virtual_path(&meta2, "").as_str(), "/X/Y/unknown");
}

#[test]
fn scanner_roots_and_messages() {
    assert_eq!(scan_root("/music", &None), "/music");
    assert_eq!(scan_root("/music", &Some(String::new())), "/music");
    assert_eq!(scan_root("/music", &Some("Jazz".to_string())), "/music/Jazz");
    assert_eq!(scan_root("/music/", &Some("Jazz".to_string())), "/music/Jazz");
    assert_eq!(missing_root_message("/x"), "scan path does not exist: /x");
    assert_eq!(relative_path("/music/a/b.flac", "/music"), "a/b.flac");
    assert_eq!(relative_path("/other/b.flac", "/music"), "/other/b.flac");
}

#[test]
fn scanner_run_counts() {
    let mut run = ScanRun::new();
    let p = scanning_progress(3, "/music/a.flac");
    assert_eq!((p.phase.as_str(), p.current, p.total), ("scanning", 3, 0));
    let h = run.hashing_progress(0, 2, "/music/a.flac");
    assert_eq!((h.phase.as_str(), h.current, h.total), ("hashing", 1, 2));
    run.note_known(true);
    run.note_known(false);
    run.note_indexed("/music/b.flac", FileId(7), &VirtualPath::new("/X/Y/b.flac"), 1000);
    let i = run.indexing_progress(0, 1, "/music/c.flac");
    assert_eq!((i.phase.as_str(), i.bytes_synced), ("indexing", 1000));
    let result = run.finish();
    assert_eq!(result.unchanged, 1);
    assert_eq!(result.bytes_synced, 1000);
    assert_eq!((result.changed, result.deleted), (0, 0));
    assert_eq!(result.new_files.len(), 1);
    assert_eq!(result.new_files[0].file_id, FileId(7));
    assert_eq!(result.new_files[0].virtual_path, "/X/Y/b.flac");
}

#[test]
fn scanner_derived_path_sanitizes_artist_and_album() {
    let meta = musicfs::types::AudioMeta {
        artist: Some("AC/DC".to_string()),
        album: Some("Live: 1991".to_string()),
        ..Default::default()
    };
    let p = derive_virtual_path(&meta, "x/01.flac");
    assert_eq!(p.as_str(), "/AC_DC/Live_ 1991/01.flac");
    let parts: Vec<&str> = p.as_str().split('/').collect();
    assert_eq!(parts.len(), 4);
    for part in &parts[1..3] {
        assert!(!part.contains('/') && !part.contains('\\') && !part.contains(':'));
    }
}

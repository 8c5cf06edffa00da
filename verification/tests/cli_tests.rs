use musicfs::cli::{
    build_virtual_path, clear_outcome, db_real_path, file_format, get_field_value, is_audio_file,
    restore_directories, sanitize, scan_file_id, set_outcome, set_request, ImportTally,
    MetadataFields, SetArgs,
};
use musicfs::service::{ImportProgress, UpdateResult};
use musicfs::tree::VirtualTree;
use musicfs::types::{AudioMeta, FileId, VirtualPath};

#[test]
fn cli_is_audio_file() {
    assert!(is_audio_file("/m/a.FLAC"));
    assert!(!is_audio_file("/m/a.txt"));
}

#[test]
fn cli_sanitize_and_paths() {
    assert_eq!(sanitize("AC/DC: Live?"), "AC_DC_ Live_");
    let meta = AudioMeta {
        artist: Some("AC/DC".to_string()),
        album: None,
        ..Default::default()
    };
    assert_eq!(
        build_virtual_path("/music/x/01.flac", Some(&meta)).as_str(),
        "/AC_DC/Unknown Album/01.flac"
    );
    assert_eq!(
        build_virtual_path("/music/x/01.flac", None).as_str(),
        "/Unknown Artist/Unknown Album/01.flac"
    );
    assert_eq!(db_real_path("a/b.flac"), "/a/b.flac");
    assert_eq!(db_real_path("/abs/b.flac"), "/abs/b.flac");
    assert_eq!(scan_file_id(&Ok(FileId(9)), 3), FileId(9));
    assert_eq!(scan_file_id(&Err("x".to_string()), 3), FileId(3));
}

#[test]
fn cli_field_values() {
    let fields = MetadataFields {
        file_id: Some(-12),
        title: Some("T".to_string()),
        year: Some(1999),
        bitrate: Some(320),
        compilation: Some(true),
        replaygain_track_gain: Some(-6_500_000),
        replaygain_track_peak: Some(987_654),
        replaygain_album_gain: Some(3_000_000),
        ..Default::default()
    };
    assert_eq!(get_field_value(&fields, "file_id").unwrap(), "-12");
    assert_eq!(get_field_value(&fields, "title").unwrap(), "T");
    assert_eq!(get_field_value(&fields, "year").unwrap(), "1999");
    assert_eq!(get_field_value(&fields, "bitrate").unwrap(), "320");
    assert_eq!(get_field_value(&fields, "compilation").unwrap(), "true");
    assert_eq!(get_field_value(&fields, "replaygain_track_gain").unwrap(), "-6.5");
    assert_eq!(get_field_value(&fields, "replaygain_track_peak").unwrap(), "0.987654");
    assert_eq!(get_field_value(&fields, "replaygain_album_gain").unwrap(), "3");
    assert_eq!(get_field_value(&fields, "album").unwrap(), "null");
    assert_eq!(get_field_value(&fields, "nope").unwrap_err(), "Unknown field: nope");
}

#[test]
fn cli_set_request_sources() {
    let args = SetArgs { title: Some("A".to_string()), track: Some(2), ..Default::default() };
    let r = set_request(5, args.clone(), None);
    assert_eq!(r.file_id, 5);
    assert_eq!(r.title.as_deref(), Some("A"));
    assert_eq!(r.track_number, Some(2));
    assert!(r.custom_tags.is_empty());
    let json = MetadataFields {
        title: Some("B".to_string()),
        lyrics: Some("la".to_string()),
        custom_tags: vec![("k".to_string(), "v".to_string())],
        ..Default::default()
    };
    let r2 = set_request(5, args, Some(json));
    assert_eq!(r2.title.as_deref(), Some("B"));
    assert_eq!(r2.lyrics.as_deref(), Some("la"));
    assert_eq!(r2.track_number, None);
    assert_eq!(r2.custom_tags.len(), 1);
    assert!(r2.label.is_none());
}

#[test]
fn cli_outcomes() {
    let ok = UpdateResult { file_id: 4, success: true, error_message: None };
    assert_eq!(set_outcome(&ok).unwrap(), "Metadata updated for file_id=4");
    assert_eq!(clear_outcome(&ok).unwrap(), "Metadata overlay cleared for file_id=4");
    let bad = UpdateResult { file_id: 4, success: false, error_message: None };
    assert_eq!(set_outcome(&bad).unwrap_err(), "Failed to update metadata: Unknown error");
    let bad2 = UpdateResult { file_id: 4, success: false, error_message: Some("x".to_string()) };
    assert_eq!(clear_outcome(&bad2).unwrap_err(), "Failed to clear overlay: x");
}

#[test]
fn cli_import_tally() {
    let mut t = ImportTally::new();
    for i in 0..12u32 {
        t.on_progress(&ImportProgress {
            imported: i,
            total: 12,
            current_file: if i == 0 { None } else { Some(format!("/f{}", i)) },
            error_message: Some("bad".to_string()),
        });
    }
    assert_eq!(t.summary(), "Import complete: 11/12 files imported");
    let report = t.error_report();
    assert_eq!(report.len(), 12);
    assert_eq!(report[0], "Errors (12):");
    assert_eq!(report[1], "  - unknown: bad");
    assert_eq!(report[2], "  - /f1: bad");
    assert_eq!(report[11], "  ... and 2 more");
    assert!(ImportTally::new().error_report().is_empty());
}

#[test]
fn cli_file_format_and_restore() {
    assert_eq!(file_format(None, "/x/Data.CSV").as_deref(), Some("csv"));
    assert_eq!(file_format(Some("json".to_string()), "/x/a.csv").as_deref(), Some("json"));
    assert_eq!(file_format(None, "/x/noext"), None);

    let mut tree = VirtualTree::new();
    restore_directories(
        &mut tree,
        &[
            VirtualPath::new("/Mix"),
            VirtualPath::new("/Mix/2020"),
            VirtualPath::new("/Gone/Child"),
            VirtualPath::new("/Mix"),
        ],
    );
    assert!(tree.get_by_path(&VirtualPath::new("/Mix/2020")).is_some());
    assert!(tree.get_by_path(&VirtualPath::new("/Gone/Child")).is_none());
    assert_eq!(tree.dir_count(), 3);
}

#[test]
fn cli_set_request_json_sets_year() {
    let json = MetadataFields { title: Some("foo".to_string()), year: Some(2023), ..Default::default() };
    let r = set_request(9, SetArgs::default(), Some(json));
    assert_eq!(r.file_id, 9);
    assert_eq!(r.title.as_deref(), Some("foo"));
    assert_eq!(r.year, Some(2023));
    assert_eq!(r.to_audio_meta().year, Some(2023));
    let r2 = set_request(9, SetArgs::default(), None);
    assert_eq!(r2.year, None);
}

use musicfs::db::{
    list_trashed_statement, list_trashed_statement_at, list_trashed_statement_checked, mark_trashed_statement, parse_audio_format,
    parse_content_hash, require_row, update_metadata_statement, upsert_file_statement, DbError, SqlValue,
    Statement, TrashedFilter,
};
use musicfs::types::{AudioFormat, AudioMeta, ContentHash, FileId, OriginId, VirtualPath};
use rusqlite::types::Value;
use rusqlite::Connection;
use std::time::Duration;

fn text(v: &SqlValue) -> &str {
    match v {
        SqlValue::Text(t) => t.as_str(),
        other => panic!("not text: {:?}", other),
    }
}

#[test]
fn db_parse_audio_format() {
    assert_eq!(parse_audio_format("Flac"), AudioFormat::Flac);
    assert_eq!(parse_audio_format("Alac"), AudioFormat::Alac);
    assert_eq!(parse_audio_format("flac"), AudioFormat::Unknown);
}

#[test]
fn db_parse_content_hash() {
    let h = ContentHash([0x01, 0x23, 0x45, 0x67, 0x89, 0xab, 0xcd, 0xef]);
    assert_eq!(parse_content_hash(&h.to_hex()), Some(h));
    assert_eq!(parse_content_hash("0123456789ABCDEF"), Some(h));
    assert_eq!(parse_content_hash("+123456789abcdef").unwrap().0[0], 0x01);
    assert_eq!(parse_content_hash("0123"), None);
    assert_eq!(parse_content_hash("zz23456789abcdef"), None);
}

#[test]
fn test_update_metadata_empty_noop() {
    assert!(update_metadata_statement(FileId(1), &AudioMeta::default()).is_none());
}

#[test]
fn db_update_statement_sets_given_fields() {
    let meta = AudioMeta {
        title: Some("New".to_string()),
        year: Some(2020),
        compilation: Some(true),
        replaygain_track_gain: Some(-1_500_000),
        ..Default::default()
    };
    let st = update_metadata_statement(FileId(3), &meta).unwrap();
    assert_eq!(
        st.sql,
        "UPDATE files SET title = ?, year = ?, compilation = ?, replaygain_track_gain = ? WHERE id = ?"
    );
    assert_eq!(st.params.len(), 5);
    assert_eq!(text(&st.params[0]), "New");
    assert!(matches!(st.params[1], SqlValue::Integer(2020)));
    assert!(matches!(st.params[2], SqlValue::Integer(1)));
    assert!(matches!(st.params[3], SqlValue::Real(-1_500_000)));
    assert!(matches!(st.params[4], SqlValue::Integer(3)));
}

#[test]
fn db_list_trashed_statement_filters() {
    let all = list_trashed_statement_at(&TrashedFilter::default(), 1000);
    assert_eq!(
        all.sql,
        "SELECT id, virtual_path, original_path, trashed_at, origin_id FROM files WHERE trashed = 1 ORDER BY trashed_at DESC"
    );
    assert!(all.params.is_empty());
    let f = TrashedFilter {
        origin_id: Some(OriginId::from("nas")),
        path_prefix: Some("/Artist".to_string()),
        since: Some(Duration::from_secs(100)),
    };
    let st = list_trashed_statement_at(&f, 1000);
    assert_eq!(
        st.sql,
        "SELECT id, virtual_path, original_path, trashed_at, origin_id FROM files WHERE trashed = 1 AND origin_id = ? AND original_path LIKE ? AND trashed_at >= ? ORDER BY trashed_at DESC"
    );
    assert_eq!(text(&st.params[0]), "nas");
    assert_eq!(text(&st.params[1]), "/Artist%");
    assert!(matches!(st.params[2], SqlValue::Integer(900)));
    let (now_st, _now) = list_trashed_statement(&f).unwrap();
    assert_eq!(now_st.params.len(), 3);
}

#[test]
fn db_require_row() {
    assert!(require_row(1, FileId(5)).is_ok());
    match require_row(0, FileId(5)) {
        Err(DbError::FileNotFound(m)) => assert_eq!(m, "file id 5 not found"),
        other => panic!("unexpected {:?}", other),
    }
}

#[test]
fn upsert_statement_binds_every_column() {
    let mut meta = musicfs::types::AudioMeta::default();
    meta.title = Some("Song".to_string());
    meta.year = Some(1999);
    meta.compilation = Some(true);
    meta.replaygain_track_gain = Some(-6_500_000);
    meta.duration_ms = Some(1234);
    let st = musicfs::db::upsert_file_statement(
        &musicfs::types::OriginId::new("local"),
        "a/b.flac",
        &musicfs::types::VirtualPath::new("/Artist/Album/b.flac"),
        &meta,
        1700000000,
        4096,
        Some("{}".to_string()),
        Some(vec![1, 2, 3]),
    );
    assert!(st.sql.starts_with("INSERT INTO files (origin_id, real_path, virtual_path, title"));
    assert!(st.sql.contains("ON CONFLICT(origin_id, real_path) DO UPDATE SET virtual_path = excluded.virtual_path"));
    assert_eq!(st.params.len(), 43);
    assert!(matches!(&st.params[0], musicfs::db::SqlValue::Text(t) if t == "local"));
    assert!(matches!(&st.params[1], musicfs::db::SqlValue::Text(t) if t == "a/b.flac"));
    assert!(matches!(&st.params[3], musicfs::db::SqlValue::Text(t) if t == "Song"));
    assert!(matches!(&st.params[4], musicfs::db::SqlValue::Null));
    assert!(matches!(&st.params[8], musicfs::db::SqlValue::Integer(1999)));
    assert!(matches!(&st.params[11], musicfs::db::SqlValue::Integer(1234)));
    assert!(matches!(&st.params[14], musicfs::db::SqlValue::Text(t) if t == "Unknown"));
    assert!(matches!(&st.params[22], musicfs::db::SqlValue::Integer(1)));
    assert!(matches!(&st.params[32], musicfs::db::SqlValue::Real(-6_500_000)));
    assert!(matches!(&st.params[39], musicfs::db::SqlValue::Text(t) if t == "{}"));
    assert!(matches!(&st.params[40], musicfs::db::SqlValue::Blob(b) if b == &vec![1u8, 2, 3]));
    assert!(matches!(&st.params[41], musicfs::db::SqlValue::Integer(1700000000)));
    assert!(matches!(&st.params[42], musicfs::db::SqlValue::Integer(4096)));
}


const SCHEMA: &str = "
CREATE TABLE files (
    id INTEGER PRIMARY KEY AUTOINCREMENT,
    origin_id TEXT NOT NULL, real_path TEXT NOT NULL, virtual_path TEXT NOT NULL,
    title TEXT, artist TEXT, album TEXT, album_artist TEXT, genre TEXT,
    year INTEGER, track INTEGER, disc INTEGER,
    duration_ms INTEGER, bitrate INTEGER, sample_rate INTEGER, format TEXT,
    track_total INTEGER, disc_total INTEGER, date TEXT, composer TEXT, comment TEXT,
    lyrics TEXT, copyright TEXT, compilation INTEGER,
    artist_sort TEXT, album_artist_sort TEXT, album_sort TEXT, title_sort TEXT,
    mb_recording_id TEXT, mb_album_id TEXT, mb_artist_id TEXT, mb_album_artist_id TEXT, mb_release_group_id TEXT,
    replaygain_track_gain REAL, replaygain_track_peak REAL, replaygain_album_gain REAL, replaygain_album_peak REAL,
    channels INTEGER, bits_per_sample INTEGER, encoder TEXT,
    custom_tags TEXT, format_layout BLOB,
    origin_mtime INTEGER, origin_size INTEGER, content_hash TEXT,
    trashed INTEGER NOT NULL DEFAULT 0, original_path TEXT, trashed_at INTEGER,
    last_sync INTEGER,
    UNIQUE(origin_id, real_path)
);
";

fn memory_db() -> Connection {
    let conn = Connection::open_in_memory().unwrap();
    conn.execute_batch(SCHEMA).unwrap();
    conn
}

fn value(v: &SqlValue) -> Value {
    match v {
        SqlValue::Null => Value::Null,
        SqlValue::Integer(n) => Value::Integer(*n),
        SqlValue::Real(n) => Value::Real(*n as f64 / 1_000_000.0),
        SqlValue::Text(t) => Value::Text(t.clone()),
        SqlValue::Blob(b) => Value::Blob(b.clone()),
    }
}

fn run(conn: &Connection, st: &Statement) -> usize {
    let values: Vec<Value> = st.params.iter().map(value).collect();
    conn.execute(&st.sql, rusqlite::params_from_iter(values.iter())).unwrap()
}

fn upsert(conn: &Connection, origin: &OriginId, real: &str, vpath: &str, meta: &AudioMeta) -> FileId {
    let st = upsert_file_statement(origin, real, &VirtualPath::new(vpath), meta, 0, 100, None, None);
    run(conn, &st);
    FileId(conn.last_insert_rowid())
}

fn mark_trashed(conn: &Connection, id: FileId, original: &str) {
    let rows = run(conn, &mark_trashed_statement(id, &VirtualPath::new(original)));
    require_row(rows, id).unwrap();
}

fn trashed(conn: &Connection, filter: &TrashedFilter) -> Vec<(i64, String)> {
    let st = list_trashed_statement_at(filter, 0);
    let values: Vec<Value> = st.params.iter().map(value).collect();
    let mut stmt = conn.prepare(&st.sql).unwrap();
    let rows = stmt
        .query_map(rusqlite::params_from_iter(values.iter()), |row| Ok((row.get::<_, i64>(0)?, row.get::<_, String>(4)?)))
        .unwrap();
    rows.map(|r| r.unwrap()).collect()
}

#[test]
fn test_update_metadata_partial() {
    let conn = memory_db();
    let audio_meta = AudioMeta {
        title: Some("Original Title".to_string()),
        artist: Some("Original Artist".to_string()),
        album: Some("Original Album".to_string()),
        track: Some(1),
        ..Default::default()
    };
    let id = upsert(&conn, &OriginId::from("local"), "/test.flac", "/Artist/Album/Track.flac", &audio_meta);

    let update = AudioMeta {
        title: Some("Updated Title".to_string()),
        composer: Some("New Composer".to_string()),
        ..Default::default()
    };
    let st = update_metadata_statement(id, &update).unwrap();
    require_row(run(&conn, &st), id).unwrap();

    let (title, artist, album, composer, track): (Option<String>, Option<String>, Option<String>, Option<String>, Option<i64>) = conn
        .query_row(
            "SELECT title, artist, album, composer, track FROM files WHERE id = ?1",
            [id.0],
            |row| Ok((row.get(0)?, row.get(1)?, row.get(2)?, row.get(3)?, row.get(4)?)),
        )
        .unwrap();
    assert_eq!(title, Some("Updated Title".to_string()));
    assert_eq!(artist, Some("Original Artist".to_string()));
    assert_eq!(album, Some("Original Album".to_string()));
    assert_eq!(composer, Some("New Composer".to_string()));
    assert_eq!(track, Some(1));
}

#[test]
fn test_list_trashed_with_filter() {
    let conn = memory_db();
    let origin1 = OriginId::from("local1");
    let origin2 = OriginId::from("local2");
    let id1 = upsert(&conn, &origin1, "/a.flac", "/Artist1/Track.flac", &AudioMeta::default());
    let id2 = upsert(&conn, &origin2, "/b.flac", "/Artist2/Track.flac", &AudioMeta::default());
    mark_trashed(&conn, id1, "/Artist1/Track.flac");
    mark_trashed(&conn, id2, "/Artist2/Track.flac");

    let all = trashed(&conn, &TrashedFilter::default());
    assert_eq!(all.len(), 2);

    let filtered = trashed(&conn, &TrashedFilter { origin_id: Some(origin1.clone()), ..Default::default() });
    assert_eq!(filtered.len(), 1);
    assert_eq!(filtered[0].1, "local1");

    let by_path = trashed(&conn, &TrashedFilter { path_prefix: Some("/Artist1".to_string()), ..Default::default() });
    assert_eq!(by_path.len(), 1);
}

#[test]
fn db_list_trashed_window_overflow_refused() {
    let f = TrashedFilter { since: Some(Duration::from_secs(1u64 << 63)), ..Default::default() };
    assert!(list_trashed_statement_checked(&f, 1).is_none());
    let ok = TrashedFilter { since: Some(Duration::from_secs(100)), ..Default::default() };
    let st = list_trashed_statement_checked(&ok, 1000).unwrap();
    assert!(matches!(st.params[0], SqlValue::Integer(900)));
    assert!(list_trashed_statement(&TrashedFilter::default()).is_some());
}

#[test]
fn db_missing_row_is_file_not_found() {
    match require_row(0, FileId(42)) {
        Err(DbError::FileNotFound(m)) => assert_eq!(m, "file id 42 not found"),
        other => panic!("unexpected {:?}", other),
    }
}

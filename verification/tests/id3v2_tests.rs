use musicfs::format::FormatLayout;
use musicfs::id3v2::{syncsafe_decode, Id3v2Handler};
use musicfs::types::{AudioFormat, AudioMeta};

fn make_test_meta() -> AudioMeta {
    AudioMeta {
        title: Some("Test Title".to_string()),
        artist: Some("Test Artist".to_string()),
        album: Some("Test Album".to_string()),
        album_artist: Some("Test Album Artist".to_string()),
        genre: Some("Rock".to_string()),
        year: Some(2024),
        track: Some(5),
        track_total: Some(12),
        disc: Some(1),
        disc_total: Some(2),
        format: AudioFormat::Mp3,
        date: Some("2024-03-15".to_string()),
        composer: Some("Test Composer".to_string()),
        comment: Some("Test Comment".to_string()),
        lyrics: Some("Test Lyrics\nLine 2".to_string()),
        copyright: Some("2024 Test Copyright".to_string()),
        compilation: Some(false),
        title_sort: Some("Title, Test".to_string()),
        artist_sort: Some("Artist, Test".to_string()),
        album_sort: Some("Album, Test".to_string()),
        album_artist_sort: Some("Album Artist, Test".to_string()),
        mb_recording_id: Some("rec-12345".to_string()),
        mb_album_id: Some("alb-12345".to_string()),
        mb_artist_id: Some("art-12345".to_string()),
        mb_album_artist_id: Some("albart-12345".to_string()),
        mb_release_group_id: Some("rg-12345".to_string()),
        // ReplayGain values in millionths: -6.5 dB, 0.987654, -5.2 dB, 0.999999.
        replaygain_track_gain: Some(-6_500_000),
        replaygain_track_peak: Some(987_654),
        replaygain_album_gain: Some(-5_200_000),
        replaygain_album_peak: Some(999_999),
        encoder: Some("LAME 3.100".to_string()),
        ..Default::default()
    }
}

fn mp3_layout() -> FormatLayout {
    FormatLayout {
        audio_start: 0,
        audio_end: 1000,
        format: AudioFormat::Mp3,
        format_data: None,
    }
}

#[test]
fn id3v2_test_id_and_name() {
    let handler = Id3v2Handler::new();
    assert_eq!(handler.id(), "id3v2");
    assert_eq!(handler.name(), "ID3v2 (MP3)");
}

#[test]
fn id3v2_test_extensions_and_mime_types() {
    let handler = Id3v2Handler::new();
    assert_eq!(handler.extensions(), &["mp3"]);
    assert_eq!(handler.mime_types(), &["audio/mpeg"]);
}

#[test]
fn id3v2_test_estimate_header_size() {
    let handler = Id3v2Handler::new();
    let meta = AudioMeta::default();
    assert_eq!(handler.estimate_header_size(&meta), 5120);
}

#[test]
fn test_synthesize_creates_valid_id3v2() {
    let handler = Id3v2Handler::new();
    let meta = make_test_meta();
    let layout = mp3_layout();

    let result = handler.synthesize(&meta, &layout);
    assert!(result.is_ok());

    let bytes = result.unwrap();
    assert!(bytes.len() >= 10);
    assert_eq!(&bytes[0..3], b"ID3");
    assert_eq!(bytes[3], 0x04);
}

#[test]
fn test_analyze_no_id3v2() {
    let handler = Id3v2Handler::new();
    let data = vec![0xFF, 0xFB, 0x90, 0x00];
    let file_size = 1000;

    let result = handler.analyze(&data, file_size);
    assert!(result.is_ok());

    let layout = result.unwrap();
    assert_eq!(layout.audio_start, 0);
    assert_eq!(layout.audio_end, 1000);
    assert_eq!(layout.format, AudioFormat::Mp3);
}

#[test]
fn test_analyze_with_id3v2() {
    let handler = Id3v2Handler::new();

    let mut data = vec![b'I', b'D', b'3', 0x04, 0x00, 0x00, 0x00, 0x00, 0x00, 0x64];
    data.extend(vec![0u8; 100]);
    let file_size = data.len() as u64;

    let result = handler.analyze(&data, file_size);
    assert!(result.is_ok());

    let layout = result.unwrap();
    assert_eq!(layout.audio_start, 110);
    assert_eq!(layout.audio_end, file_size);
}

#[test]
fn test_analyze_with_id3v1() {
    let handler = Id3v2Handler::new();

    let mut data = vec![0xFF, 0xFB, 0x90, 0x00];
    data.extend(vec![0u8; 100]);
    data.extend(b"TAG");
    data.extend(vec![0u8; 125]);
    let file_size = data.len() as u64;

    let result = handler.analyze(&data, file_size);
    assert!(result.is_ok());

    let layout = result.unwrap();
    assert_eq!(layout.audio_start, 0);
    assert_eq!(layout.audio_end, file_size - 128);
}

#[test]
fn test_syncsafe_decode() {
    assert_eq!(syncsafe_decode(&[0x00, 0x00, 0x00, 0x7F]), 127);
    assert_eq!(syncsafe_decode(&[0x00, 0x00, 0x01, 0x00]), 128);
    assert_eq!(syncsafe_decode(&[0x00, 0x00, 0x00, 0x64]), 100);
}

#[test]
fn test_parse_track_disc() {
    assert_eq!(Id3v2Handler::parse_track_disc("5/12"), (Some(5), Some(12)));
    assert_eq!(Id3v2Handler::parse_track_disc("5"), (Some(5), None));
    assert_eq!(Id3v2Handler::parse_track_disc(""), (None, None));
}

#[test]
fn id3v2_test_parse_replaygain_value() {
    assert_eq!(Id3v2Handler::parse_replaygain_value("-6.50 dB"), Some(-6_500_000));
    assert_eq!(Id3v2Handler::parse_replaygain_value("-6.50dB"), Some(-6_500_000));
    assert_eq!(Id3v2Handler::parse_replaygain_value("-6.50"), Some(-6_500_000));
    assert_eq!(Id3v2Handler::parse_replaygain_value("invalid"), None);
}

#[test]
fn test_empty_metadata_produces_empty_tag() {
    let handler = Id3v2Handler::new();
    let meta = AudioMeta::default();
    let layout = mp3_layout();

    let result = handler.synthesize(&meta, &layout);
    assert!(result.is_ok());

    let bytes = result.unwrap();
    assert!(bytes.is_empty());
}

#[test]
fn test_minimal_metadata_produces_valid_tag() {
    let handler = Id3v2Handler::new();
    let mut meta = AudioMeta::default();
    meta.title = Some("Test".to_string());
    let layout = mp3_layout();

    let result = handler.synthesize(&meta, &layout);
    assert!(result.is_ok());

    let bytes = result.unwrap();
    assert!(bytes.len() >= 10);
    assert_eq!(&bytes[0..3], b"ID3");
    assert_eq!(bytes[3], 0x04);
}

#[test]
fn test_build_and_extract_tag() {
    let original_meta = make_test_meta();
    let tag = Id3v2Handler::build_tag_from_meta(&original_meta);
    let extracted = Id3v2Handler::extract_from_tag(&tag);

    assert_eq!(extracted.title, original_meta.title);
    assert_eq!(extracted.artist, original_meta.artist);
    assert_eq!(extracted.album, original_meta.album);
    assert_eq!(extracted.album_artist, original_meta.album_artist);
    assert_eq!(extracted.genre, original_meta.genre);
    assert_eq!(extracted.track, original_meta.track);
    assert_eq!(extracted.track_total, original_meta.track_total);
    assert_eq!(extracted.disc, original_meta.disc);
    assert_eq!(extracted.disc_total, original_meta.disc_total);
    assert_eq!(extracted.composer, original_meta.composer);
    assert_eq!(extracted.comment, original_meta.comment);
    assert_eq!(extracted.lyrics, original_meta.lyrics);
    assert_eq!(extracted.copyright, original_meta.copyright);
    assert_eq!(extracted.compilation, original_meta.compilation);
    assert_eq!(extracted.title_sort, original_meta.title_sort);
    assert_eq!(extracted.artist_sort, original_meta.artist_sort);
    assert_eq!(extracted.album_sort, original_meta.album_sort);
    assert_eq!(extracted.album_artist_sort, original_meta.album_artist_sort);
    assert_eq!(extracted.mb_recording_id, original_meta.mb_recording_id);
    assert_eq!(extracted.mb_album_id, original_meta.mb_album_id);
    assert_eq!(extracted.mb_artist_id, original_meta.mb_artist_id);
    assert_eq!(extracted.mb_album_artist_id, original_meta.mb_album_artist_id);
    assert_eq!(extracted.mb_release_group_id, original_meta.mb_release_group_id);
    assert_eq!(extracted.encoder, original_meta.encoder);

    let orig_track_gain = original_meta.replaygain_track_gain.unwrap();
    let ext_track_gain = extracted.replaygain_track_gain.unwrap();
    assert!((orig_track_gain - ext_track_gain).abs() < 10_000);

    let orig_track_peak = original_meta.replaygain_track_peak.unwrap();
    let ext_track_peak = extracted.replaygain_track_peak.unwrap();
    assert!((orig_track_peak - ext_track_peak).abs() < 100);
}

// Own tests.

#[test]
fn id3v2_header_needs_marker_and_ten_bytes() {
    assert_eq!(Id3v2Handler::parse_id3v2_header(b"ID3\x04\x00\x00\x00\x00"), None);
    assert_eq!(Id3v2Handler::parse_id3v2_header(b"XYZ\x04\x00\x00\x00\x00\x00\x00"), None);
    assert_eq!(
        Id3v2Handler::parse_id3v2_header(b"ID3\x04\x00\x00\x00\x00\x01\x00"),
        Some(10 + 128)
    );
}

#[test]
fn id3v2_id3v1_needs_whole_tag() {
    assert!(!Id3v2Handler::has_id3v1_tag(&[0u8; 10], 100));
    let mut data = vec![0u8; 200];
    data[72] = b'T';
    data[73] = b'A';
    data[74] = b'G';
    assert!(Id3v2Handler::has_id3v1_tag(&data, 200));
    // the tag lies beyond the data that was read
    assert!(!Id3v2Handler::has_id3v1_tag(&data[..50], 200));
}

#[test]
fn id3v2_track_disc_edge_cases() {
    assert_eq!(Id3v2Handler::parse_track_disc("x/3"), (None, Some(3)));
    assert_eq!(Id3v2Handler::parse_track_disc("7/"), (Some(7), None));
}

#[test]
fn id3v2_synthesized_tag_is_skipped_by_analyze() {
    let handler = Id3v2Handler::new();
    let meta = make_test_meta();
    let bytes = handler.synthesize(&meta, &mp3_layout()).unwrap();
    let size = bytes.len() as u64;
    let layout = handler.analyze(&bytes, size).unwrap();
    assert_eq!(layout.audio_start, size);
}

#[test]
fn tag_roundtrip_edges() {
    let mut meta = AudioMeta::default();
    meta.title = Some("A\0B".to_string());
    meta.year = Some(1999);
    meta.track_total = Some(5);
    meta.disc = Some(2);
    meta.compilation = Some(false);
    let tag = Id3v2Handler::build_tag_from_meta(&meta);
    let back = Id3v2Handler::extract_from_tag(&tag);
    assert_eq!(back.title, Some("A/B".to_string()));
    assert_eq!(back.date, Some("1999".to_string()));
    assert_eq!(back.year, Some(1999));
    assert_eq!(back.track, None);
    assert_eq!(back.track_total, None);
    assert_eq!(back.disc, Some(2));
    assert_eq!(back.disc_total, None);
    assert_eq!(back.compilation, Some(false));
}

#[test]
fn id3v2_extract_from_read_outcomes() {
    match Id3v2Handler::extract_from_read(Err("bad stream".to_string())) {
        Err(musicfs::format::FormatError::InvalidData(m)) => assert_eq!(m, "bad stream"),
        other => panic!("unexpected: {:?}", other),
    }
    match Id3v2Handler::extract_from_read(Ok(None)) {
        Err(musicfs::format::FormatError::InvalidData(m)) => assert_eq!(m, "No ID3v2 tag found"),
        other => panic!("unexpected: {:?}", other),
    }
    let mut tag = lofty::id3::v2::Id3v2Tag::new();
    lofty::tag::Accessor::set_title(&mut tag, "Song".to_string());
    let m = Id3v2Handler::extract_from_read(Ok(Some(tag))).unwrap();
    assert_eq!(m.title.as_deref(), Some("Song"));
    assert_eq!(m.format, AudioFormat::Mp3);
}

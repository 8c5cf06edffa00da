use musicfs::flac::{FlacHandler, BLOCK_TYPE_STREAMINFO, BLOCK_TYPE_VORBIS_COMMENT, STREAMINFO_DATA_SIZE};
use musicfs::format::{FormatError, FormatLayout};
use musicfs::types::{AudioFormat, AudioMeta};

fn make_test_meta() -> AudioMeta {
    AudioMeta {
        title: Some("Test Title".to_string()),
        artist: Some("Test Artist".to_string()),
        album: Some("Test Album".to_string()),
        album_artist: Some("Test Album Artist".to_string()),
        genre: Some("Rock".to_string()),
        year: Some(2024),
        track: Some(5),
        track_total: Some(12),
        disc: Some(1),
        disc_total: Some(2),
        format: AudioFormat::Flac,
        date: Some("2024-03-15".to_string()),
        composer: Some("Test Composer".to_string()),
        comment: Some("Test Comment".to_string()),
        lyrics: Some("Test Lyrics\nLine 2".to_string()),
        copyright: Some("2024 Test Copyright".to_string()),
        compilation: Some(false),
        title_sort: Some("Title, Test".to_string()),
        artist_sort: Some("Artist, Test".to_string()),
        album_sort: Some("Album, Test".to_string()),
        album_artist_sort: Some("Album Artist, Test".to_string()),
        mb_recording_id: Some("rec-12345".to_string()),
        mb_album_id: Some("alb-12345".to_string()),
        mb_artist_id: Some("art-12345".to_string()),
        mb_album_artist_id: Some("albart-12345".to_string()),
        mb_release_group_id: Some("rg-12345".to_string()),
        // ReplayGain values in millionths: -6.5 dB, 0.987654, -5.2 dB, 0.999999.
        replaygain_track_gain: Some(-6_500_000),
        replaygain_track_peak: Some(987_654),
        replaygain_album_gain: Some(-5_200_000),
        replaygain_album_peak: Some(999_999),
        encoder: Some("FLAC 1.4.0".to_string()),
        ..Default::default()
    }
}

fn make_minimal_flac_header() -> Vec<u8> {
    let mut data = Vec::new();
    data.extend_from_slice(b"fLaC");
    // STREAMINFO block header: last, type 0, size 34
    data.push(0x80);
    data.push(0x00);
    data.push(0x00);
    data.push(0x22);
    data.push(0x10);
    data.push(0x00);
    data.push(0x10);
    data.push(0x00);
    data.push(0x00);
    data.push(0x00);
    data.push(0x00);
    data.push(0x00);
    data.push(0x00);
    data.push(0x00);
    data.push(0x0A);
    data.push(0xC4);
    data.push(0x42);
    data.push(0xF0);
    data.push(0x00);
    data.push(0x00);
    data.push(0x00);
    data.push(0x00);
    data.extend_from_slice(&[0u8; 16]);
    data
}

fn make_flac_with_vorbis_comments() -> Vec<u8> {
    let mut data = Vec::new();
    data.extend_from_slice(b"fLaC");
    data.push(0x00);
    data.push(0x00);
    data.push(0x00);
    data.push(0x22);
    data.push(0x10);
    data.push(0x00);
    data.push(0x10);
    data.push(0x00);
    data.extend_from_slice(&[0u8; 6]);
    data.push(0x0A);
    data.push(0xC4);
    data.push(0x42);
    data.push(0xF0);
    data.extend_from_slice(&[0u8; 4]);
    data.extend_from_slice(&[0u8; 16]);

    let vendor = b"test";
    let comments = [
        b"TITLE=Test Song".as_slice(),
        b"ARTIST=Test Artist".as_slice(),
        b"ALBUM=Test Album".as_slice(),
        b"TRACKNUMBER=3".as_slice(),
        b"REPLAYGAIN_TRACK_GAIN=-5.50 dB".as_slice(),
    ];

    let mut vorbis_data = Vec::new();
    vorbis_data.extend_from_slice(&(vendor.len() as u32).to_le_bytes());
    vorbis_data.extend_from_slice(vendor);
    vorbis_data.extend_from_slice(&(comments.len() as u32).to_le_bytes());
    for comment in &comments {
        vorbis_data.extend_from_slice(&(comment.len() as u32).to_le_bytes());
        vorbis_data.extend_from_slice(comment);
    }

    data.push(0x84);
    data.push(((vorbis_data.len() >> 16) & 0xFF) as u8);
    data.push(((vorbis_data.len() >> 8) & 0xFF) as u8);
    data.push((vorbis_data.len() & 0xFF) as u8);
    data.extend_from_slice(&vorbis_data);
    data
}

#[test]
fn flac_test_id_and_name() {
    let handler = FlacHandler::new();
    assert_eq!(handler.id(), "flac");
    assert_eq!(handler.name(), "FLAC");
}

#[test]
fn flac_test_extensions_and_mime_types() {
    let handler = FlacHandler::new();
    assert_eq!(handler.extensions(), &["flac"]);
    assert_eq!(handler.mime_types(), &["audio/flac", "audio/x-flac"]);
}

#[test]
fn flac_test_estimate_header_size() {
    let handler = FlacHandler::new();
    let meta = AudioMeta::default();
    assert_eq!(handler.estimate_header_size(&meta), 8192);
}

#[test]
fn test_analyze_valid_flac() {
    let handler = FlacHandler::new();
    let data = make_minimal_flac_header();
    let file_size = data.len() as u64 + 1000;

    let result = handler.analyze(&data, file_size);
    assert!(result.is_ok(), "analyze failed: {:?}", result.err());

    let layout = result.unwrap();
    assert_eq!(layout.audio_start, 42);
    assert_eq!(layout.audio_end, file_size);
    assert_eq!(layout.format, AudioFormat::Flac);
    assert!(layout.format_data.is_some());
    assert_eq!(
        layout.format_data.as_ref().unwrap().len(),
        STREAMINFO_DATA_SIZE
    );
}

#[test]
fn test_analyze_invalid_marker() {
    let handler = FlacHandler::new();
    let data = b"ID3\x04\x00\x00";

    let result = handler.analyze(data, 1000);
    assert!(result.is_err());
    assert!(matches!(result.unwrap_err(), FormatError::InvalidData(_)));
}

#[test]
fn test_analyze_truncated() {
    let handler = FlacHandler::new();
    let data = b"fLaC";

    let result = handler.analyze(data, 4);
    assert!(result.is_err());
}

#[test]
fn test_synthesize_creates_valid_flac_header() {
    let handler = FlacHandler::new();
    let meta = make_test_meta();

    let original_data = make_minimal_flac_header();
    let layout = handler
        .analyze(&original_data, original_data.len() as u64)
        .unwrap();

    let result = handler.synthesize(&meta, &layout);
    assert!(result.is_ok(), "synthesize failed: {:?}", result.err());

    let bytes = result.unwrap();

    assert!(bytes.len() >= 4);
    assert_eq!(&bytes[0..4], b"fLaC");

    assert_eq!(bytes[4] & 0x7F, BLOCK_TYPE_STREAMINFO);
    assert_eq!(bytes[4] & 0x80, 0);

    let streaminfo_size =
        ((bytes[5] as usize) << 16) | ((bytes[6] as usize) << 8) | (bytes[7] as usize);
    assert_eq!(streaminfo_size, STREAMINFO_DATA_SIZE);

    let vorbis_offset = 4 + 4 + STREAMINFO_DATA_SIZE;
    assert_eq!(bytes[vorbis_offset] & 0x7F, BLOCK_TYPE_VORBIS_COMMENT);
    assert_eq!(bytes[vorbis_offset] & 0x80, 0x80);
}

#[test]
fn test_synthesize_preserves_streaminfo() {
    let handler = FlacHandler::new();
    let meta = AudioMeta::default();

    let original_data = make_minimal_flac_header();
    let layout = handler
        .analyze(&original_data, original_data.len() as u64)
        .unwrap();
    let original_streaminfo = layout.format_data.as_ref().unwrap().clone();

    let synthesized = handler.synthesize(&meta, &layout).unwrap();

    let streaminfo_start = 4 + 4;
    let streaminfo_end = streaminfo_start + STREAMINFO_DATA_SIZE;
    let synthesized_streaminfo = &synthesized[streaminfo_start..streaminfo_end];

    assert_eq!(synthesized_streaminfo, original_streaminfo.as_slice());
}

#[test]
fn test_synthesize_missing_streaminfo() {
    let handler = FlacHandler::new();
    let meta = AudioMeta::default();
    let layout = FormatLayout {
        audio_start: 42,
        audio_end: 1000,
        format: AudioFormat::Flac,
        format_data: None,
    };

    let result = handler.synthesize(&meta, &layout);
    assert!(result.is_err());
    assert!(matches!(
        result.unwrap_err(),
        FormatError::SynthesisFailed(_)
    ));
}

#[test]
fn test_extract_from_flac() {
    let handler = FlacHandler::new();
    let data = make_flac_with_vorbis_comments();

    let result = handler.extract(&data);
    assert!(result.is_ok(), "extract failed: {:?}", result.err());

    let meta = result.unwrap();
    assert_eq!(meta.title, Some("Test Song".to_string()));
    assert_eq!(meta.artist, Some("Test Artist".to_string()));
    assert_eq!(meta.album, Some("Test Album".to_string()));
    assert_eq!(meta.track, Some(3));
    assert_eq!(meta.format, AudioFormat::Flac);

    let gain = meta.replaygain_track_gain.unwrap();
    assert!((gain - (-5_500_000)).abs() < 10_000);
}

#[test]
fn test_build_and_extract_vorbis_comments() {
    let original_meta = make_test_meta();
    let tag = FlacHandler::build_vorbis_comments(&original_meta);
    let extracted = FlacHandler::extract_from_vorbis_comments(&tag);

    assert_eq!(extracted.title, original_meta.title);
    assert_eq!(extracted.artist, original_meta.artist);
    assert_eq!(extracted.album, original_meta.album);
    assert_eq!(extracted.album_artist, original_meta.album_artist);
    assert_eq!(extracted.genre, original_meta.genre);
    assert_eq!(extracted.track, original_meta.track);
    assert_eq!(extracted.track_total, original_meta.track_total);
    assert_eq!(extracted.disc, original_meta.disc);
    assert_eq!(extracted.disc_total, original_meta.disc_total);
    assert_eq!(extracted.composer, original_meta.composer);
    assert_eq!(extracted.comment, original_meta.comment);
    assert_eq!(extracted.lyrics, original_meta.lyrics);
    assert_eq!(extracted.copyright, original_meta.copyright);
    assert_eq!(extracted.compilation, original_meta.compilation);
    assert_eq!(extracted.title_sort, original_meta.title_sort);
    assert_eq!(extracted.artist_sort, original_meta.artist_sort);
    assert_eq!(extracted.album_sort, original_meta.album_sort);
    assert_eq!(extracted.album_artist_sort, original_meta.album_artist_sort);
    assert_eq!(extracted.mb_recording_id, original_meta.mb_recording_id);
    assert_eq!(extracted.mb_album_id, original_meta.mb_album_id);
    assert_eq!(extracted.mb_artist_id, original_meta.mb_artist_id);
    assert_eq!(extracted.mb_album_artist_id, original_meta.mb_album_artist_id);
    assert_eq!(extracted.mb_release_group_id, original_meta.mb_release_group_id);
    assert_eq!(extracted.encoder, original_meta.encoder);

    let orig_track_gain = original_meta.replaygain_track_gain.unwrap();
    let ext_track_gain = extracted.replaygain_track_gain.unwrap();
    assert!((orig_track_gain - ext_track_gain).abs() < 10_000);

    let orig_track_peak = original_meta.replaygain_track_peak.unwrap();
    let ext_track_peak = extracted.replaygain_track_peak.unwrap();
    assert!((orig_track_peak - ext_track_peak).abs() < 100);
}

#[test]
fn flac_test_parse_replaygain_value() {
    assert_eq!(FlacHandler::parse_replaygain_value("-6.50 dB"), Some(-6_500_000));
    assert_eq!(FlacHandler::parse_replaygain_value("-6.50dB"), Some(-6_500_000));
    assert_eq!(FlacHandler::parse_replaygain_value("-6.50"), Some(-6_500_000));
    assert_eq!(FlacHandler::parse_replaygain_value("  3.2 dB  "), Some(3_200_000));
    assert_eq!(FlacHandler::parse_replaygain_value("invalid"), None);
}

#[test]
fn test_parse_block_header() {
    let header = [0x00, 0x00, 0x00, 0x22];
    let (is_last, block_type, size) = FlacHandler::parse_block_header(&header).unwrap();
    assert!(!is_last);
    assert_eq!(block_type, 0);
    assert_eq!(size, 34);

    let header = [0x84, 0x00, 0x01, 0x00];
    let (is_last, block_type, size) = FlacHandler::parse_block_header(&header).unwrap();
    assert!(is_last);
    assert_eq!(block_type, 4);
    assert_eq!(size, 256);
}

#[test]
fn test_write_block_header() {
    let header = FlacHandler::write_block_header(false, 0, 34);
    assert_eq!(header, [0x00, 0x00, 0x00, 0x22]);

    let header = FlacHandler::write_block_header(true, 4, 256);
    assert_eq!(header, [0x84, 0x00, 0x01, 0x00]);
}

#[test]
fn test_empty_metadata_produces_minimal_vorbis() {
    let handler = FlacHandler::new();
    let meta = AudioMeta::default();

    let original_data = make_minimal_flac_header();
    let layout = handler
        .analyze(&original_data, original_data.len() as u64)
        .unwrap();

    let result = handler.synthesize(&meta, &layout);
    assert!(result.is_ok());

    let bytes = result.unwrap();
    assert!(bytes.len() >= 42 + 4 + 8);
}

#[test]
fn test_round_trip_synthesize_analyze() {
    let handler = FlacHandler::new();
    let meta = make_test_meta();

    let original_data = make_minimal_flac_header();
    let layout = handler
        .analyze(&original_data, original_data.len() as u64)
        .unwrap();

    let synthesized = handler.synthesize(&meta, &layout).unwrap();

    let new_layout = handler
        .analyze(&synthesized, synthesized.len() as u64)
        .unwrap();

    assert_eq!(new_layout.format_data, layout.format_data);
    assert_eq!(new_layout.format, AudioFormat::Flac);
}

// Own tests.

#[test]
fn flac_parse_block_header_short_input() {
    assert_eq!(FlacHandler::parse_block_header(&[0x00, 0x00, 0x22]), None);
}

#[test]
fn flac_block_header_roundtrip_values() {
    for &(last, ty, size) in &[(false, 0u8, 34usize), (true, 4, 0xABCDEF), (true, 127, 0)] {
        let h = FlacHandler::write_block_header(last, ty, size);
        assert_eq!(FlacHandler::parse_block_header(&h), Some((last, ty, size)));
    }
}

#[test]
fn flac_serialize_default_vendor_only() {
    let meta = AudioMeta::default();
    let tag = FlacHandler::build_vorbis_comments(&meta);
    let bytes = FlacHandler::serialize_vorbis_comments(&tag);
    // vendor length, vendor text, zero comments
    assert_eq!(&bytes[0..4], &(bytes.len() as u32 - 8).to_le_bytes());
    assert_eq!(&bytes[bytes.len() - 4..], &[0, 0, 0, 0]);
}

#[test]
fn flac_extract_without_comments_is_invalid() {
    let handler = FlacHandler::new();
    let data = make_minimal_flac_header();
    assert!(matches!(handler.extract(&data), Err(FormatError::InvalidData(_))));
}

#[test]
fn flac_synthesize_then_extract_keeps_title() {
    let handler = FlacHandler::new();
    let meta = make_test_meta();
    let original_data = make_minimal_flac_header();
    let layout = handler.analyze(&original_data, 42).unwrap();
    let bytes = handler.synthesize(&meta, &layout).unwrap();
    let back = handler.extract(&bytes).unwrap();
    assert_eq!(back.title, meta.title);
    assert_eq!(back.track, Some(5));
}

#[test]
fn flac_extract_from_read_outcomes() {
    match FlacHandler::extract_from_read(Err("bad stream".to_string())) {
        Err(FormatError::InvalidData(m)) => assert_eq!(m, "bad stream"),
        other => panic!("unexpected: {:?}", other),
    }
    match FlacHandler::extract_from_read(Ok(None)) {
        Err(FormatError::InvalidData(m)) => assert_eq!(m, "No Vorbis comments found"),
        other => panic!("unexpected: {:?}", other),
    }
    let mut vc = lofty::ogg::VorbisComments::default();
    vc.insert("TITLE".to_string(), "Song".to_string());
    vc.insert("TRACKNUMBER".to_string(), "7".to_string());
    let m = FlacHandler::extract_from_read(Ok(Some(vc))).unwrap();
    assert_eq!(m.title.as_deref(), Some("Song"));
    assert_eq!(m.track, Some(7));
    assert_eq!(m.format, AudioFormat::Flac);
}

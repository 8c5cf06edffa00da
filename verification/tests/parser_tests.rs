use musicfs::parser::{MetadataParser, StreamInfo, TagKey};
use musicfs::types::{AudioFormat, AudioMeta};

#[test]
fn test_audio_format_detection() {
    assert_eq!(AudioFormat::from_extension("flac"), AudioFormat::Flac);
    assert_eq!(AudioFormat::from_extension("mp3"), AudioFormat::Mp3);
    assert_eq!(AudioFormat::from_extension("opus"), AudioFormat::Opus);
    assert_eq!(AudioFormat::from_extension("ogg"), AudioFormat::Vorbis);
    assert_eq!(AudioFormat::from_extension("m4a"), AudioFormat::Aac);
    assert_eq!(AudioFormat::from_extension("wav"), AudioFormat::Wav);
}

#[test]
fn test_parser_creation() {
    let parser = MetadataParser::new();
    let default_parser = MetadataParser::default();
    assert!(std::mem::size_of_val(&parser) == std::mem::size_of_val(&default_parser));
}

// Own tests.

fn tags(list: &[(TagKey, &str)]) -> Vec<(TagKey, String)> {
    list.iter().map(|(k, v)| (*k, v.to_string())).collect()
}

#[test]
fn parser_tags_map_to_fields() {
    let p = MetadataParser::new();
    let t = tags(&[
        (TagKey::TrackTitle, "Song"),
        (TagKey::Artist, "Band"),
        (TagKey::TrackNumber, " 3 / 12 "),
        (TagKey::DiscNumber, "2"),
        (TagKey::Date, "2019-05-01"),
        (TagKey::Compilation, "TRUE"),
        (TagKey::ReplayGainTrackGain, " -7.25 dB "),
        (TagKey::ReplayGainTrackPeak, "0.5"),
        (TagKey::Other, "ignored"),
    ]);
    let stream = StreamInfo { n_frames: None, sample_rate: None, channels: None, bits_per_sample: None };
    let m = p.build_meta("FLAC", &t, stream);
    assert_eq!(m.format, AudioFormat::Flac);
    assert_eq!(m.title.as_deref(), Some("Song"));
    assert_eq!(m.artist.as_deref(), Some("Band"));
    assert_eq!(m.track, Some(3));
    assert_eq!(m.track_total, Some(12));
    assert_eq!(m.disc, Some(2));
    assert_eq!(m.disc_total, None);
    assert_eq!(m.date.as_deref(), Some("2019-05-01"));
    assert_eq!(m.year, Some(2019));
    assert_eq!(m.compilation, Some(true));
    assert_eq!(m.replaygain_track_gain, Some(-7_250_000));
    assert_eq!(m.replaygain_track_peak, Some(500_000));
}

#[test]
fn parser_later_tag_wins_and_totals() {
    let p = MetadataParser::new();
    let mut m = AudioMeta::default();
    p.extract_tags(
        &mut m,
        &tags(&[
            (TagKey::TrackTotal, "9"),
            (TagKey::TrackNumber, "4"),
            (TagKey::Genre, "Jazz"),
            (TagKey::Genre, "Rock"),
            (TagKey::Compilation, "no"),
            (TagKey::ReleaseDate, "85"),
        ]),
    );
    assert_eq!(m.track, Some(4));
    // a number without `/` leaves the total as it was
    assert_eq!(m.track_total, Some(9));
    assert_eq!(m.genre.as_deref(), Some("Rock"));
    assert_eq!(m.compilation, Some(false));
    assert_eq!(m.year, Some(85));
}

#[test]
fn parser_stream_info() {
    let p = MetadataParser::new();
    let mut m = AudioMeta::default();
    p.apply_stream_info(
        &mut m,
        StreamInfo { n_frames: Some(441_000), sample_rate: Some(44_100), channels: Some(2), bits_per_sample: Some(16) },
    );
    assert_eq!(m.duration_ms, Some(10_000));
    assert_eq!(m.sample_rate, Some(44_100));
    assert_eq!(m.channels, Some(2));
    assert_eq!(m.bits_per_sample, Some(16));
    assert_eq!(m.bitrate, Some(1411));

    let mut m2 = AudioMeta::default();
    p.apply_stream_info(
        &mut m2,
        StreamInfo { n_frames: Some(10), sample_rate: None, channels: None, bits_per_sample: Some(24) },
    );
    assert_eq!(m2.duration_ms, None);
    assert_eq!(m2.bits_per_sample, Some(24));
    assert_eq!(m2.bitrate, None);
}

//! Catalogue metadata from the tags and stream parameters that a media probe reports.
use vstd::prelude::*;

use crate::fixed::{parse_fixed, parse_fixed_spec, trim_chars, trim_spec};
use crate::id3v2::{find_slash, split_pair};
use crate::numtext::{parse_u32, parse_u32_spec};
use crate::text::{ascii_lower, ascii_lower_spec, to_chars};
use crate::types::{AudioFormat, AudioMeta};

verus! {

/// The standard tag keys that the catalogue reads; every other key is `Other`.
#[derive(Debug, Clone, Copy, PartialEq, Eq, Structural)]
pub enum TagKey {
    TrackTitle,
    Artist,
    Album,
    AlbumArtist,
    Genre,
    TrackNumber,
    DiscNumber,
    TrackTotal,
    DiscTotal,
    Date,
    ReleaseDate,
    Composer,
    Comment,
    Lyrics,
    Copyright,
    Compilation,
    Encoder,
    SortTrackTitle,
    SortArtist,
    SortAlbum,
    SortAlbumArtist,
    MusicBrainzRecordingId,
    MusicBrainzAlbumId,
    MusicBrainzArtistId,
    MusicBrainzAlbumArtistId,
    MusicBrainzReleaseGroupId,
    ReplayGainTrackGain,
    ReplayGainTrackPeak,
    ReplayGainAlbumGain,
    ReplayGainAlbumPeak,
    Other,
}

/// Parameters of the first decodable track, as far as the probe reports them.
#[derive(Debug, Clone, Copy)]
pub struct StreamInfo {
    pub n_frames: Option<u64>,
    pub sample_rate: Option<u32>,
    pub channels: Option<u32>,
    pub bits_per_sample: Option<u32>,
}

/// Reads catalogue metadata from a probed media file.
#[derive(Debug, Clone, Copy)]
pub struct MetadataParser;

/// A number of the tag text, trimmed.
pub open spec fn num_of(s: Seq<char>) -> Option<u32> {
    parse_u32_spec(trim_spec(s))
}

/// The first four characters of a date, read as the year.
pub open spec fn year_of(s: Seq<char>) -> Option<u32> {
    parse_u32_spec(if s.len() < 4 { s } else { s.subrange(0, 4) })
}

/// `1`, or `true` in any ASCII case.
pub open spec fn flag_text(s: Seq<char>) -> bool {
    s == "1"@ || ascii_lower_spec(s) == "true"@
}

/// The text with one trailing `dB` dropped, or one ` dB` where it does not end in `dB`.
pub open spec fn strip_db_once(t: Seq<char>) -> Seq<char> {
    if t.len() >= 2 && t.subrange(t.len() - 2, t.len() as int) == "dB"@ {
        t.subrange(0, t.len() - 2)
    } else {
        t
    }
}

/// A ReplayGain gain tag: trimmed, one trailing `dB` dropped, trimmed again.
pub open spec fn gain_of(s: Seq<char>) -> Option<i64> {
    parse_fixed_spec(trim_spec(strip_db_once(trim_spec(s))))
}

/// The metadata once one tag is applied: the field of its key replaced; a number pair
/// (`n/total`) sets the total only where a `/` is present.
pub open spec fn apply_spec(m: AudioMeta, key: TagKey, v: String) -> AudioMeta {
    match key {
        TagKey::TrackTitle => AudioMeta { title: Some(v), ..m },
        TagKey::Artist => AudioMeta { artist: Some(v), ..m },
        TagKey::Album => AudioMeta { album: Some(v), ..m },
        TagKey::AlbumArtist => AudioMeta { album_artist: Some(v), ..m },
        TagKey::Genre => AudioMeta { genre: Some(v), ..m },
        TagKey::TrackNumber => {
            let (a, b) = split_pair(v@);
            AudioMeta {
                track: num_of(a),
                track_total: match b {
                    Some(t) => num_of(t),
                    None => m.track_total,
                },
                ..m
            }
        },
        TagKey::DiscNumber => {
            let (a, b) = split_pair(v@);
            AudioMeta {
                disc: num_of(a),
                disc_total: match b {
                    Some(t) => num_of(t),
                    None => m.disc_total,
                },
                ..m
            }
        },
        TagKey::TrackTotal => AudioMeta { track_total: num_of(v@), ..m },
        TagKey::DiscTotal => AudioMeta { disc_total: num_of(v@), ..m },
        TagKey::Date | TagKey::ReleaseDate => AudioMeta { date: Some(v), year: year_of(v@), ..m },
        TagKey::Composer => AudioMeta { composer: Some(v), ..m },
        TagKey::Comment => AudioMeta { comment: Some(v), ..m },
        TagKey::Lyrics => AudioMeta { lyrics: Some(v), ..m },
        TagKey::Copyright => AudioMeta { copyright: Some(v), ..m },
        TagKey::Compilation => AudioMeta { compilation: Some(flag_text(v@)), ..m },
        TagKey::Encoder => AudioMeta { encoder: Some(v), ..m },
        TagKey::SortTrackTitle => AudioMeta { title_sort: Some(v), ..m },
        TagKey::SortArtist => AudioMeta { artist_sort: Some(v), ..m },
        TagKey::SortAlbum => AudioMeta { album_sort: Some(v), ..m },
        TagKey::SortAlbumArtist => AudioMeta { album_artist_sort: Some(v), ..m },
        TagKey::MusicBrainzRecordingId => AudioMeta { mb_recording_id: Some(v), ..m },
        TagKey::MusicBrainzAlbumId => AudioMeta { mb_album_id: Some(v), ..m },
        TagKey::MusicBrainzArtistId => AudioMeta { mb_artist_id: Some(v), ..m },
        TagKey::MusicBrainzAlbumArtistId => AudioMeta { mb_album_artist_id: Some(v), ..m },
        TagKey::MusicBrainzReleaseGroupId => AudioMeta { mb_release_group_id: Some(v), ..m },
        TagKey::ReplayGainTrackGain => AudioMeta { replaygain_track_gain: gain_of(v@), ..m },
        TagKey::ReplayGainTrackPeak => AudioMeta { replaygain_track_peak: parse_fixed_spec(trim_spec(v@)), ..m },
        TagKey::ReplayGainAlbumGain => AudioMeta { replaygain_album_gain: gain_of(v@), ..m },
        TagKey::ReplayGainAlbumPeak => AudioMeta { replaygain_album_peak: parse_fixed_spec(trim_spec(v@)), ..m },
        TagKey::Other => m,
    }
}

/// The metadata once the tags are applied in order.
pub open spec fn tags_spec(m: AudioMeta, tags: Seq<(TagKey, String)>) -> AudioMeta
    decreases tags.len(),
{
    if tags.len() == 0 {
        m
    } else {
        apply_spec(tags_spec(m, tags.drop_last()), tags.last().0, tags.last().1)
    }
}

/// Whether the stream parameters can be combined without overflow or a zero rate.
pub open spec fn stream_ok(s: StreamInfo) -> bool {
    &&& match (s.n_frames, s.sample_rate) {
        (Some(n), Some(r)) => n * 1000 <= u64::MAX && r > 0,
        _ => true,
    }
    &&& match (s.bits_per_sample, s.sample_rate, s.channels) {
        (Some(b), Some(r), Some(c)) => b * r <= u32::MAX && b * r * c <= u32::MAX,
        _ => true,
    }
}

/// The metadata with the stream parameters: duration and sample rate where both the frame
/// count and the rate are known; channels; bits per sample, and the bit rate in kbit/s where
/// the rate and channels are known too.
pub open spec fn stream_spec(m: AudioMeta, s: StreamInfo) -> AudioMeta {
    let m1 = match (s.n_frames, s.sample_rate) {
        (Some(n), Some(r)) => AudioMeta { duration_ms: Some(((n * 1000) / (r as int)) as u64), sample_rate: Some(r), ..m },
        _ => m,
    };
    let m2 = match s.channels {
        Some(c) => AudioMeta { channels: Some(c), ..m1 },
        None => m1,
    };
    match s.bits_per_sample {
        Some(b) => {
            let m3 = AudioMeta { bits_per_sample: Some(b), ..m2 };
            match (s.sample_rate, s.channels) {
                (Some(r), Some(c)) => AudioMeta { bitrate: Some(((b * r * c) / 1000) as u32), ..m3 },
                _ => m3,
            }
        },
        None => m2,
    }
}

fn lit_eq(a: &Vec<char>, lit: &str) -> (r: bool)
    ensures
        r == (a@ == lit@),
{
    let b = to_chars(lit);
    crate::text::chars_eq(a.as_slice(), b.as_slice())
}

fn num_exec(s: &[char]) -> (r: Option<u32>)
    ensures
        r == num_of(s@),
{
    let t = trim_chars(s);
    parse_u32(t.as_slice())
}

fn gain_exec(s: &[char]) -> (r: Option<i64>)
    ensures
        r == gain_of(s@),
{
    let t = trim_chars(s);
    let n = t.len();
    let mut cut: Vec<char> = Vec::new();
    let ends_db = n >= 2 && t[n - 2] == 'd' && t[n - 1] == 'B';
    proof {
        reveal_strlit("dB");
        if n >= 2 {
            assert(ends_db == (t@.subrange(n - 2, n as int) == "dB"@)) by {
                if t@.subrange(n - 2, n as int) == "dB"@ {
                    assert(t@.subrange(n - 2, n as int)[0] == 'd');
                    assert(t@.subrange(n - 2, n as int)[1] == 'B');
                }
                if ends_db {
                    assert(t@.subrange(n - 2, n as int) =~= "dB"@);
                }
            }
        }
    }
    let end = if ends_db { n - 2 } else { n };
    let mut i: usize = 0;
    while i < end
        invariant
            i <= end <= n,
            n == t@.len(),
            cut@ == t@.subrange(0, i as int),
        decreases end - i,
    {
        cut.push(t[i]);
        proof {
            assert(cut@ =~= t@.subrange(0, i + 1));
        }
        i = i + 1;
    }
    proof {
        assert(cut@ =~= strip_db_once(t@));
    }
    let u = trim_chars(cut.as_slice());
    parse_fixed(u.as_slice())
}

fn pair_exec(s: &[char]) -> (r: (Option<u32>, Option<Option<u32>>))
    ensures
        r.0 == num_of(split_pair(s@).0),
        match split_pair(s@).1 {
            Some(t) => r.1 == Some(num_of(t)),
            None => r.1 is None,
        },
{
    let i = find_slash(s);
    if i < s.len() {
        let first = vstd::slice::slice_subrange(s, 0, i);
        let rest = vstd::slice::slice_subrange(s, i + 1, s.len());
        let j = find_slash(rest);
        let second = vstd::slice::slice_subrange(rest, 0, j);
        proof {
            assert(rest@ =~= s@.skip(i + 1));
        }
        (num_exec(first), Some(num_exec(second)))
    } else {
        proof {
            assert(s@.subrange(0, s@.len() as int) =~= s@);
        }
        (num_exec(s), None)
    }
}

fn year_exec(s: &[char]) -> (r: Option<u32>)
    ensures
        r == year_of(s@),
{
    if s.len() < 4 {
        parse_u32(s)
    } else {
        parse_u32(vstd::slice::slice_subrange(s, 0, 4))
    }
}

impl MetadataParser {
    pub fn new() -> (r: Self) {
        MetadataParser
    }

    /// Applies one tag to the metadata.
    pub fn apply_tag(&self, meta: &mut AudioMeta, key: TagKey, value: &String)
        ensures
            *final(meta) == apply_spec(*old(meta), key, *value),
    {
        let cs = to_chars(value.as_str());
        match key {
            TagKey::TrackTitle => meta.title = Some(value.clone()),
            TagKey::Artist => meta.artist = Some(value.clone()),
            TagKey::Album => meta.album = Some(value.clone()),
            TagKey::AlbumArtist => meta.album_artist = Some(value.clone()),
            TagKey::Genre => meta.genre = Some(value.clone()),
            TagKey::TrackNumber => {
                let (a, b) = pair_exec(cs.as_slice());
                meta.track = a;
                if let Some(t) = b {
                    meta.track_total = t;
                }
            },
            TagKey::DiscNumber => {
                let (a, b) = pair_exec(cs.as_slice());
                meta.disc = a;
                if let Some(t) = b {
                    meta.disc_total = t;
                }
            },
            TagKey::TrackTotal => meta.track_total = num_exec(cs.as_slice()),
            TagKey::DiscTotal => meta.disc_total = num_exec(cs.as_slice()),
            TagKey::Date | TagKey::ReleaseDate => {
                meta.date = Some(value.clone());
                meta.year = year_exec(cs.as_slice());
            },
            TagKey::Composer => meta.composer = Some(value.clone()),
            TagKey::Comment => meta.comment = Some(value.clone()),
            TagKey::Lyrics => meta.lyrics = Some(value.clone()),
            TagKey::Copyright => meta.copyright = Some(value.clone()),
            TagKey::Compilation => {
                let low = ascii_lower(value.as_str());
                meta.compilation = Some(lit_eq(&cs, "1") || lit_eq(&low, "true"));
            },
            TagKey::Encoder => meta.encoder = Some(value.clone()),
            TagKey::SortTrackTitle => meta.title_sort = Some(value.clone()),
            TagKey::SortArtist => meta.artist_sort = Some(value.clone()),
            TagKey::SortAlbum => meta.album_sort = Some(value.clone()),
            TagKey::SortAlbumArtist => meta.album_artist_sort = Some(value.clone()),
            TagKey::MusicBrainzRecordingId => meta.mb_recording_id = Some(value.clone()),
            TagKey::MusicBrainzAlbumId => meta.mb_album_id = Some(value.clone()),
            TagKey::MusicBrainzArtistId => meta.mb_artist_id = Some(value.clone()),
            TagKey::MusicBrainzAlbumArtistId => meta.mb_album_artist_id = Some(value.clone()),
            TagKey::MusicBrainzReleaseGroupId => meta.mb_release_group_id = Some(value.clone()),
            TagKey::ReplayGainTrackGain => meta.replaygain_track_gain = gain_exec(cs.as_slice()),
            TagKey::ReplayGainTrackPeak => {
                let t = trim_chars(cs.as_slice());
                meta.replaygain_track_peak = parse_fixed(t.as_slice());
            },
            TagKey::ReplayGainAlbumGain => meta.replaygain_album_gain = gain_exec(cs.as_slice()),
            TagKey::ReplayGainAlbumPeak => {
                let t = trim_chars(cs.as_slice());
                meta.replaygain_album_peak = parse_fixed(t.as_slice());
            },
            TagKey::Other => {},
        }
    }

    /// Applies the tags of a metadata revision in order; a later tag of a key wins.
    pub fn extract_tags(&self, meta: &mut AudioMeta, tags: &[(TagKey, String)])
        ensures
            *final(meta) == tags_spec(*old(meta), tags@),
    {
        let ghost m0 = *meta;
        let mut i: usize = 0;
        while i < tags.len()
            invariant
                i <= tags@.len(),
                *meta == tags_spec(m0, tags@.subrange(0, i as int)),
            decreases tags@.len() - i,
        {
            proof {
                assert(tags@.subrange(0, i + 1).drop_last() =~= tags@.subrange(0, i as int));
            }
            self.apply_tag(meta, tags[i].0, &tags[i].1);
            i = i + 1;
        }
        proof {
            assert(tags@.subrange(0, tags@.len() as int) =~= tags@);
        }
    }

    /// Applies the parameters of the first decodable track.
    pub fn apply_stream_info(&self, meta: &mut AudioMeta, s: StreamInfo)
        requires
            stream_ok(s),
        ensures
            *final(meta) == stream_spec(*old(meta), s),
    {
        if let (Some(n), Some(r)) = (s.n_frames, s.sample_rate) {
            meta.duration_ms = Some((n * 1000) / (r as u64));
            meta.sample_rate = Some(r);
        }
        if let Some(c) = s.channels {
            meta.channels = Some(c);
        }
        if let Some(b) = s.bits_per_sample {
            meta.bits_per_sample = Some(b);
            if let (Some(r), Some(c)) = (s.sample_rate, s.channels) {
                meta.bitrate = Some(b * r * c / 1000);
            }
        }
    }

    /// The metadata of a probed file: the format by the file's extension, then its tags in
    /// order, then the stream parameters.
    pub fn build_meta(&self, ext: &str, tags: &[(TagKey, String)], stream: StreamInfo) -> (r: AudioMeta)
        requires
            stream_ok(stream),
        ensures
            r == stream_spec(
                tags_spec((AudioMeta { format: crate::types::format_of_extension(ascii_lower_spec(ext@)), ..crate::types::empty_meta() }), tags@),
                stream,
            ),
    {
        let mut meta = AudioMeta::default();
        meta.format = AudioFormat::from_extension(ext);
        self.extract_tags(&mut meta, tags);
        self.apply_stream_info(&mut meta, stream);
        meta
    }
}

impl Default for MetadataParser {
    fn default() -> (r: Self) {
        MetadataParser::new()
    }
}

} // verus!

//! MP3 files with ID3v2 tags: where the audio lies, and tags written anew from a catalogue's
//! metadata.
use vstd::prelude::*;

use lofty::id3::v2::Id3v2Tag;

use crate::fixed::{format_gain, format_peak, parse_fixed, parse_gain, parse_gain_spec};
use crate::flac::{and_then_fixed, and_then_gain, before_dash, compilation_text, gain_opt, opt_view, peak_opt};
use crate::format::{is_invalid_data, is_synthesis_failed, FormatError, FormatLayout};
use crate::id3::{
    eng, first_comment, first_lyrics, frame_text, id3_album, id3_artist, id3_comment, id3_disk, id3_disk_total, id3_dump, id3_dump_bytes, id3_first_lyrics,
    id3_frames, id3_genre, id3_get_text, id3_get_user_text, id3_insert_comment, id3_insert_lyrics, id3_insert_text,
    id3_insert_user_text, id3_is_v4, id3_new, id3_title, id3_track, id3_track_total, insert_frame, lofty_genre,
    read_mp3_id3v2, slash_separated, text_frame_id, txxx, user_text, Id3Frame,
};
use crate::numtext::{decimal, parse_u32, parse_u32_spec, push_decimal, u32_to_string};
use crate::text::{push_char, to_chars};
use crate::types::{AudioFormat, AudioMeta};

verus! {

/// Size of an ID3v2 header.
pub const ID3V2_HEADER_SIZE: usize = 10;

/// Size of an ID3v1 tag at the end of a file.
pub const ID3V1_TAG_SIZE: usize = 128;

/// The 28-bit size in four syncsafe bytes, each shifted into place (overlapping where a
/// byte has its high bit set).
pub open spec fn syncsafe_spec(b: Seq<u8>) -> usize {
    ((b[0] as usize) << 21) | ((b[1] as usize) << 14) | ((b[2] as usize) << 7) | (b[3] as usize)
}

/// Decodes a four-byte syncsafe size.
pub fn syncsafe_decode(bytes: &[u8]) -> (r: usize)
    requires
        bytes@.len() >= 4,
    ensures
        r == syncsafe_spec(bytes@),
{
    ((bytes[0] as usize) << 21) | ((bytes[1] as usize) << 14) | ((bytes[2] as usize) << 7) | (bytes[3] as usize)
}

/// `ID3` at the start of an ID3v2 header.
pub open spec fn id3_magic(d: Seq<u8>) -> bool {
    d[0] == 0x49 && d[1] == 0x44 && d[2] == 0x33
}

/// The length of the ID3v2 tag that opens the data, header included.
pub open spec fn id3v2_size_spec(d: Seq<u8>) -> Option<usize> {
    if d.len() < 10 || !id3_magic(d) {
        None
    } else {
        Some((10 + syncsafe_spec(d.subrange(6, 10))) as usize)
    }
}

/// Where the data would hold an ID3v1 tag: 128 bytes before the end of the file (at 0 where
/// the size, as a `usize`, is smaller).
pub open spec fn id3v1_start(file_size: u64) -> int {
    if (file_size as usize) >= 128 {
        (file_size as usize) as int - 128
    } else {
        0
    }
}

/// Whether the data holds `TAG` where an ID3v1 tag would start.
pub open spec fn has_id3v1_spec(d: Seq<u8>, file_size: u64) -> bool {
    let s = id3v1_start(file_size);
    file_size >= 128 && s < d.len() && d[s] == 0x54 && d[s + 1] == 0x41 && d[s + 2] == 0x47
}

/// The inputs on which looking for an ID3v1 tag reads no byte past the data: the tag's
/// start, where it lies within the data, has three bytes after it.
pub open spec fn id3v1_readable(d: Seq<u8>, file_size: u64) -> bool {
    let s = id3v1_start(file_size);
    file_size < 128 || s >= d.len() || s + 3 <= d.len()
}

/// Whether looking for an ID3v1 tag in the data stays within it.
pub fn id3v1_readable_exec(data: &[u8], file_size: u64) -> (r: bool)
    ensures
        r == id3v1_readable(data@, file_size),
{
    if file_size < 128 {
        return true;
    }
    let fs = file_size as usize;
    let s = if fs >= 128 { fs - 128 } else { 0 };
    s >= data.len() || data.len() - s >= 3
}

/// `num` or `num/total` as written in a track or disc frame.
pub open spec fn pair_text(n: u32, total: Option<u32>) -> Seq<char> {
    match total {
        Some(t) => decimal(n as nat) + seq!['/'] + decimal(t as nat),
        None => decimal(n as nat),
    }
}

#[verifier::opaque]
pub open spec fn text(fs: Seq<Id3Frame>, id: Seq<char>, v: Option<String>) -> Seq<Id3Frame> {
    match v {
        Some(s) => insert_frame(fs, (0u8, id, Seq::empty(), s@)),
        None => fs,
    }
}

#[verifier::opaque]
pub open spec fn text_of(fs: Seq<Id3Frame>, id: Seq<char>, v: Option<Seq<char>>) -> Seq<Id3Frame> {
    match v {
        Some(s) => insert_frame(fs, (0u8, id, Seq::empty(), s)),
        None => fs,
    }
}

#[verifier::opaque]
pub open spec fn user(fs: Seq<Id3Frame>, desc: &str, v: Option<Seq<char>>) -> Seq<Id3Frame> {
    match v {
        Some(s) => insert_frame(fs, (1u8, txxx(), desc@, s)),
        None => fs,
    }
}

/// A comment (kind 2) or lyrics (kind 3) frame in English with an empty description.
#[verifier::opaque]
pub open spec fn note(fs: Seq<Id3Frame>, kind: u8, id: Seq<char>, v: Option<String>) -> Seq<Id3Frame> {
    match v {
        Some(s) => insert_frame(fs, (kind, id, eng(), s@)),
        None => fs,
    }
}

pub open spec fn year_text(y: Option<u32>) -> Option<Seq<char>> {
    match y {
        Some(n) => Some(decimal(n as nat)),
        None => None,
    }
}

pub open spec fn pair_opt(n: Option<u32>, total: Option<u32>) -> Option<Seq<char>> {
    match n {
        Some(k) => Some(pair_text(k, total)),
        None => None,
    }
}

/// The frames that `build_tag_from_meta` inserts, in order.
pub open spec fn build_frames(m: AudioMeta) -> Seq<Id3Frame> {
    let s = Seq::empty();
    let s = text(s, "TIT2"@, m.title);
    let s = text(s, "TPE1"@, m.artist);
    let s = text(s, "TALB"@, m.album);
    let s = text(s, "TPE2"@, m.album_artist);
    let s = text_of(s, "TDRC"@, year_text(m.year));
    let s = text(s, "TCON"@, m.genre);
    let s = text_of(s, "TRCK"@, pair_opt(m.track, m.track_total));
    let s = text_of(s, "TPOS"@, pair_opt(m.disc, m.disc_total));
    let s = text(s, "TDRC"@, m.date);
    let s = text(s, "TCOM"@, m.composer);
    let s = note(s, 2u8, "COMM"@, m.comment);
    let s = note(s, 3u8, "USLT"@, m.lyrics);
    let s = text(s, "TCOP"@, m.copyright);
    let s = text_of(s, "TCMP"@, compilation_text(m.compilation));
    let s = text(s, "TSOT"@, m.title_sort);
    let s = text(s, "TSOP"@, m.artist_sort);
    let s = text(s, "TSOA"@, m.album_sort);
    let s = text(s, "TSO2"@, m.album_artist_sort);
    let s = user(s, "MusicBrainz Recording Id", opt_view(m.mb_recording_id));
    let s = user(s, "MusicBrainz Album Id", opt_view(m.mb_album_id));
    let s = user(s, "MusicBrainz Artist Id", opt_view(m.mb_artist_id));
    let s = user(s, "MusicBrainz Album Artist Id", opt_view(m.mb_album_artist_id));
    let s = user(s, "MusicBrainz Release Group Id", opt_view(m.mb_release_group_id));
    let s = user(s, "REPLAYGAIN_TRACK_GAIN", gain_opt(m.replaygain_track_gain));
    let s = user(s, "REPLAYGAIN_TRACK_PEAK", peak_opt(m.replaygain_track_peak));
    let s = user(s, "REPLAYGAIN_ALBUM_GAIN", gain_opt(m.replaygain_album_gain));
    let s = user(s, "REPLAYGAIN_ALBUM_PEAK", peak_opt(m.replaygain_album_peak));
    text(s, "TSSE"@, m.encoder)
}

/// The text before the first `/`, and the one between the first and second `/` if any.
pub open spec fn split_pair(s: Seq<char>) -> (Seq<char>, Option<Seq<char>>) {
    let i = first_slash(s);
    if i < s.len() {
        let rest = s.skip(i + 1);
        (s.subrange(0, i), Some(rest.subrange(0, first_slash(rest))))
    } else {
        (s, None)
    }
}

/// The index of the first `/`, or the length where there is none.
pub open spec fn first_slash(s: Seq<char>) -> int
    decreases s.len(),
{
    if s.len() == 0 || s[0] == '/' {
        0
    } else {
        1 + first_slash(s.drop_first())
    }
}

/// `parse_track_disc`: the number before the first `/` and the one after it.
pub open spec fn track_disc_spec(s: Seq<char>) -> (Option<u32>, Option<u32>) {
    let (a, b) = split_pair(s);
    (parse_u32_spec(a), match b {
        Some(t) => parse_u32_spec(t),
        None => None,
    })
}

pub open spec fn map_text(v: Option<Seq<char>>, v4: bool) -> Option<Seq<char>> {
    match v {
        Some(s) => Some(slash_separated(s, v4)),
        None => None,
    }
}

pub open spec fn pair_of(v: Option<Seq<char>>) -> (Option<u32>, Option<u32>) {
    match v {
        Some(s) => track_disc_spec(s),
        None => (None, None),
    }
}

/// What `extract_from_tag` reads from a tag's frames.
pub open spec fn id3_extracted_from(r: AudioMeta, fs: Seq<Id3Frame>, v4: bool) -> bool {
    &&& r.format == AudioFormat::Mp3
    &&& opt_view(r.title) == map_text(frame_text(fs, "TIT2"@), v4)
    &&& opt_view(r.artist) == map_text(frame_text(fs, "TPE1"@), v4)
    &&& opt_view(r.album) == map_text(frame_text(fs, "TALB"@), v4)
    &&& opt_view(r.album_artist) == frame_text(fs, "TPE2"@)
    &&& opt_view(r.genre) == (match frame_text(fs, "TCON"@) {
        Some(v) => lofty_genre(v),
        None => None,
    })
    &&& (r.track, r.track_total) == pair_of(frame_text(fs, "TRCK"@))
    &&& (r.disc, r.disc_total) == pair_of(frame_text(fs, "TPOS"@))
    &&& opt_view(r.date) == frame_text(fs, "TDRC"@)
    &&& r.year == (match frame_text(fs, "TDRC"@) {
        Some(d) => parse_u32_spec(before_dash(d)),
        None => None,
    })
    &&& opt_view(r.composer) == frame_text(fs, "TCOM"@)
    &&& opt_view(r.comment) == first_comment(fs)
    &&& opt_view(r.lyrics) == first_lyrics(fs)
    &&& opt_view(r.copyright) == frame_text(fs, "TCOP"@)
    &&& r.compilation == (match frame_text(fs, "TCMP"@) {
        Some(c) => Some(c == seq!['1']),
        None => None,
    })
    &&& opt_view(r.title_sort) == frame_text(fs, "TSOT"@)
    &&& opt_view(r.artist_sort) == frame_text(fs, "TSOP"@)
    &&& opt_view(r.album_sort) == frame_text(fs, "TSOA"@)
    &&& opt_view(r.album_artist_sort) == frame_text(fs, "TSO2"@)
    &&& opt_view(r.mb_recording_id) == user_text(fs, "MusicBrainz Recording Id"@)
    &&& opt_view(r.mb_album_id) == user_text(fs, "MusicBrainz Album Id"@)
    &&& opt_view(r.mb_artist_id) == user_text(fs, "MusicBrainz Artist Id"@)
    &&& opt_view(r.mb_album_artist_id) == user_text(fs, "MusicBrainz Album Artist Id"@)
    &&& opt_view(r.mb_release_group_id) == user_text(fs, "MusicBrainz Release Group Id"@)
    &&& r.replaygain_track_gain == and_then_gain(user_text(fs, "REPLAYGAIN_TRACK_GAIN"@))
    &&& r.replaygain_track_peak == and_then_fixed(user_text(fs, "REPLAYGAIN_TRACK_PEAK"@))
    &&& r.replaygain_album_gain == and_then_gain(user_text(fs, "REPLAYGAIN_ALBUM_GAIN"@))
    &&& r.replaygain_album_peak == and_then_fixed(user_text(fs, "REPLAYGAIN_ALBUM_PEAK"@))
    &&& opt_view(r.encoder) == frame_text(fs, "TSSE"@)
    &&& r.duration_ms is None
    &&& r.bitrate is None
    &&& r.sample_rate is None
    &&& r.channels is None
    &&& r.bits_per_sample is None
}

/// The layout `analyze` reports: the audio after any ID3v2 tag and before any ID3v1 tag.
pub open spec fn id3_layout_ok(l: FormatLayout, d: Seq<u8>, file_size: u64) -> bool {
    &&& l.audio_start == (match id3v2_size_spec(d) {
        Some(n) => n as u64,
        None => 0,
    })
    &&& l.audio_end == (if has_id3v1_spec(d, file_size) { (file_size - 128) as u64 } else { file_size })
    &&& l.format == AudioFormat::Mp3
    &&& l.format_data is None
}

/// The text frame ids that the handler writes.
proof fn lemma_text_ids()
    ensures
        text_frame_id("TIT2"@),
        text_frame_id("TPE1"@),
        text_frame_id("TALB"@),
        text_frame_id("TPE2"@),
        text_frame_id("TDRC"@),
        text_frame_id("TCON"@),
        text_frame_id("TRCK"@),
        text_frame_id("TPOS"@),
        text_frame_id("TCOM"@),
        text_frame_id("TCOP"@),
        text_frame_id("TCMP"@),
        text_frame_id("TSOT"@),
        text_frame_id("TSOP"@),
        text_frame_id("TSOA"@),
        text_frame_id("TSO2"@),
        text_frame_id("TSSE"@),
{
    reveal_strlit("TIT2");
    reveal_strlit("TPE1");
    reveal_strlit("TALB");
    reveal_strlit("TPE2");
    reveal_strlit("TDRC");
    reveal_strlit("TCON");
    reveal_strlit("TRCK");
    reveal_strlit("TPOS");
    reveal_strlit("TCOM");
    reveal_strlit("TCOP");
    reveal_strlit("TCMP");
    reveal_strlit("TSOT");
    reveal_strlit("TSOP");
    reveal_strlit("TSOA");
    reveal_strlit("TSO2");
    reveal_strlit("TSSE");
    assert("TIT2"@ =~= seq!['T', 'I', 'T', '2']);
    assert("TPE1"@ =~= seq!['T', 'P', 'E', '1']);
    assert("TALB"@ =~= seq!['T', 'A', 'L', 'B']);
    assert("TPE2"@ =~= seq!['T', 'P', 'E', '2']);
    assert("TDRC"@ =~= seq!['T', 'D', 'R', 'C']);
    assert("TCON"@ =~= seq!['T', 'C', 'O', 'N']);
    assert("TRCK"@ =~= seq!['T', 'R', 'C', 'K']);
    assert("TPOS"@ =~= seq!['T', 'P', 'O', 'S']);
    assert("TCOM"@ =~= seq!['T', 'C', 'O', 'M']);
    assert("TCOP"@ =~= seq!['T', 'C', 'O', 'P']);
    assert("TCMP"@ =~= seq!['T', 'C', 'M', 'P']);
    assert("TSOT"@ =~= seq!['T', 'S', 'O', 'T']);
    assert("TSOP"@ =~= seq!['T', 'S', 'O', 'P']);
    assert("TSOA"@ =~= seq!['T', 'S', 'O', 'A']);
    assert("TSO2"@ =~= seq!['T', 'S', 'O', '2']);
    assert("TSSE"@ =~= seq!['T', 'S', 'S', 'E']);
}

/// The ID3v2 (MP3) format handler.
#[derive(Debug, Clone, Copy)]
pub struct Id3v2Handler;

fn ensure_text_id(id: &'static str, cs: &Vec<char>) -> (r: bool)
    requires
        cs@ == id@,
    ensures
        r == text_frame_id(id@),
{
    if cs.len() != 4 || cs[0] != 'T' {
        return false;
    }
    let mut i: usize = 0;
    while i < 4
        invariant
            cs@.len() == 4,
            cs@ == id@,
            cs@[0] == 'T',
            i <= 4,
            forall|j: int| 0 <= j < i ==> ('A' <= #[trigger] cs@[j] && cs@[j] <= 'Z') || ('0' <= cs@[j] && cs@[j] <= '9'),
        decreases 4 - i,
    {
        let c = cs[i];
        if !(('A' <= c && c <= 'Z') || ('0' <= c && c <= '9')) {
            return false;
        }
        i = i + 1;
    }
    let is_txxx = cs[1] == 'X' && cs[2] == 'X' && cs[3] == 'X';
    proof {
        if is_txxx {
            assert(cs@ =~= txxx());
        }
        if cs@ == txxx() {
            assert(cs@[1] == 'X' && cs@[2] == 'X' && cs@[3] == 'X');
        }
    }
    !is_txxx
}

impl Id3v2Handler {
    pub fn new() -> (r: Self) {
        Id3v2Handler
    }

    /// The length of the ID3v2 tag that opens the data, its ten-byte header included.
    pub fn parse_id3v2_header(data: &[u8]) -> (r: Option<usize>)
        ensures
            r == id3v2_size_spec(data@),
    {
        if data.len() < ID3V2_HEADER_SIZE {
            return None;
        }
        if !(data[0] == 0x49 && data[1] == 0x44 && data[2] == 0x33) {
            return None;
        }
        let size = syncsafe_decode(vstd::slice::slice_subrange(data, 6, 10));
        proof {
            let b = data@.subrange(6, 10);
            let b0 = b[0];
            let b1 = b[1];
            let b2 = b[2];
            let b3 = b[3];
            let s = syncsafe_spec(b);
            assert(s == ((b0 as usize) << 21) | ((b1 as usize) << 14) | ((b2 as usize) << 7) | (b3 as usize));
            assert(((b0 as usize) << 21) | ((b1 as usize) << 14) | ((b2 as usize) << 7) | (b3 as usize) <= 0x1fff_ffff) by (bit_vector);
        }
        Some(ID3V2_HEADER_SIZE + size)
    }

    /// Whether the data holds an ID3v1 tag (`TAG`) 128 bytes before the end of the file.
    pub fn has_id3v1_tag(data: &[u8], file_size: u64) -> (r: bool)
        requires
            id3v1_readable(data@, file_size),
        ensures
            r == has_id3v1_spec(data@, file_size),
    {
        if file_size < ID3V1_TAG_SIZE as u64 {
            return false;
        }
        let fs = file_size as usize;
        let tag_start = if fs >= ID3V1_TAG_SIZE { fs - ID3V1_TAG_SIZE } else { 0 };
        if tag_start >= data.len() {
            return false;
        }
        data[tag_start] == 0x54 && data[tag_start + 1] == 0x41 && data[tag_start + 2] == 0x47
    }

    /// A track or disc number with its optional total.
    pub fn parse_track_disc(value: &str) -> (r: (Option<u32>, Option<u32>))
        ensures
            r == track_disc_spec(value@),
    {
        let cs = to_chars(value);
        let i = find_slash(cs.as_slice());
        if i < cs.len() {
            let first = vstd::slice::slice_subrange(cs.as_slice(), 0, i);
            let rest = vstd::slice::slice_subrange(cs.as_slice(), i + 1, cs.len());
            let j = find_slash(rest);
            let second = vstd::slice::slice_subrange(rest, 0, j);
            proof {
                assert(rest@ =~= cs@.skip(i + 1));
            }
            (parse_u32(first), parse_u32(second))
        } else {
            proof {
                assert(cs@.subrange(0, cs@.len() as int) =~= cs@);
            }
            (parse_u32(cs.as_slice()), None)
        }
    }

    /// A ReplayGain gain: trimmed, without a trailing ` dB` or `dB`, in millionths of a dB.
    pub fn parse_replaygain_value(value: &str) -> (r: Option<i64>)
        ensures
            r == parse_gain_spec(value@),
    {
        parse_gain(to_chars(value).as_slice())
    }

    /// An ID3v2 tag for a catalogue entry.
    pub fn build_tag_from_meta(metadata: &AudioMeta) -> (r: Id3v2Tag)
        ensures
            id3_frames(r) == build_frames(*metadata),
            id3_is_v4(r),
    {
        proof {
            lemma_text_ids();
            reveal(text);
            reveal(text_of);
            reveal(user);
            reveal(note);
        }
        let m = metadata;
        let mut tag = id3_new();
        set_text(&mut tag, "TIT2", &m.title);
        set_text(&mut tag, "TPE1", &m.artist);
        set_text(&mut tag, "TALB", &m.album);
        set_text(&mut tag, "TPE2", &m.album_artist);
        match m.year {
            Some(y) => set_text_value(&mut tag, "TDRC", u32_to_string(y)),
            None => {},
        }
        set_text(&mut tag, "TCON", &m.genre);
        match m.track {
            Some(t) => set_text_value(&mut tag, "TRCK", pair_string(t, m.track_total)),
            None => {},
        }
        match m.disc {
            Some(d) => set_text_value(&mut tag, "TPOS", pair_string(d, m.disc_total)),
            None => {},
        }
        set_text(&mut tag, "TDRC", &m.date);
        set_text(&mut tag, "TCOM", &m.composer);
        match &m.comment {
            Some(c) => id3_insert_comment(&mut tag, c.clone()),
            None => {},
        }
        match &m.lyrics {
            Some(l) => id3_insert_lyrics(&mut tag, l.clone()),
            None => {},
        }
        set_text(&mut tag, "TCOP", &m.copyright);
        match m.compilation {
            Some(c) => {
                let v = if c { "1".to_owned() } else { "0".to_owned() };
                proof {
                    reveal_strlit("1");
                    reveal_strlit("0");
                    assert(v@ =~= (if c { seq!['1'] } else { seq!['0'] }));
                }
                set_text_value(&mut tag, "TCMP", v);
            },
            None => {},
        }
        set_text(&mut tag, "TSOT", &m.title_sort);
        set_text(&mut tag, "TSOP", &m.artist_sort);
        set_text(&mut tag, "TSOA", &m.album_sort);
        set_text(&mut tag, "TSO2", &m.album_artist_sort);
        set_user(&mut tag, "MusicBrainz Recording Id", &m.mb_recording_id);
        set_user(&mut tag, "MusicBrainz Album Id", &m.mb_album_id);
        set_user(&mut tag, "MusicBrainz Artist Id", &m.mb_artist_id);
        set_user(&mut tag, "MusicBrainz Album Artist Id", &m.mb_album_artist_id);
        set_user(&mut tag, "MusicBrainz Release Group Id", &m.mb_release_group_id);
        match m.replaygain_track_gain {
            Some(g) => id3_insert_user_text(&mut tag, "REPLAYGAIN_TRACK_GAIN".to_owned(), format_gain(g)),
            None => {},
        }
        match m.replaygain_track_peak {
            Some(p) => id3_insert_user_text(&mut tag, "REPLAYGAIN_TRACK_PEAK".to_owned(), format_peak(p)),
            None => {},
        }
        match m.replaygain_album_gain {
            Some(g) => id3_insert_user_text(&mut tag, "REPLAYGAIN_ALBUM_GAIN".to_owned(), format_gain(g)),
            None => {},
        }
        match m.replaygain_album_peak {
            Some(p) => id3_insert_user_text(&mut tag, "REPLAYGAIN_ALBUM_PEAK".to_owned(), format_peak(p)),
            None => {},
        }
        set_text(&mut tag, "TSSE", &m.encoder);
        tag
    }

    /// Metadata read from an ID3v2 tag.
    #[verifier::rlimit(60)]
    pub fn extract_from_tag(tag: &Id3v2Tag) -> (r: AudioMeta)
        ensures
            id3_extracted_from(r, id3_frames(*tag), id3_is_v4(*tag)),
    {
        proof {
            lemma_text_ids();
        }
        let mut meta = AudioMeta::default();
        meta.format = AudioFormat::Mp3;
        meta.title = id3_title(tag);
        meta.artist = id3_artist(tag);
        meta.album = id3_album(tag);
        meta.album_artist = get_text_owned(tag, "TPE2");
        meta.genre = id3_genre(tag);
        match get_text_ref(tag, "TRCK") {
            Some(s) => {
                let (t, tt) = Self::parse_track_disc(s);
                meta.track = t;
                meta.track_total = tt;
            },
            None => {
                meta.track = id3_track(tag);
                meta.track_total = id3_track_total(tag);
            },
        }
        match get_text_ref(tag, "TPOS") {
            Some(s) => {
                let (d, dt) = Self::parse_track_disc(s);
                meta.disc = d;
                meta.disc_total = dt;
            },
            None => {
                meta.disc = id3_disk(tag);
                meta.disc_total = id3_disk_total(tag);
            },
        }
        meta.date = get_text_owned(tag, "TDRC");
        match get_text_ref(tag, "TDRC") {
            Some(d) => {
                let cs = to_chars(d);
                let head = crate::flac::before_dash_exec(cs.as_slice());
                meta.year = parse_u32(head.as_slice());
            },
            None => {},
        }
        meta.composer = get_text_owned(tag, "TCOM");
        meta.comment = id3_comment(tag);
        meta.lyrics = id3_first_lyrics(tag);
        meta.copyright = get_text_owned(tag, "TCOP");
        match get_text_ref(tag, "TCMP") {
            Some(c) => {
                let cs = to_chars(c);
                let one = cs.len() == 1 && cs[0] == '1';
                proof {
                    if one {
                        assert(cs@ =~= seq!['1']);
                    }
                    if cs@ == seq!['1'] {
                        assert(cs@[0] == '1');
                    }
                }
                meta.compilation = Some(one);
            },
            None => {},
        }
        meta.title_sort = get_text_owned(tag, "TSOT");
        meta.artist_sort = get_text_owned(tag, "TSOP");
        meta.album_sort = get_text_owned(tag, "TSOA");
        meta.album_artist_sort = get_text_owned(tag, "TSO2");
        meta.mb_recording_id = get_user_owned(tag, "MusicBrainz Recording Id");
        meta.mb_album_id = get_user_owned(tag, "MusicBrainz Album Id");
        meta.mb_artist_id = get_user_owned(tag, "MusicBrainz Artist Id");
        meta.mb_album_artist_id = get_user_owned(tag, "MusicBrainz Album Artist Id");
        meta.mb_release_group_id = get_user_owned(tag, "MusicBrainz Release Group Id");
        match id3_get_user_text(tag, "REPLAYGAIN_TRACK_GAIN") {
            Some(g) => meta.replaygain_track_gain = Self::parse_replaygain_value(g),
            None => {},
        }
        match id3_get_user_text(tag, "REPLAYGAIN_TRACK_PEAK") {
            Some(p) => meta.replaygain_track_peak = parse_fixed(to_chars(p).as_slice()),
            None => {},
        }
        match id3_get_user_text(tag, "REPLAYGAIN_ALBUM_GAIN") {
            Some(g) => meta.replaygain_album_gain = Self::parse_replaygain_value(g),
            None => {},
        }
        match id3_get_user_text(tag, "REPLAYGAIN_ALBUM_PEAK") {
            Some(p) => meta.replaygain_album_peak = parse_fixed(to_chars(p).as_slice()),
            None => {},
        }
        meta.encoder = get_text_owned(tag, "TSSE");
        meta
    }

    pub fn id(&self) -> (r: &'static str)
        ensures
            r@ == "id3v2"@,
    {
        "id3v2"
    }

    pub fn name(&self) -> (r: &'static str)
        ensures
            r@ == "ID3v2 (MP3)"@,
    {
        "ID3v2 (MP3)"
    }

    pub fn extensions(&self) -> (r: Vec<&'static str>)
        ensures
            r@.len() == 1,
            r@[0]@ == "mp3"@,
    {
        let mut v = Vec::new();
        v.push("mp3");
        v
    }

    pub fn mime_types(&self) -> (r: Vec<&'static str>)
        ensures
            r@.len() == 1,
            r@[0]@ == "audio/mpeg"@,
    {
        let mut v = Vec::new();
        v.push("audio/mpeg");
        v
    }

    /// The audio lies after any ID3v2 tag and before any ID3v1 tag.
    pub fn analyze(&self, data: &[u8], file_size: u64) -> (r: Result<FormatLayout, FormatError>)
        requires
            id3v1_readable(data@, file_size),
        ensures
            match r {
                Ok(l) => id3_layout_ok(l, data@, file_size),
                Err(_) => false,
            },
    {
        let audio_start = match Self::parse_id3v2_header(data) {
            Some(n) => n as u64,
            None => 0,
        };
        let audio_end = if Self::has_id3v1_tag(data, file_size) { file_size - ID3V1_TAG_SIZE as u64 } else { file_size };
        Ok(FormatLayout { audio_start, audio_end, format: AudioFormat::Mp3, format_data: None })
    }

    /// A new ID3v2 tag for the metadata, as bytes: what the tag library writes for a version
    /// 2.4 tag holding exactly the frames built from the metadata, or its error as a synthesis
    /// failure; none at all for empty metadata.
    pub fn synthesize(&self, metadata: &AudioMeta, layout: &FormatLayout) -> (r: Result<Vec<u8>, FormatError>)
        ensures
            exists|t: Id3v2Tag|
                #![trigger id3_dump_bytes(t)]
                id3_frames(t) == build_frames(*metadata) && id3_is_v4(t) && match r {
                    Ok(v) => id3_dump_bytes(t) == Ok::<Seq<u8>, Seq<char>>(v@),
                    Err(e) => exists|msg: Seq<char>| id3_dump_bytes(t) == Err::<Seq<u8>, Seq<char>>(msg) && is_synthesis_failed(e, msg),
                },
            build_frames(*metadata).len() == 0 ==> (match r {
                Ok(v) => v@.len() == 0,
                Err(_) => false,
            }),
    {
        let tag = Self::build_tag_from_meta(metadata);
        match id3_dump(&tag) {
            Ok(bytes) => {
                proof {
                    assert(id3_dump_bytes(tag) == Ok::<Seq<u8>, Seq<char>>(bytes@));
                }
                Ok(bytes)
            },
            Err(msg) => {
                let e = FormatError::SynthesisFailed(msg);
                proof {
                    assert(id3_dump_bytes(tag) == Err::<Seq<u8>, Seq<char>>(msg@) && is_synthesis_failed(e, msg@));
                }
                Err(e)
            },
        }
    }

    /// Metadata from the outcome of reading an MP3 stream: the read's error, a refusal where
    /// there is no ID3v2 tag, else the metadata of the tag.
    pub fn extract_from_read(read: Result<Option<Id3v2Tag>, String>) -> (r: Result<AudioMeta, FormatError>)
        ensures
            id3_extracted_from_read(r, read),
    {
        match read {
            Err(msg) => Err(FormatError::InvalidData(msg)),
            Ok(None) => Err(FormatError::InvalidData("No ID3v2 tag found".to_owned())),
            Ok(Some(tag)) => Ok(Self::extract_from_tag(&tag)),
        }
    }

    /// Metadata from the ID3v2 tag of an MP3 stream, as lofty reads it. Whatever the read
    /// gives, the result is what `extract_from_read` makes of it: metadata of some tag, or
    /// invalid data.
    pub fn extract(&self, data: &[u8]) -> (r: Result<AudioMeta, FormatError>)
        ensures
            exists|read: Result<Option<Id3v2Tag>, String>| id3_extracted_from_read(r, read),
            r is Err ==> r->Err_0 is InvalidData,
            r is Ok ==> exists|t: Id3v2Tag| id3_extracted_from(r->Ok_0, #[trigger] id3_frames(t), id3_is_v4(t)),
    {
        let read = read_mp3_id3v2(data);
        let ghost g = read;
        let r = Self::extract_from_read(read);
        proof {
            assert(id3_extracted_from_read(r, g));
            match g {
                Ok(Some(t)) => {
                    assert(id3_extracted_from(r->Ok_0, id3_frames(t), id3_is_v4(t)));
                },
                _ => {},
            }
        }
        r
    }

    /// A 4 KiB tag and 1 KiB of padding.
    pub fn estimate_header_size(&self, metadata: &AudioMeta) -> (r: usize)
        ensures
            r == 5120,
    {
        4096 + 1024
    }
}

impl Default for Id3v2Handler {
    fn default() -> (r: Self) {
        Id3v2Handler
    }
}

/// What a metadata read gives for the outcome of reading an MP3 stream: the read's error
/// text, a refusal where the stream has no ID3v2 tag, else the metadata of its tag.
pub open spec fn id3_extracted_from_read(r: Result<AudioMeta, FormatError>, read: Result<Option<Id3v2Tag>, String>) -> bool {
    match (r, read) {
        (Err(e), Err(msg)) => is_invalid_data(e, msg@),
        (Err(e), Ok(None)) => is_invalid_data(e, "No ID3v2 tag found"@),
        (Ok(m), Ok(Some(t))) => id3_extracted_from(m, id3_frames(t), id3_is_v4(t)),
        _ => false,
    }
}

pub(crate) fn find_slash(s: &[char]) -> (r: usize)
    ensures
        r == first_slash(s@),
        r <= s@.len(),
{
    let mut i: usize = 0;
    proof {
        assert(s@.skip(0) =~= s@);
    }
    while i < s.len() && s[i] != '/'
        invariant
            i <= s@.len(),
            first_slash(s@) == i + first_slash(s@.skip(i as int)),
        decreases s@.len() - i,
    {
        proof {
            assert(s@.skip(i as int).drop_first() =~= s@.skip(i + 1));
        }
        i = i + 1;
    }
    i
}

fn pair_string(n: u32, total: Option<u32>) -> (r: String)
    ensures
        r@ == pair_text(n, total),
{
    let mut s = u32_to_string(n);
    match total {
        Some(t) => {
            push_char(&mut s, '/');
            push_decimal(&mut s, t as u64);
        },
        None => {},
    }
    s
}

fn get_text_ref<'a>(tag: &'a Id3v2Tag, id: &str) -> (r: Option<&'a str>)
    ensures
        is_frame_id(id@) ==> (match r {
            Some(v) => frame_text(id3_frames(*tag), id@) == Some(v@),
            None => frame_text(id3_frames(*tag), id@) is None,
        }),
{
    let cs = to_chars(id);
    if !frame_id_shape(&cs) {
        return None;
    }
    id3_get_text(tag, id)
}

fn set_text_value(tag: &mut Id3v2Tag, id: &'static str, value: String)
    ensures
        text_frame_id(id@) ==> id3_frames(*final(tag)) == insert_frame(id3_frames(*old(tag)), (0u8, id@, Seq::empty(), value@)),
        !text_frame_id(id@) ==> id3_frames(*final(tag)) == id3_frames(*old(tag)),
        id3_is_v4(*final(tag)) == id3_is_v4(*old(tag)),
{
    let cs = to_chars(id);
    if ensure_text_id(id, &cs) {
        id3_insert_text(tag, id, value);
    }
}

fn set_text(tag: &mut Id3v2Tag, id: &'static str, v: &Option<String>)
    ensures
        text_frame_id(id@) ==> id3_frames(*final(tag)) == crate::id3v2::text(id3_frames(*old(tag)), id@, *v),
        !text_frame_id(id@) ==> id3_frames(*final(tag)) == id3_frames(*old(tag)),
        id3_is_v4(*final(tag)) == id3_is_v4(*old(tag)),
{
    proof {
        reveal(text);
    }
    match v {
        Some(s) => set_text_value(tag, id, s.clone()),
        None => {},
    }
}

fn set_user(tag: &mut Id3v2Tag, desc: &str, v: &Option<String>)
    ensures
        id3_frames(*final(tag)) == user(id3_frames(*old(tag)), desc, opt_view(*v)),
        id3_is_v4(*final(tag)) == id3_is_v4(*old(tag)),
{
    proof {
        reveal(user);
    }
    match v {
        Some(s) => id3_insert_user_text(tag, desc.to_owned(), s.clone()),
        None => {},
    }
}

fn get_text_owned(tag: &Id3v2Tag, id: &'static str) -> (r: Option<String>)
    ensures
        is_frame_id(id@) ==> opt_view(r) == frame_text(id3_frames(*tag), id@),
{
    match get_text_ref(tag, id) {
        Some(s) => Some(s.to_owned()),
        None => None,
    }
}

fn get_user_owned(tag: &Id3v2Tag, desc: &str) -> (r: Option<String>)
    ensures
        opt_view(r) == user_text(id3_frames(*tag), desc@),
{
    match id3_get_user_text(tag, desc) {
        Some(s) => Some(s.to_owned()),
        None => None,
    }
}

/// Four upper-case letters or digits.
pub open spec fn is_frame_id(id: Seq<char>) -> bool {
    id.len() == 4 && forall|i: int| 0 <= i < 4 ==> ('A' <= #[trigger] id[i] && id[i] <= 'Z') || ('0' <= id[i] && id[i] <= '9')
}

fn frame_id_shape(cs: &Vec<char>) -> (r: bool)
    ensures
        r == is_frame_id(cs@),
{
    if cs.len() != 4 {
        return false;
    }
    let mut i: usize = 0;
    while i < 4
        invariant
            cs@.len() == 4,
            i <= 4,
            forall|j: int| 0 <= j < i ==> ('A' <= #[trigger] cs@[j] && cs@[j] <= 'Z') || ('0' <= cs@[j] && cs@[j] <= '9'),
        decreases 4 - i,
    {
        let c = cs[i];
        if !(('A' <= c && c <= 'Z') || ('0' <= c && c <= '9')) {
            return false;
        }
        i = i + 1;
    }
    true
}

} // verus!

//! Core value types shared across the library.
use vstd::prelude::*;

use crate::hexfmt::{decode_hex, encode_hex, hex_decode, hex_encode};
use crate::text::{ascii_lower, to_chars};

verus! {

#[verifier::external_type_specification]
#[verifier::external_body]
pub struct ExSystemTime(std::time::SystemTime);

#[verifier::external_type_specification]
#[verifier::external_body]
pub struct ExPathBuf(std::path::PathBuf);

#[verifier::external_type_specification]
#[verifier::external_body]
pub struct ExPath(std::path::Path);

/// `SystemTime::clone`: the type is `Copy`, so the clone is the same instant.
pub assume_specification[ <std::time::SystemTime as Clone>::clone ](t: &std::time::SystemTime) -> (r: std::time::SystemTime)
    ensures
        r == *t,
;

/// `Duration::clone`: the type is `Copy`, so the clone is the same span.
pub assume_specification[ <std::time::Duration as Clone>::clone ](d: &std::time::Duration) -> (r: std::time::Duration)
    ensures
        r == *d,
;

/// `PathBuf::clone`: nothing is claimed of the copy.
pub assume_specification[ <std::path::PathBuf as Clone>::clone ](p: &std::path::PathBuf) -> std::path::PathBuf;

/// Identifier of an origin (a configured music source).
#[derive(Debug, Clone, Hash)]
pub struct OriginId(pub String);

impl View for OriginId {
    type V = Seq<char>;

    open spec fn view(&self) -> Seq<char> {
        self.0@
    }
}

impl PartialEq for OriginId {
    fn eq(&self, other: &Self) -> (r: bool) {
        self.0 == other.0
    }
}

impl Eq for OriginId {}

impl vstd::std_specs::cmp::PartialEqSpecImpl for OriginId {
    open spec fn obeys_eq_spec() -> bool {
        true
    }

    open spec fn eq_spec(&self, other: &Self) -> bool {
        self.0@ == other.0@
    }
}

impl<'a> From<&'a str> for OriginId {
    fn from(s: &'a str) -> (r: Self) {
        OriginId(s.to_owned())
    }
}

impl<'a> vstd::std_specs::convert::FromSpecImpl<&'a str> for OriginId {
    /// The conversion is not modelled through `from_spec`; `OriginId::new` states it.
    open spec fn obeys_from_spec() -> bool {
        false
    }

    open spec fn from_spec(s: &'a str) -> Self {
        choose|o: OriginId| o@ == s@
    }
}

impl OriginId {
    pub fn new(s: &str) -> (r: Self)
        ensures
            r@ == s@,
    {
        OriginId(s.to_owned())
    }
}

/// Database identifier of a file.
#[derive(Debug, Clone, Copy, PartialEq, Eq, Hash, Structural)]
pub struct FileId(pub i64);

/// A path in the virtual (metadata-organised) tree.
#[derive(Debug, Clone, Hash)]
pub struct VirtualPath(pub String);

impl View for VirtualPath {
    type V = Seq<char>;

    open spec fn view(&self) -> Seq<char> {
        self.0@
    }
}

impl PartialEq for VirtualPath {
    fn eq(&self, other: &Self) -> (r: bool) {
        self.0 == other.0
    }
}

impl Eq for VirtualPath {}

impl vstd::std_specs::cmp::PartialEqSpecImpl for VirtualPath {
    open spec fn obeys_eq_spec() -> bool {
        true
    }

    open spec fn eq_spec(&self, other: &Self) -> bool {
        self.0@ == other.0@
    }
}

/// The text a path slice wraps, as characters.
pub uninterp spec fn path_text(p: &std::path::Path) -> Seq<char>;

/// `Path::new`: wraps the text as a path slice, without changing it.
#[verifier::external_body]
fn std_path_of(s: &str) -> (r: &std::path::Path)
    ensures
        path_text(r) == s@,
{
    std::path::Path::new(s)
}

impl VirtualPath {
    pub fn new(path: &str) -> (r: Self)
        ensures
            r@ == path@,
    {
        VirtualPath(path.to_owned())
    }

    pub fn as_path(&self) -> (r: &std::path::Path)
        ensures
            path_text(r) == self@,
    {
        std_path_of(self.0.as_str())
    }

    pub fn as_str(&self) -> (r: &str)
        ensures
            r@ == self@,
    {
        self.0.as_str()
    }
}

/// Location of a file in one origin.
#[derive(Debug, Clone)]
pub struct RealPath {
    pub origin_id: OriginId,
    pub path: std::path::PathBuf,
}

/// Hash of a whole file's content.
#[derive(Debug, Clone, Copy, Hash)]
pub struct ContentHash(pub [u8; 8]);

impl PartialEq for ContentHash {
    fn eq(&self, other: &Self) -> (r: bool) {
        let a = &self.0;
        let b = &other.0;
        let r = a[0] == b[0] && a[1] == b[1] && a[2] == b[2] && a[3] == b[3] && a[4] == b[4]
            && a[5] == b[5] && a[6] == b[6] && a[7] == b[7];
        proof {
            if r {
                assert(a@ =~= b@);
            }
        }
        r
    }
}

impl Eq for ContentHash {}

impl vstd::std_specs::cmp::PartialEqSpecImpl for ContentHash {
    open spec fn obeys_eq_spec() -> bool {
        true
    }

    open spec fn eq_spec(&self, other: &Self) -> bool {
        self.0@ == other.0@
    }
}

/// Hash of one content-addressed chunk.
#[derive(Debug, Clone, Copy, Hash)]
pub struct ChunkHash(pub [u8; 8]);

impl PartialEq for ChunkHash {
    fn eq(&self, other: &Self) -> (r: bool) {
        let a = &self.0;
        let b = &other.0;
        let r = a[0] == b[0] && a[1] == b[1] && a[2] == b[2] && a[3] == b[3] && a[4] == b[4]
            && a[5] == b[5] && a[6] == b[6] && a[7] == b[7];
        proof {
            if r {
                assert(a@ =~= b@);
            }
        }
        r
    }
}

impl Eq for ChunkHash {}

impl vstd::std_specs::cmp::PartialEqSpecImpl for ChunkHash {
    open spec fn obeys_eq_spec() -> bool {
        true
    }

    open spec fn eq_spec(&self, other: &Self) -> bool {
        self.0@ == other.0@
    }
}

/// The 64-bit xxHash (XXH64) of `data` with `seed`.
pub uninterp spec fn xxh64_spec(data: Seq<u8>, seed: u64) -> u64;

/// `xxhash_rust::xxh64::xxh64`: the XXH64 digest of the data with the seed, a function of the
/// two alone.
#[verifier::external_body]
pub(crate) fn xxh64(data: &[u8], seed: u64) -> (r: u64)
    ensures
        r == xxh64_spec(data@, seed),
{
    xxhash_rust::xxh64::xxh64(data, seed)
}

/// The eight bytes of a `u64`, least significant first.
pub open spec fn le_bytes(n: u64) -> Seq<u8> {
    seq![
        (n % 0x100) as u8,
        ((n / 0x100) % 0x100) as u8,
        ((n / 0x1_0000) % 0x100) as u8,
        ((n / 0x100_0000) % 0x100) as u8,
        ((n / 0x1_0000_0000) % 0x100) as u8,
        ((n / 0x100_0000_0000) % 0x100) as u8,
        ((n / 0x1_0000_0000_0000) % 0x100) as u8,
        ((n / 0x100_0000_0000_0000) % 0x100) as u8,
    ]
}

/// The bytes of a `u64`, least significant first.
pub fn to_le_bytes(n: u64) -> (r: [u8; 8])
    ensures
        r@ == le_bytes(n),
{
    let r = [
        (n % 0x100) as u8,
        ((n / 0x100) % 0x100) as u8,
        ((n / 0x1_0000) % 0x100) as u8,
        ((n / 0x100_0000) % 0x100) as u8,
        ((n / 0x1_0000_0000) % 0x100) as u8,
        ((n / 0x100_0000_0000) % 0x100) as u8,
        ((n / 0x1_0000_0000_0000) % 0x100) as u8,
        ((n / 0x100_0000_0000_0000) % 0x100) as u8,
    ];
    proof {
        assert(r@ =~= le_bytes(n));
    }
    r
}

/// The content hash of some bytes: their XXH64 digest with seed 0, least significant byte first.
pub open spec fn digest_of(data: Seq<u8>) -> Seq<u8> {
    le_bytes(xxh64_spec(data, 0))
}

impl ContentHash {
    /// The hash of a file's content.
    pub fn from_bytes(data: &[u8]) -> (r: Self)
        ensures
            r.0@ == digest_of(data@),
    {
        ContentHash(to_le_bytes(xxh64(data, 0)))
    }

    /// The hash as sixteen lower-case hex digits.
    pub fn to_hex(&self) -> (r: String)
        ensures
            r@ == hex_encode(self.0@),
    {
        encode_hex(&self.0)
    }
}

impl ChunkHash {
    /// The hash of a chunk's bytes.
    pub fn from_bytes(data: &[u8]) -> (r: Self)
        ensures
            r.0@ == digest_of(data@),
    {
        ChunkHash(to_le_bytes(xxh64(data, 0)))
    }

    /// The hash as sixteen lower-case hex digits.
    pub fn as_hex(&self) -> (r: String)
        ensures
            r@ == hex_encode(self.0@),
    {
        encode_hex(&self.0)
    }

    /// The same as `as_hex`.
    pub fn to_hex(&self) -> (r: String)
        ensures
            r@ == hex_encode(self.0@),
    {
        self.as_hex()
    }

    /// The hash written as hex (either case): `None` unless the text decodes to exactly 8 bytes.
    pub fn from_hex(s: &str) -> (r: Option<Self>)
        ensures
            match r {
                Some(h) => hex_decode(s@) == Some(h.0@),
                None => !(hex_decode(s@) matches Some(b) && b.len() == 8),
            },
    {
        let cs = to_chars(s);
        match decode_hex(cs.as_slice()) {
            None => None,
            Some(bytes) => {
                if bytes.len() != 8 {
                    return None;
                }
                let arr = [bytes[0], bytes[1], bytes[2], bytes[3], bytes[4], bytes[5], bytes[6], bytes[7]];
                proof {
                    assert(arr@ =~= bytes@);
                }
                Some(ChunkHash(arr))
            },
        }
    }
}

/// Reading back the hex text of a chunk hash gives the same hash; the text is sixteen digits.
pub proof fn law_chunk_hex_roundtrip(h: ChunkHash)
    ensures
        hex_decode(hex_encode(h.0@)) == Some(h.0@),
        hex_encode(h.0@).len() == 16,
{
    crate::hexfmt::lemma_hex_roundtrip(h.0@);
    crate::hexfmt::lemma_hex_encode_len(h.0@);
}

/// Audio container/codec family of a file.
#[derive(Debug, Clone, Copy, PartialEq, Eq, Structural)]
pub enum AudioFormat {
    Flac,
    Mp3,
    Opus,
    Vorbis,
    Aac,
    Alac,
    Wav,
    Unknown,
}

impl Default for AudioFormat {
    fn default() -> (r: Self)
        ensures
            r == AudioFormat::Unknown,
    {
        AudioFormat::Unknown
    }
}

/// The format named by a file extension, compared without regard to ASCII case.
pub open spec fn format_of_extension(lower: Seq<char>) -> AudioFormat {
    if lower == seq!['f', 'l', 'a', 'c'] {
        AudioFormat::Flac
    } else if lower == seq!['m', 'p', '3'] {
        AudioFormat::Mp3
    } else if lower == seq!['o', 'p', 'u', 's'] {
        AudioFormat::Opus
    } else if lower == seq!['o', 'g', 'g'] {
        AudioFormat::Vorbis
    } else if lower == seq!['m', '4', 'a'] || lower == seq!['a', 'a', 'c'] {
        AudioFormat::Aac
    } else if lower == seq!['w', 'a', 'v'] {
        AudioFormat::Wav
    } else {
        AudioFormat::Unknown
    }
}

impl AudioFormat {
    pub fn from_extension(ext: &str) -> (r: Self)
        ensures
            r == format_of_extension(crate::text::ascii_lower_spec(ext@)),
    {
        let e = ascii_lower(ext);
        let s = e.as_slice();
        if s.len() == 4 && s[0] == 'f' && s[1] == 'l' && s[2] == 'a' && s[3] == 'c' {
            proof { assert(s@ =~= seq!['f', 'l', 'a', 'c']); }
            AudioFormat::Flac
        } else if s.len() == 3 && s[0] == 'm' && s[1] == 'p' && s[2] == '3' {
            proof { assert(s@ =~= seq!['m', 'p', '3']); }
            AudioFormat::Mp3
        } else if s.len() == 4 && s[0] == 'o' && s[1] == 'p' && s[2] == 'u' && s[3] == 's' {
            proof { assert(s@ =~= seq!['o', 'p', 'u', 's']); }
            AudioFormat::Opus
        } else if s.len() == 3 && s[0] == 'o' && s[1] == 'g' && s[2] == 'g' {
            proof { assert(s@ =~= seq!['o', 'g', 'g']); }
            AudioFormat::Vorbis
        } else if s.len() == 3 && s[0] == 'm' && s[1] == '4' && s[2] == 'a' {
            proof { assert(s@ =~= seq!['m', '4', 'a']); }
            AudioFormat::Aac
        } else if s.len() == 3 && s[0] == 'a' && s[1] == 'a' && s[2] == 'c' {
            proof { assert(s@ =~= seq!['a', 'a', 'c']); }
            AudioFormat::Aac
        } else if s.len() == 3 && s[0] == 'w' && s[1] == 'a' && s[2] == 'v' {
            proof { assert(s@ =~= seq!['w', 'a', 'v']); }
            AudioFormat::Wav
        } else {
            AudioFormat::Unknown
        }
    }
}

/// Tag and stream properties of an audio file.
///
/// ReplayGain values are fixed-point: gains in millionths of a dB, peaks in millionths of
/// full scale.
#[derive(Debug, Clone)]
pub struct AudioMeta {
    pub title: Option<String>,
    pub artist: Option<String>,
    pub album: Option<String>,
    pub album_artist: Option<String>,
    pub genre: Option<String>,
    pub year: Option<u32>,
    pub track: Option<u32>,
    pub disc: Option<u32>,
    pub duration_ms: Option<u64>,
    pub bitrate: Option<u32>,
    pub sample_rate: Option<u32>,
    pub format: AudioFormat,
    pub track_total: Option<u32>,
    pub disc_total: Option<u32>,
    pub date: Option<String>,
    pub composer: Option<String>,
    pub comment: Option<String>,
    pub lyrics: Option<String>,
    pub copyright: Option<String>,
    pub compilation: Option<bool>,
    pub artist_sort: Option<String>,
    pub album_artist_sort: Option<String>,
    pub album_sort: Option<String>,
    pub title_sort: Option<String>,
    pub mb_recording_id: Option<String>,
    pub mb_album_id: Option<String>,
    pub mb_artist_id: Option<String>,
    pub mb_album_artist_id: Option<String>,
    pub mb_release_group_id: Option<String>,
    pub replaygain_track_gain: Option<i64>,
    pub replaygain_track_peak: Option<i64>,
    pub replaygain_album_gain: Option<i64>,
    pub replaygain_album_peak: Option<i64>,
    pub channels: Option<u32>,
    pub bits_per_sample: Option<u32>,
    pub encoder: Option<String>,
}

/// Every field absent, and the format unknown.
pub open spec fn audio_meta_is_empty(m: AudioMeta) -> bool {
    &&& m.title is None
    &&& m.artist is None
    &&& m.album is None
    &&& m.album_artist is None
    &&& m.genre is None
    &&& m.year is None
    &&& m.track is None
    &&& m.disc is None
    &&& m.duration_ms is None
    &&& m.bitrate is None
    &&& m.sample_rate is None
    &&& m.format == AudioFormat::Unknown
    &&& m.track_total is None
    &&& m.disc_total is None
    &&& m.date is None
    &&& m.composer is None
    &&& m.comment is None
    &&& m.lyrics is None
    &&& m.copyright is None
    &&& m.compilation is None
    &&& m.artist_sort is None
    &&& m.album_artist_sort is None
    &&& m.album_sort is None
    &&& m.title_sort is None
    &&& m.mb_recording_id is None
    &&& m.mb_album_id is None
    &&& m.mb_artist_id is None
    &&& m.mb_album_artist_id is None
    &&& m.mb_release_group_id is None
    &&& m.replaygain_track_gain is None
    &&& m.replaygain_track_peak is None
    &&& m.replaygain_album_gain is None
    &&& m.replaygain_album_peak is None
    &&& m.channels is None
    &&& m.bits_per_sample is None
    &&& m.encoder is None
}

/// The metadata with every field absent and the format unknown.
pub open spec fn empty_meta() -> AudioMeta {
    AudioMeta {
        title: None,
        artist: None,
        album: None,
        album_artist: None,
        genre: None,
        year: None,
        track: None,
        disc: None,
        duration_ms: None,
        bitrate: None,
        sample_rate: None,
        track_total: None,
        disc_total: None,
        date: None,
        composer: None,
        comment: None,
        lyrics: None,
        copyright: None,
        compilation: None,
        artist_sort: None,
        album_artist_sort: None,
        album_sort: None,
        title_sort: None,
        mb_recording_id: None,
        mb_album_id: None,
        mb_artist_id: None,
        mb_album_artist_id: None,
        mb_release_group_id: None,
        replaygain_track_gain: None,
        replaygain_track_peak: None,
        replaygain_album_gain: None,
        replaygain_album_peak: None,
        channels: None,
        bits_per_sample: None,
        encoder: None,
        format: AudioFormat::Unknown,
    }
}

impl Default for AudioMeta {
    fn default() -> (r: Self)
        ensures
            audio_meta_is_empty(r),
            r == empty_meta(),
    {
        AudioMeta {
            title: None,
            artist: None,
            album: None,
            album_artist: None,
            genre: None,
            year: None,
            track: None,
            disc: None,
            duration_ms: None,
            bitrate: None,
            sample_rate: None,
            format: AudioFormat::Unknown,
            track_total: None,
            disc_total: None,
            date: None,
            composer: None,
            comment: None,
            lyrics: None,
            copyright: None,
            compilation: None,
            artist_sort: None,
            album_artist_sort: None,
            album_sort: None,
            title_sort: None,
            mb_recording_id: None,
            mb_album_id: None,
            mb_artist_id: None,
            mb_album_artist_id: None,
            mb_release_group_id: None,
            replaygain_track_gain: None,
            replaygain_track_peak: None,
            replaygain_album_gain: None,
            replaygain_album_peak: None,
            channels: None,
            bits_per_sample: None,
            encoder: None,
        }
    }
}

/// A file known to the catalogue: where it appears, where it lives, and what it holds.
#[derive(Debug, Clone)]
pub struct FileMeta {
    pub id: FileId,
    pub virtual_path: VirtualPath,
    pub real_path: RealPath,
    pub size: u64,
    pub mtime: std::time::SystemTime,
    pub content_hash: Option<ContentHash>,
    pub audio: Option<AudioMeta>,
}

/// One entry of a directory listing.
#[derive(Debug, Clone)]
pub struct DirEntry {
    pub name: String,
    pub is_dir: bool,
    pub size: u64,
    pub mtime: std::time::SystemTime,
}

/// Size, time and kind of a file system object.
#[derive(Debug, Clone)]
pub struct FileStat {
    pub size: u64,
    pub mtime: std::time::SystemTime,
    pub is_dir: bool,
}

/// Health of an origin as last observed.
#[derive(Debug, Clone, Copy, PartialEq, Eq, Structural)]
pub enum HealthStatus {
    Healthy,
    Degraded,
    Unhealthy,
    Unknown,
}

impl Default for HealthStatus {
    fn default() -> (r: Self)
        ensures
            r == HealthStatus::Unknown,
    {
        HealthStatus::Unknown
    }
}

} // verus!

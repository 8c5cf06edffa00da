//! FLAC headers: the metadata blocks before the audio frames, read for their layout and
//! written anew from a catalogue's metadata.
//!
//! A FLAC stream starts with the marker `fLaC`, then metadata blocks, each with a four-byte
//! header (last-block flag and type in the first byte, a 24-bit big-endian length in the
//! other three). The STREAMINFO block (type 0, 34 bytes) must be kept from the original;
//! metadata lives in a VORBIS_COMMENT block (type 4).
use vstd::prelude::*;

use lofty::ogg::VorbisComments;

use crate::fixed::{format_gain, format_peak, gain_text, parse_fixed, parse_fixed_spec, parse_gain, parse_gain_spec, peak_text};
use crate::format::{is_invalid_data, is_synthesis_failed, FormatError, FormatLayout};
use crate::numtext::{decimal, parse_u32, parse_u32_spec, push_decimal, u32_to_string};
use crate::text::{append_str, ascii_lower, extend_bytes, push_char, to_chars};
use crate::types::{AudioFormat, AudioMeta};
use crate::vorbis::{
    insert_spec, lookup, read_flac_comments, vc_default, vc_get, vc_insert, vc_items, vc_vendor, vorbis_items, vorbis_vendor, lemma_lookup_insert, lemma_same_key_chars, same_key, valid_key,
};

verus! {

/// The marker that opens a FLAC stream: `fLaC`.
pub open spec fn flac_marker() -> Seq<u8> {
    seq![0x66u8, 0x4cu8, 0x61u8, 0x43u8]
}

/// Size of the STREAMINFO block's data.
pub const STREAMINFO_DATA_SIZE: usize = 34;

/// Type of the STREAMINFO block.
pub const BLOCK_TYPE_STREAMINFO: u8 = 0;

/// Type of the VORBIS_COMMENT block.
pub const BLOCK_TYPE_VORBIS_COMMENT: u8 = 4;

/// The flag, type and length that a four-byte block header holds.
pub open spec fn block_header_spec(d: Seq<u8>) -> Option<(bool, u8, usize)> {
    if d.len() < 4 {
        None
    } else {
        Some((d[0] >= 128, (d[0] % 128) as u8, (d[1] as int * 65536 + d[2] as int * 256 + d[3] as int) as usize))
    }
}

/// The four bytes of a block header; the length keeps its low 24 bits.
pub open spec fn block_header_bytes(is_last: bool, block_type: u8, size: usize) -> Seq<u8> {
    seq![
        if is_last { block_type | 0x80 } else { block_type },
        ((size / 65536) % 256) as u8,
        ((size / 256) % 256) as u8,
        (size % 256) as u8,
    ]
}

/// Little-endian bytes of the low 32 bits of `n`.
pub open spec fn le32(n: nat) -> Seq<u8> {
    let x = n % 0x1_0000_0000;
    seq![(x % 256) as u8, ((x / 256) % 256) as u8, ((x / 65536) % 256) as u8, (x / 16777216) as u8]
}

/// One comment as stored: its length, then `key=value` in UTF-8.
pub open spec fn comment_bytes(item: (Seq<char>, Seq<char>)) -> Seq<u8> {
    let b = vstd::utf8::encode_utf8(item.0 + seq!['='] + item.1);
    le32(b.len()) + b
}

pub open spec fn comments_bytes(items: Seq<(Seq<char>, Seq<char>)>) -> Seq<u8>
    decreases items.len(),
{
    if items.len() == 0 {
        Seq::empty()
    } else {
        comments_bytes(items.drop_last()) + comment_bytes(items.last())
    }
}

/// The vendor written when the tag has none.
pub open spec fn default_vendor() -> Seq<char> {
    seq!['m', 'u', 's', 'i', 'c', 'f', 's']
}

/// The body of a VORBIS_COMMENT block: vendor, item count, items.
pub open spec fn vorbis_bytes(vendor: Seq<char>, items: Seq<(Seq<char>, Seq<char>)>) -> Seq<u8> {
    let v = if vendor.len() == 0 { default_vendor() } else { vendor };
    let vb = vstd::utf8::encode_utf8(v);
    le32(vb.len()) + vb + le32(items.len()) + comments_bytes(items)
}

/// A new header: marker, STREAMINFO (not last), VORBIS_COMMENT (last).
pub open spec fn flac_header(streaminfo: Seq<u8>, vorbis: Seq<u8>) -> Seq<u8> {
    flac_marker() + block_header_bytes(false, 0, 34) + streaminfo + block_header_bytes(true, 4, vorbis.len() as usize) + vorbis
}

pub open spec fn ins(items: Seq<(Seq<char>, Seq<char>)>, key: &str, v: Option<String>) -> Seq<(Seq<char>, Seq<char>)> {
    ins_text(items, key, opt_view(v))
}

pub open spec fn num_opt(v: Option<u32>) -> Option<Seq<char>> {
    match v {
        Some(n) => Some(decimal(n as nat)),
        None => None,
    }
}

pub open spec fn ins_num(items: Seq<(Seq<char>, Seq<char>)>, key: &str, v: Option<u32>) -> Seq<(Seq<char>, Seq<char>)> {
    ins_text(items, key, num_opt(v))
}

#[verifier::opaque]
pub open spec fn ins_text(items: Seq<(Seq<char>, Seq<char>)>, key: &str, v: Option<Seq<char>>) -> Seq<(Seq<char>, Seq<char>)> {
    match v {
        Some(s) => insert_spec(items, key@, s),
        None => items,
    }
}

/// The date as written: the date text, or else the year.
pub open spec fn date_text(m: AudioMeta) -> Option<Seq<char>> {
    match m.date {
        Some(d) => Some(d@),
        None => match m.year {
            Some(y) => Some(decimal(y as nat)),
            None => None,
        },
    }
}

pub open spec fn compilation_text(c: Option<bool>) -> Option<Seq<char>> {
    match c {
        Some(b) => Some(if b { seq!['1'] } else { seq!['0'] }),
        None => None,
    }
}

pub open spec fn gain_opt(v: Option<i64>) -> Option<Seq<char>> {
    match v {
        Some(g) => Some(gain_text(g)),
        None => None,
    }
}

pub open spec fn peak_opt(v: Option<i64>) -> Option<Seq<char>> {
    match v {
        Some(p) => Some(peak_text(p)),
        None => None,
    }
}

/// The items that `build_vorbis_comments` inserts, in order, each replacing any earlier item
/// with its key.
pub open spec fn build_items(m: AudioMeta) -> Seq<(Seq<char>, Seq<char>)> {
    let s = Seq::empty();
    let s = ins(s, "TITLE", m.title);
    let s = ins(s, "ARTIST", m.artist);
    let s = ins(s, "ALBUM", m.album);
    let s = ins(s, "GENRE", m.genre);
    let s = ins(s, "ALBUMARTIST", m.album_artist);
    let s = ins_text(s, "DATE", date_text(m));
    let s = ins_num(s, "TRACKNUMBER", m.track);
    let s = ins_num(s, "TRACKTOTAL", m.track_total);
    let s = ins_num(s, "DISCNUMBER", m.disc);
    let s = ins_num(s, "DISCTOTAL", m.disc_total);
    let s = ins(s, "COMPOSER", m.composer);
    let s = ins(s, "COMMENT", m.comment);
    let s = ins(s, "LYRICS", m.lyrics);
    let s = ins(s, "COPYRIGHT", m.copyright);
    let s = ins_text(s, "COMPILATION", compilation_text(m.compilation));
    let s = ins(s, "TITLESORT", m.title_sort);
    let s = ins(s, "ARTISTSORT", m.artist_sort);
    let s = ins(s, "ALBUMSORT", m.album_sort);
    let s = ins(s, "ALBUMARTISTSORT", m.album_artist_sort);
    let s = ins(s, "MUSICBRAINZ_TRACKID", m.mb_recording_id);
    let s = ins(s, "MUSICBRAINZ_ALBUMID", m.mb_album_id);
    let s = ins(s, "MUSICBRAINZ_ARTISTID", m.mb_artist_id);
    let s = ins(s, "MUSICBRAINZ_ALBUMARTISTID", m.mb_album_artist_id);
    let s = ins(s, "MUSICBRAINZ_RELEASEGROUPID", m.mb_release_group_id);
    let s = ins_text(s, "REPLAYGAIN_TRACK_GAIN", gain_opt(m.replaygain_track_gain));
    let s = ins_text(s, "REPLAYGAIN_TRACK_PEAK", peak_opt(m.replaygain_track_peak));
    let s = ins_text(s, "REPLAYGAIN_ALBUM_GAIN", gain_opt(m.replaygain_album_gain));
    let s = ins_text(s, "REPLAYGAIN_ALBUM_PEAK", peak_opt(m.replaygain_album_peak));
    ins(s, "ENCODER", m.encoder)
}

pub open spec fn opt_view(o: Option<String>) -> Option<Seq<char>> {
    match o {
        Some(s) => Some(s@),
        None => None,
    }
}

/// The text before the first `-`.
pub open spec fn before_dash(s: Seq<char>) -> Seq<char>
    decreases s.len(),
{
    if s.len() == 0 || s[0] == '-' {
        Seq::empty()
    } else {
        seq![s[0]] + before_dash(s.drop_first())
    }
}

pub open spec fn and_then_u32(v: Option<Seq<char>>) -> Option<u32> {
    match v {
        Some(s) => parse_u32_spec(s),
        None => None,
    }
}

pub open spec fn and_then_gain(v: Option<Seq<char>>) -> Option<i64> {
    match v {
        Some(s) => parse_gain_spec(s),
        None => None,
    }
}

pub open spec fn and_then_fixed(v: Option<Seq<char>>) -> Option<i64> {
    match v {
        Some(s) => parse_fixed_spec(s),
        None => None,
    }
}

/// A compilation flag: `1`, or `true` in any ASCII case.
pub open spec fn flag_of(v: Option<Seq<char>>) -> Option<bool> {
    match v {
        Some(s) => Some(s == seq!['1'] || crate::text::ascii_lower_spec(s) == seq!['t', 'r', 'u', 'e']),
        None => None,
    }
}

/// What `extract_from_vorbis_comments` reads from a tag's items.
pub open spec fn extracted_from(r: AudioMeta, items: Seq<(Seq<char>, Seq<char>)>) -> bool {
    &&& r.format == AudioFormat::Flac
    &&& opt_view(r.title) == lookup(items, "TITLE"@)
    &&& opt_view(r.artist) == lookup(items, "ARTIST"@)
    &&& opt_view(r.album) == lookup(items, "ALBUM"@)
    &&& opt_view(r.genre) == lookup(items, "GENRE"@)
    &&& opt_view(r.album_artist) == lookup(items, "ALBUMARTIST"@)
    &&& opt_view(r.date) == lookup(items, "DATE"@)
    &&& r.year == (match lookup(items, "DATE"@) {
        Some(d) => parse_u32_spec(before_dash(d)),
        None => None,
    })
    &&& r.track == and_then_u32(lookup(items, "TRACKNUMBER"@))
    &&& r.track_total == and_then_u32(lookup(items, "TRACKTOTAL"@))
    &&& r.disc == and_then_u32(lookup(items, "DISCNUMBER"@))
    &&& r.disc_total == and_then_u32(lookup(items, "DISCTOTAL"@))
    &&& opt_view(r.composer) == lookup(items, "COMPOSER"@)
    &&& opt_view(r.comment) == lookup(items, "COMMENT"@)
    &&& opt_view(r.lyrics) == lookup(items, "LYRICS"@)
    &&& opt_view(r.copyright) == lookup(items, "COPYRIGHT"@)
    &&& r.compilation == flag_of(lookup(items, "COMPILATION"@))
    &&& opt_view(r.title_sort) == lookup(items, "TITLESORT"@)
    &&& opt_view(r.artist_sort) == lookup(items, "ARTISTSORT"@)
    &&& opt_view(r.album_sort) == lookup(items, "ALBUMSORT"@)
    &&& opt_view(r.album_artist_sort) == lookup(items, "ALBUMARTISTSORT"@)
    &&& opt_view(r.mb_recording_id) == lookup(items, "MUSICBRAINZ_TRACKID"@)
    &&& opt_view(r.mb_album_id) == lookup(items, "MUSICBRAINZ_ALBUMID"@)
    &&& opt_view(r.mb_artist_id) == lookup(items, "MUSICBRAINZ_ARTISTID"@)
    &&& opt_view(r.mb_album_artist_id) == lookup(items, "MUSICBRAINZ_ALBUMARTISTID"@)
    &&& opt_view(r.mb_release_group_id) == lookup(items, "MUSICBRAINZ_RELEASEGROUPID"@)
    &&& r.replaygain_track_gain == and_then_gain(lookup(items, "REPLAYGAIN_TRACK_GAIN"@))
    &&& r.replaygain_track_peak == and_then_fixed(lookup(items, "REPLAYGAIN_TRACK_PEAK"@))
    &&& r.replaygain_album_gain == and_then_gain(lookup(items, "REPLAYGAIN_ALBUM_GAIN"@))
    &&& r.replaygain_album_peak == and_then_fixed(lookup(items, "REPLAYGAIN_ALBUM_PEAK"@))
    &&& opt_view(r.encoder) == lookup(items, "ENCODER"@)
    &&& r.duration_ms is None
    &&& r.bitrate is None
    &&& r.sample_rate is None
    &&& r.channels is None
    &&& r.bits_per_sample is None
}

/// Reading the metadata blocks from `offset` on, with the STREAMINFO data met so far: the
/// offset after the last block and the STREAMINFO data met, or the error text.
pub open spec fn scan_blocks(data: Seq<u8>, offset: int, si: Option<Seq<u8>>) -> Result<(int, Option<Seq<u8>>), Seq<char>>
    decreases (if offset <= data.len() { data.len() - offset } else { 0 }),
{
    if offset < 0 || offset + 4 > data.len() {
        Err("Truncated FLAC metadata"@)
    } else {
        let (is_last, ty, size) = block_header_spec(data.subrange(offset, data.len() as int)).unwrap();
        if ty == 0 && size != 34 {
            Err("Invalid STREAMINFO size: "@ + decimal(size as nat) + " (expected 34)"@)
        } else if ty == 0 && offset + 4 + size > data.len() {
            Err("Truncated STREAMINFO block"@)
        } else {
            let si2 = if ty == 0 {
                Some(data.subrange(offset + 4, offset + 4 + size))
            } else {
                si
            };
            let next = offset + 4 + size;
            if is_last {
                Ok((next, si2))
            } else {
                scan_blocks(data, next, si2)
            }
        }
    }
}

/// What `analyze` finds: the audio start and the STREAMINFO data, or the error text.
pub open spec fn analyze_spec(data: Seq<u8>) -> Result<(int, Seq<u8>), Seq<char>> {
    if data.len() < 4 || data.subrange(0, 4) != flac_marker() {
        Err("Not a FLAC file"@)
    } else {
        match scan_blocks(data, 4, None) {
            Err(e) => Err(e),
            Ok((off, None)) => Err("Missing STREAMINFO block"@),
            Ok((off, Some(si))) => Ok((off, si)),
        }
    }
}

/// The FLAC format handler.
#[derive(Debug, Clone, Copy)]
pub struct FlacHandler;

impl FlacHandler {
    pub fn new() -> (r: Self) {
        FlacHandler
    }

    /// Reads a block header: last-block flag, block type and data length.
    pub fn parse_block_header(data: &[u8]) -> (r: Option<(bool, u8, usize)>)
        ensures
            r == block_header_spec(data@),
    {
        if data.len() < 4 {
            return None;
        }
        let b0 = data[0];
        let b1 = data[1];
        let b2 = data[2];
        let b3 = data[3];
        let is_last = (b0 & 0x80) != 0;
        let block_type = b0 & 0x7F;
        let block_size = ((b1 as usize) << 16) | ((b2 as usize) << 8) | (b3 as usize);
        proof {
            assert(((b0 & 0x80) != 0) == (b0 >= 128)) by (bit_vector);
            assert(b0 & 0x7F == b0 % 128) by (bit_vector);
            assert(((b1 as usize) << 16) | ((b2 as usize) << 8) | (b3 as usize) == (b1 as usize) * 65536 + (b2 as usize) * 256
                + (b3 as usize)) by (bit_vector);
        }
        Some((is_last, block_type, block_size))
    }

    /// Writes a block header; the length keeps its low 24 bits.
    pub fn write_block_header(is_last: bool, block_type: u8, size: usize) -> (r: [u8; 4])
        ensures
            r@ == block_header_bytes(is_last, block_type, size),
    {
        let type_byte = if is_last { block_type | 0x80 } else { block_type };
        let b1 = ((size >> 16) & 0xFF) as u8;
        let b2 = ((size >> 8) & 0xFF) as u8;
        let b3 = (size & 0xFF) as u8;
        proof {
            assert((size >> 16) & 0xFF == (size / 65536) % 256) by (bit_vector);
            assert((size >> 8) & 0xFF == (size / 256) % 256) by (bit_vector);
            assert(size & 0xFF == size % 256) by (bit_vector);
        }
        let r = [type_byte, b1, b2, b3];
        proof {
            assert(r@ =~= block_header_bytes(is_last, block_type, size));
        }
        r
    }

    /// Vorbis comments for a catalogue entry.
    pub fn build_vorbis_comments(metadata: &AudioMeta) -> (r: VorbisComments)
        ensures
            vorbis_items(r) == build_items(*metadata),
            vorbis_vendor(r) == Seq::<char>::empty(),
    {
        proof {
            reveal(ins_text);
        }
        let m = metadata;
        let mut tag = vc_default();
        insert_opt(&mut tag, "TITLE", &m.title);
        insert_opt(&mut tag, "ARTIST", &m.artist);
        insert_opt(&mut tag, "ALBUM", &m.album);
        insert_opt(&mut tag, "GENRE", &m.genre);
        insert_opt(&mut tag, "ALBUMARTIST", &m.album_artist);
        match &m.date {
            Some(d) => vc_insert(&mut tag, "DATE".to_owned(), d.clone()),
            None => match m.year {
                Some(y) => vc_insert(&mut tag, "DATE".to_owned(), u32_to_string(y)),
                None => {},
            },
        }
        insert_num(&mut tag, "TRACKNUMBER", m.track);
        insert_num(&mut tag, "TRACKTOTAL", m.track_total);
        insert_num(&mut tag, "DISCNUMBER", m.disc);
        insert_num(&mut tag, "DISCTOTAL", m.disc_total);
        insert_opt(&mut tag, "COMPOSER", &m.composer);
        insert_opt(&mut tag, "COMMENT", &m.comment);
        insert_opt(&mut tag, "LYRICS", &m.lyrics);
        insert_opt(&mut tag, "COPYRIGHT", &m.copyright);
        match m.compilation {
            Some(c) => {
                let v = if c { "1".to_owned() } else { "0".to_owned() };
                proof {
                    reveal_strlit("1");
                    reveal_strlit("0");
                    assert(v@ =~= (if c { seq!['1'] } else { seq!['0'] }));
                }
                vc_insert(&mut tag, "COMPILATION".to_owned(), v);
            },
            None => {},
        }
        insert_opt(&mut tag, "TITLESORT", &m.title_sort);
        insert_opt(&mut tag, "ARTISTSORT", &m.artist_sort);
        insert_opt(&mut tag, "ALBUMSORT", &m.album_sort);
        insert_opt(&mut tag, "ALBUMARTISTSORT", &m.album_artist_sort);
        insert_opt(&mut tag, "MUSICBRAINZ_TRACKID", &m.mb_recording_id);
        insert_opt(&mut tag, "MUSICBRAINZ_ALBUMID", &m.mb_album_id);
        insert_opt(&mut tag, "MUSICBRAINZ_ARTISTID", &m.mb_artist_id);
        insert_opt(&mut tag, "MUSICBRAINZ_ALBUMARTISTID", &m.mb_album_artist_id);
        insert_opt(&mut tag, "MUSICBRAINZ_RELEASEGROUPID", &m.mb_release_group_id);
        match m.replaygain_track_gain {
            Some(g) => vc_insert(&mut tag, "REPLAYGAIN_TRACK_GAIN".to_owned(), format_gain(g)),
            None => {},
        }
        match m.replaygain_track_peak {
            Some(p) => vc_insert(&mut tag, "REPLAYGAIN_TRACK_PEAK".to_owned(), format_peak(p)),
            None => {},
        }
        match m.replaygain_album_gain {
            Some(g) => vc_insert(&mut tag, "REPLAYGAIN_ALBUM_GAIN".to_owned(), format_gain(g)),
            None => {},
        }
        match m.replaygain_album_peak {
            Some(p) => vc_insert(&mut tag, "REPLAYGAIN_ALBUM_PEAK".to_owned(), format_peak(p)),
            None => {},
        }
        insert_opt(&mut tag, "ENCODER", &m.encoder);
        tag
    }

    /// The body of a VORBIS_COMMENT block for a tag: vendor (`musicfs` when empty), count,
    /// then each item as `key=value`, every length as four little-endian bytes.
    pub fn serialize_vorbis_comments(tag: &VorbisComments) -> (r: Vec<u8>)
        ensures
            r@ == vorbis_bytes(vorbis_vendor(*tag), vorbis_items(*tag)),
    {
        let vendor = vc_vendor(tag);
        let mut v = String::new();
        let vendor_chars = to_chars(vendor);
        if vendor_chars.len() == 0 {
            v = "musicfs".to_owned();
            proof {
                reveal_strlit("musicfs");
                assert(v@ =~= default_vendor());
            }
        } else {
            append_str(&mut v, vendor);
            proof {
                assert(v@ =~= vendor@);
            }
        }
        let mut data: Vec<u8> = Vec::new();
        let vb = v.as_str().as_bytes();
        push_le32(&mut data, vb.len());
        extend_bytes(&mut data, vb);
        let items = vc_items(tag);
        let ghost iv = items@.map_values(|e: (String, String)| (e.0@, e.1@));
        push_le32(&mut data, items.len());
        let ghost head = data@;
        let mut i: usize = 0;
        while i < items.len()
            invariant
                i <= items@.len(),
                iv == items@.map_values(|e: (String, String)| (e.0@, e.1@)),
                data@ == head + comments_bytes(iv.subrange(0, i as int)),
            decreases items@.len() - i,
        {
            let mut c = String::new();
            append_str(&mut c, items[i].0.as_str());
            push_char(&mut c, '=');
            append_str(&mut c, items[i].1.as_str());
            let cb = c.as_str().as_bytes();
            let ghost before = data@;
            push_le32(&mut data, cb.len());
            extend_bytes(&mut data, cb);
            proof {
                assert(iv.subrange(0, i + 1).drop_last() =~= iv.subrange(0, i as int));
                assert(iv[i as int] == (items@[i as int].0@, items@[i as int].1@));
                assert(c@ =~= items@[i as int].0@ + seq!['='] + items@[i as int].1@);
                assert(data@ =~= head + comments_bytes(iv.subrange(0, i + 1)));
            }
            i = i + 1;
        }
        proof {
            assert(iv.subrange(0, iv.len() as int) =~= iv);
            assert(data@ =~= vorbis_bytes(vorbis_vendor(*tag), vorbis_items(*tag)));
        }
        data
    }

    /// Metadata read from a tag's Vorbis comments.
    pub fn extract_from_vorbis_comments(tag: &VorbisComments) -> (r: AudioMeta)
        ensures
            extracted_from(r, vorbis_items(*tag)),
    {
        let mut meta = AudioMeta::default();
        meta.format = AudioFormat::Flac;
        meta.title = get_owned(tag, "TITLE");
        meta.artist = get_owned(tag, "ARTIST");
        meta.album = get_owned(tag, "ALBUM");
        meta.genre = get_owned(tag, "GENRE");
        meta.album_artist = get_owned(tag, "ALBUMARTIST");
        meta.date = get_owned(tag, "DATE");
        match vc_get(tag, "DATE") {
            Some(d) => {
                let cs = to_chars(d);
                let head = before_dash_exec(cs.as_slice());
                meta.year = parse_u32(head.as_slice());
            },
            None => {},
        }
        meta.track = get_u32(tag, "TRACKNUMBER");
        meta.track_total = get_u32(tag, "TRACKTOTAL");
        meta.disc = get_u32(tag, "DISCNUMBER");
        meta.disc_total = get_u32(tag, "DISCTOTAL");
        meta.composer = get_owned(tag, "COMPOSER");
        meta.comment = get_owned(tag, "COMMENT");
        meta.lyrics = get_owned(tag, "LYRICS");
        meta.copyright = get_owned(tag, "COPYRIGHT");
        meta.compilation = match vc_get(tag, "COMPILATION") {
            Some(s) => Some(is_true_flag(s)),
            None => None,
        };
        meta.title_sort = get_owned(tag, "TITLESORT");
        meta.artist_sort = get_owned(tag, "ARTISTSORT");
        meta.album_sort = get_owned(tag, "ALBUMSORT");
        meta.album_artist_sort = get_owned(tag, "ALBUMARTISTSORT");
        meta.mb_recording_id = get_owned(tag, "MUSICBRAINZ_TRACKID");
        meta.mb_album_id = get_owned(tag, "MUSICBRAINZ_ALBUMID");
        meta.mb_artist_id = get_owned(tag, "MUSICBRAINZ_ARTISTID");
        meta.mb_album_artist_id = get_owned(tag, "MUSICBRAINZ_ALBUMARTISTID");
        meta.mb_release_group_id = get_owned(tag, "MUSICBRAINZ_RELEASEGROUPID");
        meta.replaygain_track_gain = match vc_get(tag, "REPLAYGAIN_TRACK_GAIN") {
            Some(s) => Self::parse_replaygain_value(s),
            None => None,
        };
        meta.replaygain_track_peak = match vc_get(tag, "REPLAYGAIN_TRACK_PEAK") {
            Some(s) => parse_fixed(to_chars(s).as_slice()),
            None => None,
        };
        meta.replaygain_album_gain = match vc_get(tag, "REPLAYGAIN_ALBUM_GAIN") {
            Some(s) => Self::parse_replaygain_value(s),
            None => None,
        };
        meta.replaygain_album_peak = match vc_get(tag, "REPLAYGAIN_ALBUM_PEAK") {
            Some(s) => parse_fixed(to_chars(s).as_slice()),
            None => None,
        };
        meta.encoder = get_owned(tag, "ENCODER");
        meta
    }

    /// A ReplayGain gain: trimmed, without a trailing ` dB` or `dB`, in millionths of a dB.
    pub fn parse_replaygain_value(value: &str) -> (r: Option<i64>)
        ensures
            r == parse_gain_spec(value@),
    {
        parse_gain(to_chars(value).as_slice())
    }
}

fn insert_opt(tag: &mut VorbisComments, key: &str, v: &Option<String>)
    ensures
        vorbis_items(*final(tag)) == ins(vorbis_items(*old(tag)), key, *v),
        vorbis_vendor(*final(tag)) == vorbis_vendor(*old(tag)),
{
    proof {
        reveal(ins_text);
    }
    match v {
        Some(s) => vc_insert(tag, key.to_owned(), s.clone()),
        None => {},
    }
}

fn insert_num(tag: &mut VorbisComments, key: &str, v: Option<u32>)
    ensures
        vorbis_items(*final(tag)) == ins_num(vorbis_items(*old(tag)), key, v),
        vorbis_vendor(*final(tag)) == vorbis_vendor(*old(tag)),
{
    proof {
        reveal(ins_text);
    }
    match v {
        Some(n) => vc_insert(tag, key.to_owned(), u32_to_string(n)),
        None => {},
    }
}

fn get_owned(tag: &VorbisComments, key: &str) -> (r: Option<String>)
    ensures
        opt_view(r) == lookup(vorbis_items(*tag), key@),
{
    match vc_get(tag, key) {
        Some(s) => Some(s.to_owned()),
        None => None,
    }
}

fn get_u32(tag: &VorbisComments, key: &str) -> (r: Option<u32>)
    ensures
        r == and_then_u32(lookup(vorbis_items(*tag), key@)),
{
    match vc_get(tag, key) {
        Some(s) => parse_u32(to_chars(s).as_slice()),
        None => None,
    }
}

fn is_true_flag(s: &str) -> (r: bool)
    ensures
        r == (s@ == seq!['1'] || crate::text::ascii_lower_spec(s@) == seq!['t', 'r', 'u', 'e']),
{
    let cs = to_chars(s);
    if cs.len() == 1 && cs[0] == '1' {
        proof {
            assert(s@ =~= seq!['1']);
        }
        return true;
    }
    proof {
        if s@ == seq!['1'] {
            assert(cs@[0] == '1');
        }
    }
    let lower = ascii_lower(s);
    let r = lower.len() == 4 && lower[0] == 't' && lower[1] == 'r' && lower[2] == 'u' && lower[3] == 'e';
    proof {
        if r {
            assert(lower@ =~= seq!['t', 'r', 'u', 'e']);
        }
    }
    r
}

pub fn before_dash_exec(s: &[char]) -> (r: Vec<char>)
    ensures
        r@ == before_dash(s@),
{
    let mut out: Vec<char> = Vec::new();
    let mut i: usize = 0;
    proof {
        assert(s@.skip(0) =~= s@);
    }
    while i < s.len() && s[i] != '-'
        invariant
            i <= s@.len(),
            before_dash(s@) == out@ + before_dash(s@.skip(i as int)),
        decreases s@.len() - i,
    {
        proof {
            assert(s@.skip(i as int).drop_first() =~= s@.skip(i + 1));
            assert(out@.push(s@[i as int]) + before_dash(s@.skip(i + 1)) =~= out@ + (seq![s@[i as int]] + before_dash(
                s@.skip(i + 1),
            )));
        }
        out.push(s[i]);
        i = i + 1;
    }
    proof {
        assert(out@ + before_dash(s@.skip(i as int)) =~= out@);
    }
    out
}

/// Appends the little-endian bytes of the low 32 bits of `n`.
fn push_le32(out: &mut Vec<u8>, n: usize)
    ensures
        final(out)@ == old(out)@ + le32(n as nat),
{
    let x: u64 = (n as u64) % 0x1_0000_0000;
    out.push((x % 256) as u8);
    out.push(((x / 256) % 256) as u8);
    out.push(((x / 65536) % 256) as u8);
    out.push((x / 16777216) as u8);
    proof {
        assert(out@ =~= old(out)@ + le32(n as nat));
    }
}

/// The layout that `analyze` reports, against what `analyze_spec` finds.
pub open spec fn analyzed(r: Result<FormatLayout, FormatError>, data: Seq<u8>, file_size: u64) -> bool {
    match (r, analyze_spec(data)) {
        (Ok(l), Ok((off, si))) => l.audio_start == off as u64 && l.audio_end == file_size && l.format == AudioFormat::Flac && (match l.format_data {
            Some(v) => v@ == si,
            None => false,
        }),
        (Err(e), Err(msg)) => is_invalid_data(e, msg),
        _ => false,
    }
}

/// What `synthesize` gives for a layout's STREAMINFO data and a catalogue entry.
pub open spec fn synthesized(r: Result<Vec<u8>, FormatError>, m: AudioMeta, format_data: Option<Vec<u8>>) -> bool {
    match format_data {
        None => match r {
            Err(e) => is_synthesis_failed(e, "Missing STREAMINFO data in layout"@),
            Ok(_) => false,
        },
        Some(si) => if si@.len() != 34 {
            match r {
                Err(e) => is_synthesis_failed(e, "Invalid STREAMINFO size: "@ + decimal(si@.len()) + " (expected 34)"@),
                Ok(_) => false,
            }
        } else {
            match r {
                Ok(v) => v@ == flac_header(si@, vorbis_bytes(Seq::empty(), build_items(m))),
                Err(_) => false,
            }
        },
    }
}

/// What a metadata read gives for the outcome of reading a FLAC header: the read's error
/// text, a refusal where the header has no Vorbis comments, else the metadata of its
/// comments.
pub open spec fn extracted_from_read(r: Result<AudioMeta, FormatError>, read: Result<Option<VorbisComments>, String>) -> bool {
    match (r, read) {
        (Err(e), Err(msg)) => is_invalid_data(e, msg@),
        (Err(e), Ok(None)) => is_invalid_data(e, "No Vorbis comments found"@),
        (Ok(m), Ok(Some(t))) => extracted_from(m, vorbis_items(t)),
        _ => false,
    }
}

pub open spec fn si_view(si: Option<Vec<u8>>) -> Option<Seq<u8>> {
    match si {
        Some(v) => Some(v@),
        None => None,
    }
}

fn copy_range(data: &[u8], a: usize, b: usize) -> (r: Vec<u8>)
    requires
        a <= b <= data@.len(),
    ensures
        r@ == data@.subrange(a as int, b as int),
{
    let mut out: Vec<u8> = Vec::new();
    extend_bytes(&mut out, vstd::slice::slice_subrange(data, a, b));
    proof {
        assert(out@ =~= data@.subrange(a as int, b as int));
    }
    out
}

fn invalid_data(msg: &str) -> (e: FormatError)
    ensures
        is_invalid_data(e, msg@),
{
    FormatError::InvalidData(msg.to_owned())
}

fn size_message(size: usize) -> (r: String)
    ensures
        r@ == "Invalid STREAMINFO size: "@ + decimal(size as nat) + " (expected 34)"@,
{
    let mut m = "Invalid STREAMINFO size: ".to_owned();
    push_decimal(&mut m, size as u64);
    append_str(&mut m, " (expected 34)");
    m
}

impl FlacHandler {
    pub fn id(&self) -> (r: &'static str)
        ensures
            r@ == "flac"@,
    {
        "flac"
    }

    pub fn name(&self) -> (r: &'static str)
        ensures
            r@ == "FLAC"@,
    {
        "FLAC"
    }

    pub fn extensions(&self) -> (r: Vec<&'static str>)
        ensures
            r@.len() == 1,
            r@[0]@ == "flac"@,
    {
        let mut v = Vec::new();
        v.push("flac");
        v
    }

    pub fn mime_types(&self) -> (r: Vec<&'static str>)
        ensures
            r@.len() == 2,
            r@[0]@ == "audio/flac"@,
            r@[1]@ == "audio/x-flac"@,
    {
        let mut v = Vec::new();
        v.push("audio/flac");
        v.push("audio/x-flac");
        v
    }

    /// Walks the metadata blocks to the first audio frame, keeping the STREAMINFO data.
    pub fn analyze(&self, data: &[u8], file_size: u64) -> (r: Result<FormatLayout, FormatError>)
        ensures
            analyzed(r, data@, file_size),
    {
        if data.len() < 4 || !(data[0] == 0x66 && data[1] == 0x4c && data[2] == 0x61 && data[3] == 0x43) {
            proof {
                if data@.len() >= 4 && data@.subrange(0, 4) == flac_marker() {
                    assert(data@.subrange(0, 4)[0] == data@[0]);
                    assert(data@.subrange(0, 4)[1] == data@[1]);
                    assert(data@.subrange(0, 4)[2] == data@[2]);
                    assert(data@.subrange(0, 4)[3] == data@[3]);
                }
            }
            return Err(invalid_data("Not a FLAC file"));
        }
        proof {
            assert(data@.subrange(0, 4) =~= flac_marker());
        }
        let len = data.len();
        let mut offset: u128 = 4;
        let mut si: Option<Vec<u8>> = None;
        loop
            invariant_except_break
                len == data@.len(),
                data@.len() >= 4,
                data@.subrange(0, 4) == flac_marker(),
                scan_blocks(data@, 4, None) == scan_blocks(data@, offset as int, si_view(si)),
            ensures
                scan_blocks(data@, 4, None) == Ok::<(int, Option<Seq<u8>>), Seq<char>>((offset as int, si_view(si))),
            decreases (if offset <= len { len + 1 - offset } else { 0 }),
        {
            if offset > len as u128 || (len as u128) - offset < 4 {
                return Err(invalid_data("Truncated FLAC metadata"));
            }
            let off = offset as usize;
            let rest = vstd::slice::slice_subrange(data, off, len);
            let (is_last, block_type, block_size) = match Self::parse_block_header(rest) {
                Some(h) => h,
                None => return Err(invalid_data("Invalid block header")),
            };
            if block_type == BLOCK_TYPE_STREAMINFO {
                if block_size != STREAMINFO_DATA_SIZE {
                    return Err(FormatError::InvalidData(size_message(block_size)));
                }
                if block_size > len - off - 4 {
                    return Err(invalid_data("Truncated STREAMINFO block"));
                }
                si = Some(copy_range(data, off + 4, off + 4 + block_size));
            }
            offset = offset + 4 + block_size as u128;
            if is_last {
                break;
            }
        }
        match si {
            None => Err(invalid_data("Missing STREAMINFO block")),
            Some(s) => Ok(FormatLayout { audio_start: offset as u64, audio_end: file_size, format: AudioFormat::Flac, format_data: Some(s) }),
        }
    }

    /// A new header from the layout's STREAMINFO and the metadata.
    pub fn synthesize(&self, metadata: &AudioMeta, layout: &FormatLayout) -> (r: Result<Vec<u8>, FormatError>)
        ensures
            synthesized(r, *metadata, layout.format_data),
    {
        let streaminfo = match &layout.format_data {
            Some(s) => s,
            None => return Err(FormatError::SynthesisFailed("Missing STREAMINFO data in layout".to_owned())),
        };
        if streaminfo.len() != STREAMINFO_DATA_SIZE {
            return Err(FormatError::SynthesisFailed(size_message(streaminfo.len())));
        }
        let tag = Self::build_vorbis_comments(metadata);
        let vorbis = Self::serialize_vorbis_comments(&tag);
        let mut buffer: Vec<u8> = Vec::new();
        buffer.push(0x66);
        buffer.push(0x4c);
        buffer.push(0x61);
        buffer.push(0x43);
        let h1 = Self::write_block_header(false, BLOCK_TYPE_STREAMINFO, STREAMINFO_DATA_SIZE);
        extend_bytes(&mut buffer, &h1);
        extend_bytes(&mut buffer, streaminfo.as_slice());
        let h2 = Self::write_block_header(true, BLOCK_TYPE_VORBIS_COMMENT, vorbis.len());
        extend_bytes(&mut buffer, &h2);
        extend_bytes(&mut buffer, vorbis.as_slice());
        proof {
            assert(buffer@ =~= flac_header(streaminfo@, vorbis_bytes(Seq::empty(), build_items(*metadata))));
        }
        Ok(buffer)
    }

    /// Metadata from the outcome of reading a FLAC header: the read's error, a refusal where
    /// there are no Vorbis comments, else the metadata of the comments.
    pub fn extract_from_read(read: Result<Option<VorbisComments>, String>) -> (r: Result<AudioMeta, FormatError>)
        ensures
            extracted_from_read(r, read),
    {
        match read {
            Err(msg) => Err(FormatError::InvalidData(msg)),
            Ok(None) => Err(invalid_data("No Vorbis comments found")),
            Ok(Some(tag)) => Ok(Self::extract_from_vorbis_comments(&tag)),
        }
    }

    /// Metadata from the Vorbis comments of a FLAC header, as lofty reads it. Whatever the
    /// read gives, the result is what `extract_from_read` makes of it: metadata of some
    /// Vorbis comments, or invalid data.
    pub fn extract(&self, data: &[u8]) -> (r: Result<AudioMeta, FormatError>)
        ensures
            exists|read: Result<Option<VorbisComments>, String>| extracted_from_read(r, read),
            r is Err ==> r->Err_0 is InvalidData,
            r is Ok ==> exists|t: VorbisComments| extracted_from(r->Ok_0, #[trigger] vorbis_items(t)),
    {
        let read = read_flac_comments(data);
        let ghost g = read;
        let r = Self::extract_from_read(read);
        proof {
            assert(extracted_from_read(r, g));
            match g {
                Ok(Some(t)) => {
                    assert(extracted_from(r->Ok_0, vorbis_items(t)));
                },
                _ => {},
            }
        }
        r
    }

    /// Marker, STREAMINFO, comment block header and typical comments: 8 KiB.
    pub fn estimate_header_size(&self, metadata: &AudioMeta) -> (r: usize)
        ensures
            r == 8192,
    {
        8192
    }
}

impl Default for FlacHandler {
    fn default() -> (r: Self) {
        FlacHandler
    }
}

/// Reading a written block header gives back its flag, type and length, for a type below 128
/// and a length below 2^24.
pub proof fn law_block_header_roundtrip(is_last: bool, block_type: u8, size: usize)
    requires
        block_type < 128,
        size < 0x100_0000,
    ensures
        block_header_spec(block_header_bytes(is_last, block_type, size)) == Some((is_last, block_type, size)),
{
    assert((block_type | 0x80u8) >= 128 && (block_type | 0x80u8) % 128 == block_type) by (bit_vector)
        requires
            block_type < 128,
    ;
    let s = size as int;
    assert(((s / 65536) % 256) * 65536 + ((s / 256) % 256) * 256 + s % 256 == s) by (nonlinear_arith)
        requires
            0 <= s < 0x100_0000,
    ;
}

/// Analyzing a synthesized header finds its STREAMINFO data again, and the audio starting
/// right after the header; this holds where the comment block is shorter than 2^24 bytes.
pub proof fn law_synthesize_then_analyze(si: Seq<u8>, vorbis: Seq<u8>)
    requires
        si.len() == 34,
        vorbis.len() < 0x100_0000,
    ensures
        analyze_spec(flac_header(si, vorbis)) == Ok::<(int, Seq<u8>), Seq<char>>((flac_header(si, vorbis).len() as int, si)),
{
    let data = flac_header(si, vorbis);
    let n = vorbis.len();
    law_block_header_roundtrip(false, 0, 34);
    law_block_header_roundtrip(true, 4, n as usize);
    assert(data.len() == 46 + n);
    assert(data.subrange(0, 4) =~= flac_marker());
    let h1 = block_header_bytes(false, 0, 34);
    let h2 = block_header_bytes(true, 4, n as usize);
    let r1 = data.subrange(4, data.len() as int);
    assert(r1[0] == h1[0] && r1[1] == h1[1] && r1[2] == h1[2] && r1[3] == h1[3]);
    assert(block_header_spec(r1) == block_header_spec(h1));
    assert(data.subrange(8, 42) =~= si);
    let r2 = data.subrange(42, data.len() as int);
    assert(r2[0] == h2[0] && r2[1] == h2[1] && r2[2] == h2[2] && r2[3] == h2[3]);
    assert(block_header_spec(r2) == block_header_spec(h2));
    assert(scan_blocks(data, 42, Some(si)) == Ok::<(int, Option<Seq<u8>>), Seq<char>>((data.len() as int, Some(si))));
    assert(scan_blocks(data, 4, None) == scan_blocks(data, 42, Some(si)));
}

/// Inserting an optional text under a valid key, as seen by a lookup.
proof fn lemma_lookup_ins_text(s: Seq<(Seq<char>, Seq<char>)>, key: &str, v: Option<Seq<char>>, k: Seq<char>)
    requires
        valid_key(key@),
    ensures
        lookup(ins_text(s, key, v), k) == if same_key(key@, k) && valid_key(k) && v is Some {
            v
        } else {
            lookup(s, k)
        },
{
    reveal(ins_text);
    if let Some(x) = v {
        lemma_lookup_insert(s, key@, x, k);
    }
}

/// Two keys of different lengths, or that differ at a position but for case, are different keys.
proof fn lemma_keys_differ_at(a: Seq<char>, b: Seq<char>, i: int)
    requires
        0 <= i < a.len(),
        i < b.len(),
        crate::text::ascii_lower_char(a[i]) != crate::text::ascii_lower_char(b[i]),
    ensures
        !same_key(a, b),
{
    lemma_same_key_chars(a, b);
}

/// The keys a tag is built with are valid, and no two of them are the same key.
proof fn lemma_build_keys()
    ensures
        valid_key("TITLE"@),
        valid_key("ARTIST"@),
        valid_key("ALBUM"@),
        valid_key("GENRE"@),
        valid_key("ALBUMARTIST"@),
        valid_key("DATE"@),
        valid_key("TRACKNUMBER"@),
        valid_key("TRACKTOTAL"@),
        valid_key("DISCNUMBER"@),
        valid_key("DISCTOTAL"@),
        valid_key("COMPOSER"@),
        valid_key("COMMENT"@),
        valid_key("LYRICS"@),
        valid_key("COPYRIGHT"@),
        valid_key("COMPILATION"@),
        valid_key("TITLESORT"@),
        valid_key("ARTISTSORT"@),
        valid_key("ALBUMSORT"@),
        valid_key("ALBUMARTISTSORT"@),
        valid_key("MUSICBRAINZ_TRACKID"@),
        valid_key("MUSICBRAINZ_ALBUMID"@),
        valid_key("MUSICBRAINZ_ARTISTID"@),
        valid_key("MUSICBRAINZ_ALBUMARTISTID"@),
        valid_key("MUSICBRAINZ_RELEASEGROUPID"@),
        valid_key("REPLAYGAIN_TRACK_GAIN"@),
        valid_key("REPLAYGAIN_TRACK_PEAK"@),
        valid_key("REPLAYGAIN_ALBUM_GAIN"@),
        valid_key("REPLAYGAIN_ALBUM_PEAK"@),
        valid_key("ENCODER"@),
        !same_key("TITLE"@, "ALBUM"@),
        !same_key("ALBUM"@, "TITLE"@),
        !same_key("TITLE"@, "GENRE"@),
        !same_key("GENRE"@, "TITLE"@),
        !same_key("ARTIST"@, "LYRICS"@),
        !same_key("LYRICS"@, "ARTIST"@),
        !same_key("ALBUM"@, "GENRE"@),
        !same_key("GENRE"@, "ALBUM"@),
        !same_key("ALBUMARTIST"@, "TRACKNUMBER"@),
        !same_key("TRACKNUMBER"@, "ALBUMARTIST"@),
        !same_key("ALBUMARTIST"@, "COMPILATION"@),
        !same_key("COMPILATION"@, "ALBUMARTIST"@),
        !same_key("TRACKNUMBER"@, "COMPILATION"@),
        !same_key("COMPILATION"@, "TRACKNUMBER"@),
        !same_key("TRACKTOTAL"@, "DISCNUMBER"@),
        !same_key("DISCNUMBER"@, "TRACKTOTAL"@),
        !same_key("TRACKTOTAL"@, "ARTISTSORT"@),
        !same_key("ARTISTSORT"@, "TRACKTOTAL"@),
        !same_key("DISCNUMBER"@, "ARTISTSORT"@),
        !same_key("ARTISTSORT"@, "DISCNUMBER"@),
        !same_key("DISCTOTAL"@, "COPYRIGHT"@),
        !same_key("COPYRIGHT"@, "DISCTOTAL"@),
        !same_key("DISCTOTAL"@, "TITLESORT"@),
        !same_key("TITLESORT"@, "DISCTOTAL"@),
        !same_key("DISCTOTAL"@, "ALBUMSORT"@),
        !same_key("ALBUMSORT"@, "DISCTOTAL"@),
        !same_key("COMMENT"@, "ENCODER"@),
        !same_key("ENCODER"@, "COMMENT"@),
        !same_key("COPYRIGHT"@, "TITLESORT"@),
        !same_key("TITLESORT"@, "COPYRIGHT"@),
        !same_key("COPYRIGHT"@, "ALBUMSORT"@),
        !same_key("ALBUMSORT"@, "COPYRIGHT"@),
        !same_key("TITLESORT"@, "ALBUMSORT"@),
        !same_key("ALBUMSORT"@, "TITLESORT"@),
        !same_key("MUSICBRAINZ_TRACKID"@, "MUSICBRAINZ_ALBUMID"@),
        !same_key("MUSICBRAINZ_ALBUMID"@, "MUSICBRAINZ_TRACKID"@),
        !same_key("REPLAYGAIN_TRACK_GAIN"@, "REPLAYGAIN_TRACK_PEAK"@),
        !same_key("REPLAYGAIN_TRACK_PEAK"@, "REPLAYGAIN_TRACK_GAIN"@),
        !same_key("REPLAYGAIN_TRACK_GAIN"@, "REPLAYGAIN_ALBUM_GAIN"@),
        !same_key("REPLAYGAIN_ALBUM_GAIN"@, "REPLAYGAIN_TRACK_GAIN"@),
        !same_key("REPLAYGAIN_TRACK_GAIN"@, "REPLAYGAIN_ALBUM_PEAK"@),
        !same_key("REPLAYGAIN_ALBUM_PEAK"@, "REPLAYGAIN_TRACK_GAIN"@),
        !same_key("REPLAYGAIN_TRACK_PEAK"@, "REPLAYGAIN_ALBUM_GAIN"@),
        !same_key("REPLAYGAIN_ALBUM_GAIN"@, "REPLAYGAIN_TRACK_PEAK"@),
        !same_key("REPLAYGAIN_TRACK_PEAK"@, "REPLAYGAIN_ALBUM_PEAK"@),
        !same_key("REPLAYGAIN_ALBUM_PEAK"@, "REPLAYGAIN_TRACK_PEAK"@),
        !same_key("REPLAYGAIN_ALBUM_GAIN"@, "REPLAYGAIN_ALBUM_PEAK"@),
        !same_key("REPLAYGAIN_ALBUM_PEAK"@, "REPLAYGAIN_ALBUM_GAIN"@),
        forall|a: Seq<char>, b: Seq<char>| #[trigger] same_key(a, b) ==> a.len() == b.len(),
        "TITLE"@.len() == 5,
        "ARTIST"@.len() == 6,
        "ALBUM"@.len() == 5,
        "GENRE"@.len() == 5,
        "ALBUMARTIST"@.len() == 11,
        "DATE"@.len() == 4,
        "TRACKNUMBER"@.len() == 11,
        "TRACKTOTAL"@.len() == 10,
        "DISCNUMBER"@.len() == 10,
        "DISCTOTAL"@.len() == 9,
        "COMPOSER"@.len() == 8,
        "COMMENT"@.len() == 7,
        "LYRICS"@.len() == 6,
        "COPYRIGHT"@.len() == 9,
        "COMPILATION"@.len() == 11,
        "TITLESORT"@.len() == 9,
        "ARTISTSORT"@.len() == 10,
        "ALBUMSORT"@.len() == 9,
        "ALBUMARTISTSORT"@.len() == 15,
        "MUSICBRAINZ_TRACKID"@.len() == 19,
        "MUSICBRAINZ_ALBUMID"@.len() == 19,
        "MUSICBRAINZ_ARTISTID"@.len() == 20,
        "MUSICBRAINZ_ALBUMARTISTID"@.len() == 25,
        "MUSICBRAINZ_RELEASEGROUPID"@.len() == 26,
        "REPLAYGAIN_TRACK_GAIN"@.len() == 21,
        "REPLAYGAIN_TRACK_PEAK"@.len() == 21,
        "REPLAYGAIN_ALBUM_GAIN"@.len() == 21,
        "REPLAYGAIN_ALBUM_PEAK"@.len() == 21,
        "ENCODER"@.len() == 7,
{
    reveal_strlit("TITLE");
    reveal_strlit("ARTIST");
    reveal_strlit("ALBUM");
    reveal_strlit("GENRE");
    reveal_strlit("ALBUMARTIST");
    reveal_strlit("DATE");
    reveal_strlit("TRACKNUMBER");
    reveal_strlit("TRACKTOTAL");
    reveal_strlit("DISCNUMBER");
    reveal_strlit("DISCTOTAL");
    reveal_strlit("COMPOSER");
    reveal_strlit("COMMENT");
    reveal_strlit("LYRICS");
    reveal_strlit("COPYRIGHT");
    reveal_strlit("COMPILATION");
    reveal_strlit("TITLESORT");
    reveal_strlit("ARTISTSORT");
    reveal_strlit("ALBUMSORT");
    reveal_strlit("ALBUMARTISTSORT");
    reveal_strlit("MUSICBRAINZ_TRACKID");
    reveal_strlit("MUSICBRAINZ_ALBUMID");
    reveal_strlit("MUSICBRAINZ_ARTISTID");
    reveal_strlit("MUSICBRAINZ_ALBUMARTISTID");
    reveal_strlit("MUSICBRAINZ_RELEASEGROUPID");
    reveal_strlit("REPLAYGAIN_TRACK_GAIN");
    reveal_strlit("REPLAYGAIN_TRACK_PEAK");
    reveal_strlit("REPLAYGAIN_ALBUM_GAIN");
    reveal_strlit("REPLAYGAIN_ALBUM_PEAK");
    reveal_strlit("ENCODER");
    lemma_keys_differ_at("TITLE"@, "ALBUM"@, 0);
    lemma_keys_differ_at("ALBUM"@, "TITLE"@, 0);
    lemma_keys_differ_at("TITLE"@, "GENRE"@, 0);
    lemma_keys_differ_at("GENRE"@, "TITLE"@, 0);
    lemma_keys_differ_at("ARTIST"@, "LYRICS"@, 0);
    lemma_keys_differ_at("LYRICS"@, "ARTIST"@, 0);
    lemma_keys_differ_at("ALBUM"@, "GENRE"@, 0);
    lemma_keys_differ_at("GENRE"@, "ALBUM"@, 0);
    lemma_keys_differ_at("ALBUMARTIST"@, "TRACKNUMBER"@, 0);
    lemma_keys_differ_at("TRACKNUMBER"@, "ALBUMARTIST"@, 0);
    lemma_keys_differ_at("ALBUMARTIST"@, "COMPILATION"@, 0);
    lemma_keys_differ_at("COMPILATION"@, "ALBUMARTIST"@, 0);
    lemma_keys_differ_at("TRACKNUMBER"@, "COMPILATION"@, 0);
    lemma_keys_differ_at("COMPILATION"@, "TRACKNUMBER"@, 0);
    lemma_keys_differ_at("TRACKTOTAL"@, "DISCNUMBER"@, 0);
    lemma_keys_differ_at("DISCNUMBER"@, "TRACKTOTAL"@, 0);
    lemma_keys_differ_at("TRACKTOTAL"@, "ARTISTSORT"@, 0);
    lemma_keys_differ_at("ARTISTSORT"@, "TRACKTOTAL"@, 0);
    lemma_keys_differ_at("DISCNUMBER"@, "ARTISTSORT"@, 0);
    lemma_keys_differ_at("ARTISTSORT"@, "DISCNUMBER"@, 0);
    lemma_keys_differ_at("DISCTOTAL"@, "COPYRIGHT"@, 0);
    lemma_keys_differ_at("COPYRIGHT"@, "DISCTOTAL"@, 0);
    lemma_keys_differ_at("DISCTOTAL"@, "TITLESORT"@, 0);
    lemma_keys_differ_at("TITLESORT"@, "DISCTOTAL"@, 0);
    lemma_keys_differ_at("DISCTOTAL"@, "ALBUMSORT"@, 0);
    lemma_keys_differ_at("ALBUMSORT"@, "DISCTOTAL"@, 0);
    lemma_keys_differ_at("COMMENT"@, "ENCODER"@, 0);
    lemma_keys_differ_at("ENCODER"@, "COMMENT"@, 0);
    lemma_keys_differ_at("COPYRIGHT"@, "TITLESORT"@, 0);
    lemma_keys_differ_at("TITLESORT"@, "COPYRIGHT"@, 0);
    lemma_keys_differ_at("COPYRIGHT"@, "ALBUMSORT"@, 0);
    lemma_keys_differ_at("ALBUMSORT"@, "COPYRIGHT"@, 0);
    lemma_keys_differ_at("TITLESORT"@, "ALBUMSORT"@, 0);
    lemma_keys_differ_at("ALBUMSORT"@, "TITLESORT"@, 0);
    lemma_keys_differ_at("MUSICBRAINZ_TRACKID"@, "MUSICBRAINZ_ALBUMID"@, 12);
    lemma_keys_differ_at("MUSICBRAINZ_ALBUMID"@, "MUSICBRAINZ_TRACKID"@, 12);
    lemma_keys_differ_at("REPLAYGAIN_TRACK_GAIN"@, "REPLAYGAIN_TRACK_PEAK"@, 17);
    lemma_keys_differ_at("REPLAYGAIN_TRACK_PEAK"@, "REPLAYGAIN_TRACK_GAIN"@, 17);
    lemma_keys_differ_at("REPLAYGAIN_TRACK_GAIN"@, "REPLAYGAIN_ALBUM_GAIN"@, 11);
    lemma_keys_differ_at("REPLAYGAIN_ALBUM_GAIN"@, "REPLAYGAIN_TRACK_GAIN"@, 11);
    lemma_keys_differ_at("REPLAYGAIN_TRACK_GAIN"@, "REPLAYGAIN_ALBUM_PEAK"@, 11);
    lemma_keys_differ_at("REPLAYGAIN_ALBUM_PEAK"@, "REPLAYGAIN_TRACK_GAIN"@, 11);
    lemma_keys_differ_at("REPLAYGAIN_TRACK_PEAK"@, "REPLAYGAIN_ALBUM_GAIN"@, 11);
    lemma_keys_differ_at("REPLAYGAIN_ALBUM_GAIN"@, "REPLAYGAIN_TRACK_PEAK"@, 11);
    lemma_keys_differ_at("REPLAYGAIN_TRACK_PEAK"@, "REPLAYGAIN_ALBUM_PEAK"@, 11);
    lemma_keys_differ_at("REPLAYGAIN_ALBUM_PEAK"@, "REPLAYGAIN_TRACK_PEAK"@, 11);
    lemma_keys_differ_at("REPLAYGAIN_ALBUM_GAIN"@, "REPLAYGAIN_ALBUM_PEAK"@, 17);
    lemma_keys_differ_at("REPLAYGAIN_ALBUM_PEAK"@, "REPLAYGAIN_ALBUM_GAIN"@, 17);
    assert forall|a: Seq<char>, b: Seq<char>| #[trigger] same_key(a, b) implies a.len() == b.len() by {
        lemma_same_key_chars(a, b);
    }
}

/// A lookup after an insertion, for every insertion and lookup.
proof fn lemma_lookup_ins_all()
    ensures
        forall|s: Seq<(Seq<char>, Seq<char>)>, key: &str, v: Option<Seq<char>>, k: Seq<char>|
            valid_key(key@) ==> #[trigger] lookup(ins_text(s, key, v), k) == if same_key(key@, k) && valid_key(k) && v is Some {
                v
            } else {
                lookup(s, k)
            },
{
    assert forall|s: Seq<(Seq<char>, Seq<char>)>, key: &str, v: Option<Seq<char>>, k: Seq<char>|
        valid_key(key@) implies #[trigger] lookup(ins_text(s, key, v), k) == if same_key(key@, k) && valid_key(k) && v is Some {
            v
        } else {
            lookup(s, k)
        } by {
        lemma_lookup_ins_text(s, key, v, k);
    }
}

proof fn lemma_build_title(m: AudioMeta)
    ensures
        lookup(build_items(m), "TITLE"@) == opt_view(m.title),
{
    lemma_build_keys();
    lemma_lookup_ins_all();
}

proof fn lemma_build_artist(m: AudioMeta)
    ensures
        lookup(build_items(m), "ARTIST"@) == opt_view(m.artist),
{
    lemma_build_keys();
    lemma_lookup_ins_all();
}

proof fn lemma_build_album(m: AudioMeta)
    ensures
        lookup(build_items(m), "ALBUM"@) == opt_view(m.album),
{
    lemma_build_keys();
    lemma_lookup_ins_all();
}

proof fn lemma_build_genre(m: AudioMeta)
    ensures
        lookup(build_items(m), "GENRE"@) == opt_view(m.genre),
{
    lemma_build_keys();
    lemma_lookup_ins_all();
}

proof fn lemma_build_album_artist(m: AudioMeta)
    ensures
        lookup(build_items(m), "ALBUMARTIST"@) == opt_view(m.album_artist),
{
    lemma_build_keys();
    lemma_lookup_ins_all();
}

proof fn lemma_build_date(m: AudioMeta)
    ensures
        lookup(build_items(m), "DATE"@) == date_text(m),
{
    lemma_build_keys();
    lemma_lookup_ins_all();
}

proof fn lemma_build_track(m: AudioMeta)
    ensures
        lookup(build_items(m), "TRACKNUMBER"@) == num_opt(m.track),
{
    lemma_build_keys();
    lemma_lookup_ins_all();
}

proof fn lemma_build_track_total(m: AudioMeta)
    ensures
        lookup(build_items(m), "TRACKTOTAL"@) == num_opt(m.track_total),
{
    lemma_build_keys();
    lemma_lookup_ins_all();
}

proof fn lemma_build_disc(m: AudioMeta)
    ensures
        lookup(build_items(m), "DISCNUMBER"@) == num_opt(m.disc),
{
    lemma_build_keys();
    lemma_lookup_ins_all();
}

proof fn lemma_build_disc_total(m: AudioMeta)
    ensures
        lookup(build_items(m), "DISCTOTAL"@) == num_opt(m.disc_total),
{
    lemma_build_keys();
    lemma_lookup_ins_all();
}

proof fn lemma_build_composer(m: AudioMeta)
    ensures
        lookup(build_items(m), "COMPOSER"@) == opt_view(m.composer),
{
    lemma_build_keys();
    lemma_lookup_ins_all();
}

proof fn lemma_build_comment(m: AudioMeta)
    ensures
        lookup(build_items(m), "COMMENT"@) == opt_view(m.comment),
{
    lemma_build_keys();
    lemma_lookup_ins_all();
}

proof fn lemma_build_lyrics(m: AudioMeta)
    ensures
        lookup(build_items(m), "LYRICS"@) == opt_view(m.lyrics),
{
    lemma_build_keys();
    lemma_lookup_ins_all();
}

proof fn lemma_build_copyright(m: AudioMeta)
    ensures
        lookup(build_items(m), "COPYRIGHT"@) == opt_view(m.copyright),
{
    lemma_build_keys();
    lemma_lookup_ins_all();
}

proof fn lemma_build_compilation(m: AudioMeta)
    ensures
        lookup(build_items(m), "COMPILATION"@) == compilation_text(m.compilation),
{
    lemma_build_keys();
    lemma_lookup_ins_all();
}

proof fn lemma_build_title_sort(m: AudioMeta)
    ensures
        lookup(build_items(m), "TITLESORT"@) == opt_view(m.title_sort),
{
    lemma_build_keys();
    lemma_lookup_ins_all();
}

proof fn lemma_build_artist_sort(m: AudioMeta)
    ensures
        lookup(build_items(m), "ARTISTSORT"@) == opt_view(m.artist_sort),
{
    lemma_build_keys();
    lemma_lookup_ins_all();
}

proof fn lemma_build_album_sort(m: AudioMeta)
    ensures
        lookup(build_items(m), "ALBUMSORT"@) == opt_view(m.album_sort),
{
    lemma_build_keys();
    lemma_lookup_ins_all();
}

proof fn lemma_build_album_artist_sort(m: AudioMeta)
    ensures
        lookup(build_items(m), "ALBUMARTISTSORT"@) == opt_view(m.album_artist_sort),
{
    lemma_build_keys();
    lemma_lookup_ins_all();
}

proof fn lemma_build_mb_recording_id(m: AudioMeta)
    ensures
        lookup(build_items(m), "MUSICBRAINZ_TRACKID"@) == opt_view(m.mb_recording_id),
{
    lemma_build_keys();
    lemma_lookup_ins_all();
}

proof fn lemma_build_mb_album_id(m: AudioMeta)
    ensures
        lookup(build_items(m), "MUSICBRAINZ_ALBUMID"@) == opt_view(m.mb_album_id),
{
    lemma_build_keys();
    lemma_lookup_ins_all();
}

proof fn lemma_build_mb_artist_id(m: AudioMeta)
    ensures
        lookup(build_items(m), "MUSICBRAINZ_ARTISTID"@) == opt_view(m.mb_artist_id),
{
    lemma_build_keys();
    lemma_lookup_ins_all();
}

proof fn lemma_build_mb_album_artist_id(m: AudioMeta)
    ensures
        lookup(build_items(m), "MUSICBRAINZ_ALBUMARTISTID"@) == opt_view(m.mb_album_artist_id),
{
    lemma_build_keys();
    lemma_lookup_ins_all();
}

proof fn lemma_build_mb_release_group_id(m: AudioMeta)
    ensures
        lookup(build_items(m), "MUSICBRAINZ_RELEASEGROUPID"@) == opt_view(m.mb_release_group_id),
{
    lemma_build_keys();
    lemma_lookup_ins_all();
}

proof fn lemma_build_track_gain(m: AudioMeta)
    ensures
        lookup(build_items(m), "REPLAYGAIN_TRACK_GAIN"@) == gain_opt(m.replaygain_track_gain),
{
    lemma_build_keys();
    lemma_lookup_ins_all();
}

proof fn lemma_build_track_peak(m: AudioMeta)
    ensures
        lookup(build_items(m), "REPLAYGAIN_TRACK_PEAK"@) == peak_opt(m.replaygain_track_peak),
{
    lemma_build_keys();
    lemma_lookup_ins_all();
}

proof fn lemma_build_album_gain(m: AudioMeta)
    ensures
        lookup(build_items(m), "REPLAYGAIN_ALBUM_GAIN"@) == gain_opt(m.replaygain_album_gain),
{
    lemma_build_keys();
    lemma_lookup_ins_all();
}

proof fn lemma_build_album_peak(m: AudioMeta)
    ensures
        lookup(build_items(m), "REPLAYGAIN_ALBUM_PEAK"@) == peak_opt(m.replaygain_album_peak),
{
    lemma_build_keys();
    lemma_lookup_ins_all();
}

proof fn lemma_build_encoder(m: AudioMeta)
    ensures
        lookup(build_items(m), "ENCODER"@) == opt_view(m.encoder),
{
    lemma_build_keys();
    lemma_lookup_ins_all();
}

pub proof fn lemma_before_dash_digits(s: Seq<char>)
    requires
        crate::numtext::all_digits(s),
    ensures
        before_dash(s) == s,
    decreases s.len(),
{
    if s.len() > 0 {
        assert(crate::numtext::is_digit(s[0]));
        let rest = s.drop_first();
        assert forall|i: int| 0 <= i < rest.len() implies crate::numtext::is_digit(#[trigger] rest[i]) by {
            assert(rest[i] == s[i + 1]);
        }
        lemma_before_dash_digits(rest);
        assert(seq![s[0]] + rest =~= s);
    }
}

proof fn lemma_number_back(v: Option<u32>)
    ensures
        and_then_u32(num_opt(v)) == v,
{
    if let Some(n) = v {
        crate::numtext::lemma_parse_decimal_u32(n);
    }
}

/// A gain that reads back: its rounded magnitude fits.
pub open spec fn gain_fits(v: Option<i64>) -> bool {
    match v {
        Some(g) => crate::fixed::hundredths(g) * 10000 <= i64::MAX,
        None => true,
    }
}

/// A peak that reads back: any but the least value.
pub open spec fn peak_fits(v: Option<i64>) -> bool {
    match v {
        Some(p) => p != i64::MIN,
        None => true,
    }
}

/// A gain rounded as written.
pub open spec fn rounded_opt(v: Option<i64>) -> Option<i64> {
    match v {
        Some(g) => Some(crate::fixed::rounded_gain(g) as i64),
        None => None,
    }
}

/// Extracting the metadata of a tag built from metadata gives the fields back: every text,
/// number, the flag, the peaks; the gains rounded to hundredths of a decibel; the date as
/// written, or the year where only the year was given. This holds for every gain whose
/// rounded magnitude fits and every peak but the least value.
pub proof fn law_build_then_extract(m: AudioMeta, r: AudioMeta)
    requires
        extracted_from(r, build_items(m)),
        gain_fits(m.replaygain_track_gain),
        gain_fits(m.replaygain_album_gain),
        peak_fits(m.replaygain_track_peak),
        peak_fits(m.replaygain_album_peak),
    ensures
        opt_view(r.title) == opt_view(m.title),
        opt_view(r.artist) == opt_view(m.artist),
        opt_view(r.album) == opt_view(m.album),
        opt_view(r.genre) == opt_view(m.genre),
        opt_view(r.album_artist) == opt_view(m.album_artist),
        opt_view(r.composer) == opt_view(m.composer),
        opt_view(r.comment) == opt_view(m.comment),
        opt_view(r.lyrics) == opt_view(m.lyrics),
        opt_view(r.copyright) == opt_view(m.copyright),
        opt_view(r.title_sort) == opt_view(m.title_sort),
        opt_view(r.artist_sort) == opt_view(m.artist_sort),
        opt_view(r.album_sort) == opt_view(m.album_sort),
        opt_view(r.album_artist_sort) == opt_view(m.album_artist_sort),
        opt_view(r.mb_recording_id) == opt_view(m.mb_recording_id),
        opt_view(r.mb_album_id) == opt_view(m.mb_album_id),
        opt_view(r.mb_artist_id) == opt_view(m.mb_artist_id),
        opt_view(r.mb_album_artist_id) == opt_view(m.mb_album_artist_id),
        opt_view(r.mb_release_group_id) == opt_view(m.mb_release_group_id),
        opt_view(r.encoder) == opt_view(m.encoder),
        opt_view(r.date) == date_text(m),
        m.date is None ==> r.year == m.year,
        r.track == m.track,
        r.track_total == m.track_total,
        r.disc == m.disc,
        r.disc_total == m.disc_total,
        r.compilation == m.compilation,
        r.replaygain_track_peak == m.replaygain_track_peak,
        r.replaygain_album_peak == m.replaygain_album_peak,
        r.replaygain_track_gain == rounded_opt(m.replaygain_track_gain),
        r.replaygain_album_gain == rounded_opt(m.replaygain_album_gain),
{
    lemma_build_title(m);
    lemma_build_artist(m);
    lemma_build_album(m);
    lemma_build_genre(m);
    lemma_build_album_artist(m);
    lemma_build_composer(m);
    lemma_build_comment(m);
    lemma_build_lyrics(m);
    lemma_build_copyright(m);
    lemma_build_title_sort(m);
    lemma_build_artist_sort(m);
    lemma_build_album_sort(m);
    lemma_build_album_artist_sort(m);
    lemma_build_mb_recording_id(m);
    lemma_build_mb_album_id(m);
    lemma_build_mb_artist_id(m);
    lemma_build_mb_album_artist_id(m);
    lemma_build_mb_release_group_id(m);
    lemma_build_encoder(m);
    lemma_build_date(m);
    lemma_build_track(m);
    lemma_build_track_total(m);
    lemma_build_disc(m);
    lemma_build_disc_total(m);
    lemma_build_compilation(m);
    lemma_build_track_gain(m);
    lemma_build_track_peak(m);
    lemma_build_album_gain(m);
    lemma_build_album_peak(m);
    lemma_number_back(m.track);
    lemma_number_back(m.track_total);
    lemma_number_back(m.disc);
    lemma_number_back(m.disc_total);
    if m.date is None {
        if let Some(y) = m.year {
            crate::numtext::lemma_decimal(y as nat);
            lemma_before_dash_digits(decimal(y as nat));
            crate::numtext::lemma_parse_decimal_u32(y);
        }
    }
    if let Some(c) = m.compilation {
        let t = compilation_text(m.compilation).unwrap();
        assert(crate::text::ascii_lower_spec(t).len() == 1);
        assert(crate::text::ascii_lower_spec(t) != seq!['t', 'r', 'u', 'e']);
        if !c {
            assert(t[0] == '0');
            assert(seq!['1'][0] == '1');
            assert(t != seq!['1']);
        }
        assert(flag_of(compilation_text(m.compilation)) == m.compilation);
    }
    if let Some(g) = m.replaygain_track_gain {
        crate::fixed::law_gain_text_roundtrip(g);
    }
    if let Some(g) = m.replaygain_album_gain {
        crate::fixed::law_gain_text_roundtrip(g);
    }
    if let Some(p) = m.replaygain_track_peak {
        crate::fixed::law_peak_text_roundtrip(p);
    }
    if let Some(p) = m.replaygain_album_peak {
        crate::fixed::law_peak_text_roundtrip(p);
    }
}

} // verus!

//! ID3v2 tags as `lofty` keeps them, seen as an ordered list of frames.
//!
//! A frame is `(kind, id, key, text)`: the kind is 0 for a text frame, 1 for a user text
//! frame (`TXXX`, keyed by its description), 2 for a comment (`COMM`) and 3 for unsynchronised
//! lyrics (`USLT`), both keyed by their language followed by their description, and 4 for any
//! other frame. Inserting a frame replaces the first one of the same kind, id and key.
use vstd::prelude::*;

use std::borrow::Cow;

use lofty::file::AudioFile;
use lofty::id3::v2::{CommentFrame, Frame, FrameId, Id3v2Tag, TextInformationFrame, UnsynchronizedTextFrame};
use lofty::tag::{Accessor, TagExt};
use lofty::TextEncoding;

verus! {

#[verifier::external_type_specification]
#[verifier::external_body]
pub struct ExId3v2Tag(lofty::id3::v2::Id3v2Tag);

/// The frames of a tag, in order.
pub uninterp spec fn id3_frames(t: Id3v2Tag) -> Seq<(u8, Seq<char>, Seq<char>, Seq<char>)>;

/// Whether the tag counts as ID3v2.4 (a new tag does).
pub uninterp spec fn id3_is_v4(t: Id3v2Tag) -> bool;

/// What `Accessor::genre` gives for the text of a `TCON` frame.
pub uninterp spec fn lofty_genre(tcon: Seq<char>) -> Option<Seq<char>>;

pub type Id3Frame = (u8, Seq<char>, Seq<char>, Seq<char>);

pub open spec fn same_slot(a: Id3Frame, b: Id3Frame) -> bool {
    a.0 == b.0 && a.1 == b.1 && a.2 == b.2
}

/// The frames without the first one in the slot of `f`.
pub open spec fn without_first(fs: Seq<Id3Frame>, f: Id3Frame) -> Seq<Id3Frame>
    decreases fs.len(),
{
    if fs.len() == 0 {
        fs
    } else if same_slot(fs[0], f) {
        fs.drop_first()
    } else {
        seq![fs[0]] + without_first(fs.drop_first(), f)
    }
}

/// `Id3v2Tag::insert`: the first frame in the same slot is dropped and the new one appended.
pub open spec fn insert_frame(fs: Seq<Id3Frame>, f: Id3Frame) -> Seq<Id3Frame> {
    without_first(fs, f).push(f)
}

/// `get_text`: the first frame with this id, when it is a text frame.
pub open spec fn frame_text(fs: Seq<Id3Frame>, id: Seq<char>) -> Option<Seq<char>>
    decreases fs.len(),
{
    if fs.len() == 0 {
        None
    } else if fs[0].1 == id {
        if fs[0].0 == 0 {
            Some(fs[0].3)
        } else {
            None
        }
    } else {
        frame_text(fs.drop_first(), id)
    }
}

/// `get_user_text`: the first `TXXX` frame that is a user text frame with this description.
pub open spec fn user_text(fs: Seq<Id3Frame>, desc: Seq<char>) -> Option<Seq<char>>
    decreases fs.len(),
{
    if fs.len() == 0 {
        None
    } else if fs[0].1 == txxx() && fs[0].0 == 1 && fs[0].2 == desc {
        Some(fs[0].3)
    } else {
        user_text(fs.drop_first(), desc)
    }
}

/// The text of the first comment with an empty description.
pub open spec fn first_comment(fs: Seq<Id3Frame>) -> Option<Seq<char>>
    decreases fs.len(),
{
    if fs.len() == 0 {
        None
    } else if fs[0].0 == 2 && fs[0].2.len() == 3 {
        Some(fs[0].3)
    } else {
        first_comment(fs.drop_first())
    }
}

/// The text of the first unsynchronised lyrics frame.
pub open spec fn first_lyrics(fs: Seq<Id3Frame>) -> Option<Seq<char>>
    decreases fs.len(),
{
    if fs.len() == 0 {
        None
    } else if fs[0].0 == 3 {
        Some(fs[0].3)
    } else {
        first_lyrics(fs.drop_first())
    }
}

pub open spec fn txxx() -> Seq<char> {
    seq!['T', 'X', 'X', 'X']
}

/// `eng` followed by an empty description.
pub open spec fn eng() -> Seq<char> {
    seq!['e', 'n', 'g']
}

/// A text frame id that `insert` treats like any other: four characters, upper-case letters
/// or digits, starting with `T`, and not `TXXX`.
pub open spec fn text_frame_id(id: Seq<char>) -> bool {
    &&& id.len() == 4
    &&& id[0] == 'T'
    &&& forall|i: int| 0 <= i < 4 ==> ('A' <= #[trigger] id[i] && id[i] <= 'Z') || ('0' <= id[i] && id[i] <= '9')
    &&& id != txxx()
}

/// With the ID3v2.4 separator `\0` read as `/`, as the accessors give text.
pub open spec fn slash_separated(v: Seq<char>, v4: bool) -> Seq<char> {
    if v4 {
        Seq::new(v.len(), |i: int| if v[i] == '\0' { '/' } else { v[i] })
    } else {
        v
    }
}

/// `Id3v2Tag::new`: no frames, version 2.4.
#[verifier::external_body]
pub(crate) fn id3_new() -> (r: Id3v2Tag)
    ensures
        id3_frames(r) == Seq::<Id3Frame>::empty(),
        id3_is_v4(r),
{
    Id3v2Tag::new()
}

/// `Id3v2Tag::insert` of a UTF-8 text frame.
#[verifier::external_body]
pub(crate) fn id3_insert_text(t: &mut Id3v2Tag, id: &'static str, value: String)
    requires
        text_frame_id(id@),
    ensures
        id3_frames(*final(t)) == insert_frame(id3_frames(*old(t)), (0u8, id@, Seq::empty(), value@)),
        id3_is_v4(*final(t)) == id3_is_v4(*old(t)),
{
    let frame = Frame::Text(TextInformationFrame::new(FrameId::Valid(Cow::Borrowed(id)), TextEncoding::UTF8, value));
    let _ = t.insert(frame);
}

/// `Id3v2Tag::insert_user_text`: a `TXXX` frame keyed by its description.
#[verifier::external_body]
pub(crate) fn id3_insert_user_text(t: &mut Id3v2Tag, description: String, content: String)
    ensures
        id3_frames(*final(t)) == insert_frame(id3_frames(*old(t)), (1u8, txxx(), description@, content@)),
        id3_is_v4(*final(t)) == id3_is_v4(*old(t)),
{
    let _ = t.insert_user_text(description, content);
}

/// `Id3v2Tag::insert` of an English UTF-8 comment with an empty description.
#[verifier::external_body]
pub(crate) fn id3_insert_comment(t: &mut Id3v2Tag, value: String)
    ensures
        id3_frames(*final(t)) == insert_frame(id3_frames(*old(t)), (2u8, "COMM"@, eng(), value@)),
        id3_is_v4(*final(t)) == id3_is_v4(*old(t)),
{
    let frame = Frame::Comment(CommentFrame::new(TextEncoding::UTF8, *b"eng", String::new(), value));
    let _ = t.insert(frame);
}

/// `Id3v2Tag::insert` of English UTF-8 lyrics with an empty description.
#[verifier::external_body]
pub(crate) fn id3_insert_lyrics(t: &mut Id3v2Tag, value: String)
    ensures
        id3_frames(*final(t)) == insert_frame(id3_frames(*old(t)), (3u8, "USLT"@, eng(), value@)),
        id3_is_v4(*final(t)) == id3_is_v4(*old(t)),
{
    let frame = Frame::UnsynchronizedText(UnsynchronizedTextFrame::new(TextEncoding::UTF8, *b"eng", String::new(), value));
    let _ = t.insert(frame);
}

/// `FrameId::new` then `Id3v2Tag::get_text`, for a four-character id: the text of the first
/// frame with that id, when it is a text frame.
#[verifier::external_body]
pub(crate) fn id3_get_text<'a>(t: &'a Id3v2Tag, id: &str) -> (r: Option<&'a str>)
    requires
        id@.len() == 4,
        forall|i: int| 0 <= i < 4 ==> ('A' <= #[trigger] id@[i] && id@[i] <= 'Z') || ('0' <= id@[i] && id@[i] <= '9'),
    ensures
        match r {
            Some(v) => frame_text(id3_frames(*t), id@) == Some(v@),
            None => frame_text(id3_frames(*t), id@) is None,
        },
{
    match FrameId::new(id) {
        Ok(fid) => t.get_text(&fid),
        Err(_) => None,
    }
}

/// `Accessor::title`: the `TIT2` text, with `\0` read as `/` in a version 2.4 tag.
#[verifier::external_body]
pub(crate) fn id3_title(t: &Id3v2Tag) -> (r: Option<String>)
    ensures
        crate::flac::opt_view(r) == (match frame_text(id3_frames(*t), "TIT2"@) {
            Some(v) => Some(slash_separated(v, id3_is_v4(*t))),
            None => None,
        }),
{
    t.title().map(|c| c.into_owned())
}

/// `Accessor::artist`: the `TPE1` text, with `\0` read as `/` in a version 2.4 tag.
#[verifier::external_body]
pub(crate) fn id3_artist(t: &Id3v2Tag) -> (r: Option<String>)
    ensures
        crate::flac::opt_view(r) == (match frame_text(id3_frames(*t), "TPE1"@) {
            Some(v) => Some(slash_separated(v, id3_is_v4(*t))),
            None => None,
        }),
{
    t.artist().map(|c| c.into_owned())
}

/// `Accessor::album`: the `TALB` text, with `\0` read as `/` in a version 2.4 tag.
#[verifier::external_body]
pub(crate) fn id3_album(t: &Id3v2Tag) -> (r: Option<String>)
    ensures
        crate::flac::opt_view(r) == (match frame_text(id3_frames(*t), "TALB"@) {
            Some(v) => Some(slash_separated(v, id3_is_v4(*t))),
            None => None,
        }),
{
    t.album().map(|c| c.into_owned())
}

/// `Accessor::genre`: what the genre list of the first `TCON` text frame joins to.
#[verifier::external_body]
pub(crate) fn id3_genre(t: &Id3v2Tag) -> (r: Option<String>)
    ensures
        crate::flac::opt_view(r) == (match frame_text(id3_frames(*t), "TCON"@) {
            Some(v) => lofty_genre(v),
            None => None,
        }),
{
    t.genre().map(|c| c.into_owned())
}

/// `Accessor::comment`: the first comment with an empty description.
#[verifier::external_body]
pub(crate) fn id3_comment(t: &Id3v2Tag) -> (r: Option<String>)
    ensures
        crate::flac::opt_view(r) == first_comment(id3_frames(*t)),
{
    t.comment().map(|c| c.into_owned())
}

/// `Id3v2Tag::unsync_text`, first item: the text of the first lyrics frame.
#[verifier::external_body]
pub(crate) fn id3_first_lyrics(t: &Id3v2Tag) -> (r: Option<String>)
    ensures
        crate::flac::opt_view(r) == first_lyrics(id3_frames(*t)),
{
    t.unsync_text().next().map(|u| u.content.to_string())
}

/// `Id3v2Tag::get_user_text`.
#[verifier::external_body]
pub(crate) fn id3_get_user_text<'a>(t: &'a Id3v2Tag, description: &str) -> (r: Option<&'a str>)
    ensures
        match r {
            Some(v) => user_text(id3_frames(*t), description@) == Some(v@),
            None => user_text(id3_frames(*t), description@) is None,
        },
{
    t.get_user_text(description)
}

/// `Accessor::track`: nothing where the first `TRCK` frame is no text frame.
#[verifier::external_body]
pub(crate) fn id3_track(t: &Id3v2Tag) -> (r: Option<u32>)
    ensures
        frame_text(id3_frames(*t), "TRCK"@) is None ==> r is None,
{
    t.track()
}

/// `Accessor::track_total`: nothing where the first `TRCK` frame is no text frame.
#[verifier::external_body]
pub(crate) fn id3_track_total(t: &Id3v2Tag) -> (r: Option<u32>)
    ensures
        frame_text(id3_frames(*t), "TRCK"@) is None ==> r is None,
{
    t.track_total()
}

/// `Accessor::disk`: nothing where the first `TPOS` frame is no text frame.
#[verifier::external_body]
pub(crate) fn id3_disk(t: &Id3v2Tag) -> (r: Option<u32>)
    ensures
        frame_text(id3_frames(*t), "TPOS"@) is None ==> r is None,
{
    t.disk()
}

/// `Accessor::disk_total`: nothing where the first `TPOS` frame is no text frame.
#[verifier::external_body]
pub(crate) fn id3_disk_total(t: &Id3v2Tag) -> (r: Option<u32>)
    ensures
        frame_text(id3_frames(*t), "TPOS"@) is None ==> r is None,
{
    t.disk_total()
}

/// What `TagExt::dump_to` writes for a tag with 1024 bytes of preferred padding: the bytes,
/// or the error's text.
pub uninterp spec fn id3_dump_bytes(t: Id3v2Tag) -> Result<Seq<u8>, Seq<char>>;

/// `TagExt::dump_to` into a buffer, with 1024 bytes of preferred padding: the bytes are a
/// function of the tag alone; a tag without frames writes nothing. The layout of the bytes
/// of any other tag is not described here.
#[verifier::external_body]
pub(crate) fn id3_dump(t: &Id3v2Tag) -> (r: Result<Vec<u8>, String>)
    ensures
        match r {
            Ok(v) => id3_dump_bytes(*t) == Ok::<Seq<u8>, Seq<char>>(v@),
            Err(e) => id3_dump_bytes(*t) == Err::<Seq<u8>, Seq<char>>(e@),
        },
        id3_frames(*t).len() == 0 ==> (match r {
            Ok(v) => v@.len() == 0,
            Err(_) => false,
        }),
{
    let mut buffer = std::io::Cursor::new(Vec::new());
    let options = lofty::config::WriteOptions::new().preferred_padding(1024);
    match t.dump_to(&mut buffer, options) {
        Ok(()) => Ok(buffer.into_inner()),
        Err(e) => Err(e.to_string()),
    }
}

/// `MpegFile::read_from` with default parse options, then its ID3v2 tag (copied); a read
/// error is given as its text. Nothing is stated of the result: lofty caps its allocations
/// by a limit set per thread, so the same bytes may read in one setting and fail in another.
#[verifier::external_body]
pub(crate) fn read_mp3_id3v2(data: &[u8]) -> (r: Result<Option<Id3v2Tag>, String>)
{
    let mut cursor = std::io::Cursor::new(data);
    match lofty::mpeg::MpegFile::read_from(&mut cursor, lofty::config::ParseOptions::new()) {
        Ok(f) => Ok(f.id3v2().cloned()),
        Err(e) => Err(e.to_string()),
    }
}

} // verus!

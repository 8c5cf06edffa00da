//! The statements that the catalogue database runs, built from catalogue values, and the
//! values read back from its text columns. The connection is held by the caller.
use vstd::prelude::*;

use std::time::Duration;

use crate::flac::opt_view;
use crate::service::format_name_spec;
use crate::text::{append_str, to_chars};
use crate::types::{AudioFormat, AudioMeta, ContentHash, FileId, OriginId, VirtualPath};

verus! {

/// A value bound to a statement parameter. A `Real` is given in millionths.
#[derive(Debug, Clone)]
pub enum SqlValue {
    Null,
    Integer(i64),
    Real(i64),
    Text(String),
    Blob(Vec<u8>),
}

/// A statement and the values of its parameters, in order.
#[derive(Debug, Clone)]
pub struct Statement {
    pub sql: String,
    pub params: Vec<SqlValue>,
}

/// Why a database operation failed.
#[derive(Debug, Clone)]
pub enum DbError {
    Database(String),
    FileNotFound(String),
}

/// A file in the trash.
#[derive(Debug, Clone)]
pub struct TrashedFile {
    pub file_id: FileId,
    pub current_path: VirtualPath,
    pub original_path: VirtualPath,
    pub trashed_at: i64,
    pub origin_id: OriginId,
}

/// Which trashed files to list or purge.
#[derive(Debug, Clone, Default)]
pub struct TrashedFilter {
    pub origin_id: Option<OriginId>,
    pub path_prefix: Option<String>,
    pub since: Option<Duration>,
}

/// The format stored under its debug name; any other text is unknown.
pub open spec fn format_of_name(s: Seq<char>) -> AudioFormat {
    if s == "Flac"@ {
        AudioFormat::Flac
    } else if s == "Mp3"@ {
        AudioFormat::Mp3
    } else if s == "Aac"@ {
        AudioFormat::Aac
    } else if s == "Opus"@ {
        AudioFormat::Opus
    } else if s == "Vorbis"@ {
        AudioFormat::Vorbis
    } else if s == "Wav"@ {
        AudioFormat::Wav
    } else if s == "Alac"@ {
        AudioFormat::Alac
    } else {
        AudioFormat::Unknown
    }
}

fn eq_lit(a: &Vec<char>, lit: &str) -> (r: bool)
    ensures
        r == (a@ == lit@),
{
    let b = to_chars(lit);
    crate::text::chars_eq(a.as_slice(), b.as_slice())
}

/// The format stored in a row.
pub fn parse_audio_format(s: &str) -> (r: AudioFormat)
    ensures
        r == format_of_name(s@),
{
    let c = to_chars(s);
    if eq_lit(&c, "Flac") {
        AudioFormat::Flac
    } else if eq_lit(&c, "Mp3") {
        AudioFormat::Mp3
    } else if eq_lit(&c, "Aac") {
        AudioFormat::Aac
    } else if eq_lit(&c, "Opus") {
        AudioFormat::Opus
    } else if eq_lit(&c, "Vorbis") {
        AudioFormat::Vorbis
    } else if eq_lit(&c, "Wav") {
        AudioFormat::Wav
    } else if eq_lit(&c, "Alac") {
        AudioFormat::Alac
    } else {
        AudioFormat::Unknown
    }
}

/// The value of an ASCII hex digit byte (either case).
pub open spec fn hex_byte_value(b: u8) -> Option<u8> {
    if 48 <= b <= 57 {
        Some((b - 48) as u8)
    } else if 97 <= b <= 102 {
        Some((b - 87) as u8)
    } else if 65 <= b <= 70 {
        Some((b - 55) as u8)
    } else {
        None
    }
}

/// Two bytes read as a base-16 `u8`: two hex digits, or `+` and one digit.
pub open spec fn pair_value(b0: u8, b1: u8) -> Option<u8> {
    match (hex_byte_value(b0), hex_byte_value(b1)) {
        (Some(h), Some(l)) => Some((h * 16 + l) as u8),
        (None, Some(l)) => if b0 == 43 { Some(l) } else { None },
        _ => None,
    }
}

/// A stored content hash: sixteen bytes of text, each pair a byte in base 16.
pub open spec fn content_hash_of(bytes: Seq<u8>) -> Option<Seq<u8>> {
    if bytes.len() != 16 {
        None
    } else if forall|i: int| 0 <= i < 8 ==> #[trigger] pair_value(bytes[2 * i], bytes[2 * i + 1]) is Some {
        Some(Seq::new(8, |i: int| pair_value(bytes[2 * i], bytes[2 * i + 1]).unwrap()))
    } else {
        None
    }
}

fn hex_byte(b: u8) -> (r: Option<u8>)
    ensures
        r == hex_byte_value(b),
{
    if 48 <= b && b <= 57 {
        Some(b - 48)
    } else if 97 <= b && b <= 102 {
        Some(b - 87)
    } else if 65 <= b && b <= 70 {
        Some(b - 55)
    } else {
        None
    }
}

fn pair(b0: u8, b1: u8) -> (r: Option<u8>)
    ensures
        r == pair_value(b0, b1),
{
    match (hex_byte(b0), hex_byte(b1)) {
        (Some(h), Some(l)) => Some(h * 16 + l),
        (None, Some(l)) => if b0 == 43 {
            Some(l)
        } else {
            None
        },
        _ => None,
    }
}

/// The content hash stored as text in a row.
pub fn parse_content_hash(hex: &str) -> (r: Option<ContentHash>)
    ensures
        match content_hash_of(vstd::utf8::encode_utf8(hex@)) {
            Some(b) => r matches Some(h) && h.0@ == b,
            None => r is None,
        },
{
    let bytes = hex.as_bytes();
    if bytes.len() != 16 {
        return None;
    }
    let mut out = [0u8; 8];
    let mut i: usize = 0;
    while i < 8
        invariant
            i <= 8,
            bytes@.len() == 16,
            bytes@ == vstd::utf8::encode_utf8(hex@),
            forall|j: int| 0 <= j < i ==> #[trigger] pair_value(bytes@[2 * j], bytes@[2 * j + 1]) == Some(out@[j]),
        decreases 8 - i,
    {
        match pair(bytes[2 * i], bytes[2 * i + 1]) {
            Some(v) => {
                out[i] = v;
            },
            None => {
                return None;
            },
        }
        i = i + 1;
    }
    proof {
        assert(out@ =~= Seq::new(8, |k: int| pair_value(bytes@[2 * k], bytes@[2 * k + 1]).unwrap()));
    }
    Some(ContentHash(out))
}

/// A column assignment for a present text field.
pub open spec fn col_text(c: Seq<char>, v: Option<String>) -> Seq<(Seq<char>, SqlValue)> {
    match v {
        Some(s) => seq![(c, SqlValue::Text(s))],
        None => Seq::empty(),
    }
}

/// A column assignment for a present whole number, stored as a 64-bit integer.
pub open spec fn col_u32(c: Seq<char>, v: Option<u32>) -> Seq<(Seq<char>, SqlValue)> {
    match v {
        Some(n) => seq![(c, SqlValue::Integer(n as i64))],
        None => Seq::empty(),
    }
}

/// A column assignment for a present 64-bit count, stored with the integer's bits.
pub open spec fn col_u64(c: Seq<char>, v: Option<u64>) -> Seq<(Seq<char>, SqlValue)> {
    match v {
        Some(n) => seq![(c, SqlValue::Integer(n as i64))],
        None => Seq::empty(),
    }
}

/// A column assignment for a present fixed-point value, stored as a real.
pub open spec fn col_fixed(c: Seq<char>, v: Option<i64>) -> Seq<(Seq<char>, SqlValue)> {
    match v {
        Some(n) => seq![(c, SqlValue::Real(n))],
        None => Seq::empty(),
    }
}

/// A column assignment for a present flag, stored as 1 or 0.
pub open spec fn col_bool(c: Seq<char>, v: Option<bool>) -> Seq<(Seq<char>, SqlValue)> {
    match v {
        Some(b) => seq![(c, SqlValue::Integer(if b { 1 } else { 0 }))],
        None => Seq::empty(),
    }
}

/// The columns that a metadata update sets, in order, one for each present field.
pub open spec fn assignments(m: AudioMeta) -> Seq<(Seq<char>, SqlValue)> {
    col_text("title"@, m.title) + col_text("artist"@, m.artist) + col_text("album"@, m.album) + col_text(
        "album_artist"@,
        m.album_artist,
    ) + col_text("genre"@, m.genre) + col_u32("year"@, m.year) + col_u32("track"@, m.track) + col_u32("disc"@, m.disc)
        + col_u64("duration_ms"@, m.duration_ms) + col_u32("bitrate"@, m.bitrate) + col_u32("sample_rate"@, m.sample_rate)
        + col_u32("track_total"@, m.track_total) + col_u32("disc_total"@, m.disc_total) + col_text("date"@, m.date)
        + col_text("composer"@, m.composer) + col_text("comment"@, m.comment) + col_text("lyrics"@, m.lyrics) + col_text(
        "copyright"@,
        m.copyright,
    ) + col_bool("compilation"@, m.compilation) + col_text("artist_sort"@, m.artist_sort) + col_text(
        "album_artist_sort"@,
        m.album_artist_sort,
    ) + col_text("album_sort"@, m.album_sort) + col_text("title_sort"@, m.title_sort) + col_text(
        "mb_recording_id"@,
        m.mb_recording_id,
    ) + col_text("mb_album_id"@, m.mb_album_id) + col_text("mb_artist_id"@, m.mb_artist_id) + col_text(
        "mb_album_artist_id"@,
        m.mb_album_artist_id,
    ) + col_text("mb_release_group_id"@, m.mb_release_group_id) + col_fixed("replaygain_track_gain"@, m.replaygain_track_gain)
        + col_fixed("replaygain_track_peak"@, m.replaygain_track_peak) + col_fixed(
        "replaygain_album_gain"@,
        m.replaygain_album_gain,
    ) + col_fixed("replaygain_album_peak"@, m.replaygain_album_peak) + col_u32("channels"@, m.channels) + col_u32(
        "bits_per_sample"@,
        m.bits_per_sample,
    ) + col_text("encoder"@, m.encoder)
}

/// `c1 = ?, c2 = ?, ...`.
pub open spec fn set_clause(cols: Seq<Seq<char>>) -> Seq<char>
    decreases cols.len(),
{
    if cols.len() == 0 {
        Seq::empty()
    } else if cols.len() == 1 {
        cols[0] + " = ?"@
    } else {
        set_clause(cols.drop_last()) + ", "@ + cols.last() + " = ?"@
    }
}

pub open spec fn names(a: Seq<(Seq<char>, SqlValue)>) -> Seq<Seq<char>> {
    a.map_values(|e: (Seq<char>, SqlValue)| e.0)
}

pub open spec fn values(a: Seq<(Seq<char>, SqlValue)>) -> Seq<SqlValue> {
    a.map_values(|e: (Seq<char>, SqlValue)| e.1)
}

/// The view of the assignments built so far.
/// No value is a byte string.
pub open spec fn no_blob(a: Seq<(Seq<char>, SqlValue)>) -> bool {
    forall|i: int| 0 <= i < a.len() ==> !((#[trigger] a[i]).1 is Blob)
}

pub open spec fn acc_view(a: Seq<(String, SqlValue)>) -> Seq<(Seq<char>, SqlValue)> {
    a.map_values(|e: (String, SqlValue)| (e.0@, e.1))
}

fn push_one(acc: &mut Vec<(String, SqlValue)>, col: &str, v: SqlValue)
    ensures
        acc_view(final(acc)@) == acc_view(old(acc)@) + seq![(col@, v)],
        no_blob(acc_view(old(acc)@)) && !(v is Blob) ==> no_blob(acc_view(final(acc)@)),
{
    let ghost before = acc@;
    let ghost vv = v;
    acc.push((col.to_owned(), v));
    proof {
        assert(acc_view(acc@) =~= acc_view(before) + seq![(col@, vv)]);
        if no_blob(acc_view(before)) && !(vv is Blob) {
            assert forall|i: int| 0 <= i < acc_view(acc@).len() implies !((#[trigger] acc_view(acc@)[i]).1 is Blob) by {
                if i < acc_view(before).len() {
                    assert(acc_view(acc@)[i] == acc_view(before)[i]);
                }
            }
        }
    }
}

fn keep(acc: &Vec<(String, SqlValue)>)
    ensures
        acc_view(acc@) == acc_view(acc@) + Seq::<(Seq<char>, SqlValue)>::empty(),
{
    proof {
        assert(acc_view(acc@) =~= acc_view(acc@) + Seq::<(Seq<char>, SqlValue)>::empty());
    }
}

fn add_text(acc: &mut Vec<(String, SqlValue)>, col: &str, v: &Option<String>)
    ensures
        acc_view(final(acc)@) == acc_view(old(acc)@) + col_text(col@, *v),
        no_blob(acc_view(old(acc)@)) ==> no_blob(acc_view(final(acc)@)),
{
    match v {
        Some(s) => push_one(acc, col, SqlValue::Text(s.clone())),
        None => keep(acc),
    }
}

fn add_u32(acc: &mut Vec<(String, SqlValue)>, col: &str, v: Option<u32>)
    ensures
        acc_view(final(acc)@) == acc_view(old(acc)@) + col_u32(col@, v),
        no_blob(acc_view(old(acc)@)) ==> no_blob(acc_view(final(acc)@)),
{
    match v {
        Some(n) => push_one(acc, col, SqlValue::Integer(n as i64)),
        None => keep(acc),
    }
}

fn add_u64(acc: &mut Vec<(String, SqlValue)>, col: &str, v: Option<u64>)
    ensures
        acc_view(final(acc)@) == acc_view(old(acc)@) + col_u64(col@, v),
        no_blob(acc_view(old(acc)@)) ==> no_blob(acc_view(final(acc)@)),
{
    match v {
        Some(n) => push_one(acc, col, SqlValue::Integer(n as i64)),
        None => keep(acc),
    }
}

fn add_fixed(acc: &mut Vec<(String, SqlValue)>, col: &str, v: Option<i64>)
    ensures
        acc_view(final(acc)@) == acc_view(old(acc)@) + col_fixed(col@, v),
        no_blob(acc_view(old(acc)@)) ==> no_blob(acc_view(final(acc)@)),
{
    match v {
        Some(n) => push_one(acc, col, SqlValue::Real(n)),
        None => keep(acc),
    }
}

fn add_bool(acc: &mut Vec<(String, SqlValue)>, col: &str, v: Option<bool>)
    ensures
        acc_view(final(acc)@) == acc_view(old(acc)@) + col_bool(col@, v),
        no_blob(acc_view(old(acc)@)) ==> no_blob(acc_view(final(acc)@)),
{
    match v {
        Some(b) => push_one(acc, col, SqlValue::Integer(if b { 1 } else { 0 })),
        None => keep(acc),
    }
}

fn clone_value(v: &SqlValue) -> (r: SqlValue)
    requires
        !(v is Blob),
    ensures
        r == *v,
{
    match v {
        SqlValue::Null => SqlValue::Null,
        SqlValue::Integer(n) => SqlValue::Integer(*n),
        SqlValue::Real(n) => SqlValue::Real(*n),
        SqlValue::Text(t) => SqlValue::Text(t.clone()),
        SqlValue::Blob(_) => SqlValue::Null,
    }
}

/// The columns that a metadata update sets, with their values.
pub fn metadata_assignments(m: &AudioMeta) -> (r: Vec<(String, SqlValue)>)
    ensures
        acc_view(r@) == assignments(*m),
        no_blob(acc_view(r@)),
{
    let mut a: Vec<(String, SqlValue)> = Vec::new();
    proof {
        assert(acc_view(a@) =~= Seq::<(Seq<char>, SqlValue)>::empty());
    }
    add_text(&mut a, "title", &m.title);
    proof {
        assert(acc_view(a@) =~= col_text("title"@, m.title));
    }
    add_text(&mut a, "artist", &m.artist);
    add_text(&mut a, "album", &m.album);
    add_text(&mut a, "album_artist", &m.album_artist);
    add_text(&mut a, "genre", &m.genre);
    add_u32(&mut a, "year", m.year);
    add_u32(&mut a, "track", m.track);
    add_u32(&mut a, "disc", m.disc);
    add_u64(&mut a, "duration_ms", m.duration_ms);
    add_u32(&mut a, "bitrate", m.bitrate);
    add_u32(&mut a, "sample_rate", m.sample_rate);
    add_u32(&mut a, "track_total", m.track_total);
    add_u32(&mut a, "disc_total", m.disc_total);
    add_text(&mut a, "date", &m.date);
    add_text(&mut a, "composer", &m.composer);
    add_text(&mut a, "comment", &m.comment);
    add_text(&mut a, "lyrics", &m.lyrics);
    add_text(&mut a, "copyright", &m.copyright);
    add_bool(&mut a, "compilation", m.compilation);
    add_text(&mut a, "artist_sort", &m.artist_sort);
    add_text(&mut a, "album_artist_sort", &m.album_artist_sort);
    add_text(&mut a, "album_sort", &m.album_sort);
    add_text(&mut a, "title_sort", &m.title_sort);
    add_text(&mut a, "mb_recording_id", &m.mb_recording_id);
    add_text(&mut a, "mb_album_id", &m.mb_album_id);
    add_text(&mut a, "mb_artist_id", &m.mb_artist_id);
    add_text(&mut a, "mb_album_artist_id", &m.mb_album_artist_id);
    add_text(&mut a, "mb_release_group_id", &m.mb_release_group_id);
    add_fixed(&mut a, "replaygain_track_gain", m.replaygain_track_gain);
    add_fixed(&mut a, "replaygain_track_peak", m.replaygain_track_peak);
    add_fixed(&mut a, "replaygain_album_gain", m.replaygain_album_gain);
    add_fixed(&mut a, "replaygain_album_peak", m.replaygain_album_peak);
    add_u32(&mut a, "channels", m.channels);
    add_u32(&mut a, "bits_per_sample", m.bits_per_sample);
    add_text(&mut a, "encoder", &m.encoder);
    a
}

/// The statement of a metadata update: `UPDATE files SET` the present fields `WHERE id = ?`,
/// with their values and then the file id; none where no field is present.
pub open spec fn update_statement_spec(file_id: FileId, m: AudioMeta) -> Option<(Seq<char>, Seq<SqlValue>)> {
    let a = assignments(m);
    if a.len() == 0 {
        None
    } else {
        Some(
            (
                "UPDATE files SET "@ + set_clause(names(a)) + " WHERE id = ?"@,
                values(a).push(SqlValue::Integer(file_id.0)),
            ),
        )
    }
}

/// The statement that writes a metadata overlay; `None` for metadata without a field, which
/// leaves the row as it is.
pub fn update_metadata_statement(file_id: FileId, m: &AudioMeta) -> (r: Option<Statement>)
    ensures
        match update_statement_spec(file_id, *m) {
            Some((sql, params)) => r matches Some(s) && s.sql@ == sql && s.params@ == params,
            None => r is None,
        },
{
    let a = metadata_assignments(m);
    let ghost av = acc_view(a@);
    if a.len() == 0 {
        return None;
    }
    let mut sql = "UPDATE files SET ".to_owned();
    let ghost head = sql@;
    let mut params: Vec<SqlValue> = Vec::new();
    let mut i: usize = 0;
    while i < a.len()
        invariant
            i <= a@.len(),
            av == acc_view(a@),
            a@.len() > 0,
            head == "UPDATE files SET "@,
            sql@ == head + set_clause(names(av.subrange(0, i as int))),
            params@ == values(av.subrange(0, i as int)),
            no_blob(av),
        decreases a@.len() - i,
    {
        proof {
            assert(av[i as int].1 == a@[i as int].1);
            let p = names(av.subrange(0, i + 1));
            assert(p.drop_last() =~= names(av.subrange(0, i as int)));
            assert(p.last() == a@[i as int].0@);
        }
        if i > 0 {
            append_str(&mut sql, ", ");
        }
        append_str(&mut sql, a[i].0.as_str());
        append_str(&mut sql, " = ?");
        params.push(clone_value(&a[i].1));
        proof {
            assert(values(av.subrange(0, i + 1)) =~= values(av.subrange(0, i as int)).push(a@[i as int].1));
            if i == 0 {
                assert(names(av.subrange(0, 1)) =~= seq![a@[0].0@]);
            }
        }
        i = i + 1;
    }
    append_str(&mut sql, " WHERE id = ?");
    params.push(SqlValue::Integer(file_id.0));
    proof {
        assert(av.subrange(0, a@.len() as int) =~= av);
    }
    Some(Statement { sql, params })
}

/// The result of a statement that must touch the file's row: none touched means the file
/// does not exist.
pub fn require_row(rows: usize, file_id: FileId) -> (r: Result<(), DbError>)
    ensures
        rows > 0 ==> r is Ok,
        rows == 0 ==> (r matches Err(DbError::FileNotFound(m)) && m@ == "file id "@ + crate::fixed::int_text(file_id.0)
            + " not found"@),
{
    if rows == 0 {
        let mut m = "file id ".to_owned();
        let n = crate::fixed::format_int(file_id.0);
        append_str(&mut m, n.as_str());
        append_str(&mut m, " not found");
        return Err(DbError::FileNotFound(m));
    }
    Ok(())
}

/// `Duration::as_secs` of a span.
pub uninterp spec fn secs_of(d: Duration) -> u64;

/// `Duration::as_secs`: the whole seconds of the span, a function of the span alone.
#[verifier::external_body]
fn duration_as_secs(d: &Duration) -> (r: u64)
    ensures
        r == secs_of(*d),
{
    d.as_secs()
}

/// The seconds since the Unix epoch on the system clock (0 for a clock before it); depends
/// on the clock.
#[verifier::external_body]
fn unix_now_secs() -> u64 {
    std::time::SystemTime::now().duration_since(std::time::UNIX_EPOCH).map(|d| d.as_secs()).unwrap_or(0)
}

/// The query text of a trash listing: trashed files, narrowed by origin, by a prefix of the
/// original path, and by a time window, newest first.
pub open spec fn trash_sql(f: TrashedFilter) -> Seq<char> {
    "SELECT id, virtual_path, original_path, trashed_at, origin_id FROM files WHERE trashed = 1"@ + (if f.origin_id is Some {
        " AND origin_id = ?"@
    } else {
        Seq::empty()
    }) + (if f.path_prefix is Some {
        " AND original_path LIKE ?"@
    } else {
        Seq::empty()
    }) + (if f.since is Some {
        " AND trashed_at >= ?"@
    } else {
        Seq::empty()
    }) + " ORDER BY trashed_at DESC"@
}

/// The values of a trash listing's parameters at `now` (seconds since the epoch): the
/// origin, the prefix followed by `%`, and the earliest time of the window, each where the
/// filter has it.
pub open spec fn trash_params_ok(f: TrashedFilter, now: u64, ps: Seq<SqlValue>) -> bool {
    let n_o: int = if f.origin_id is Some { 1 } else { 0 };
    let n_p: int = if f.path_prefix is Some { 1 } else { 0 };
    let n_s: int = if f.since is Some { 1 } else { 0 };
    &&& ps.len() == n_o + n_p + n_s
    &&& f.origin_id matches Some(o) ==> ps[0] == SqlValue::Text(o.0)
    &&& f.path_prefix matches Some(p) ==> (ps[n_o] matches SqlValue::Text(t) && t@ == p@ + "%"@)
    &&& f.since matches Some(d) ==> ps[n_o + n_p] == SqlValue::Integer(((now as i64) - (secs_of(d) as i64)) as i64)
}

/// The statement of a trash listing at `now`.
pub open spec fn trash_statement_ok(f: TrashedFilter, now: u64, s: Statement) -> bool {
    s.sql@ == trash_sql(f) && trash_params_ok(f, now, s.params@)
}

/// Whether the time window can be computed at `now` without overflow.
pub open spec fn window_fits(f: TrashedFilter, now: u64) -> bool {
    match f.since {
        Some(d) => i64::MIN <= (now as i64) - (secs_of(d) as i64) <= i64::MAX,
        None => true,
    }
}

/// The query of a trash listing at a given time.
pub fn list_trashed_statement_at(filter: &TrashedFilter, now: u64) -> (r: Statement)
    requires
        window_fits(*filter, now),
    ensures
        trash_statement_ok(*filter, now, r),
{
    let mut sql = "SELECT id, virtual_path, original_path, trashed_at, origin_id FROM files WHERE trashed = 1".to_owned();
    let ghost s0 = sql@;
    let mut params: Vec<SqlValue> = Vec::new();
    if let Some(o) = &filter.origin_id {
        append_str(&mut sql, " AND origin_id = ?");
        params.push(SqlValue::Text(o.0.clone()));
    }
    let ghost s1 = sql@;
    let ghost p1 = params@;
    if let Some(pre) = &filter.path_prefix {
        append_str(&mut sql, " AND original_path LIKE ?");
        let mut like = pre.clone();
        append_str(&mut like, "%");
        params.push(SqlValue::Text(like));
    }
    let ghost s2 = sql@;
    let ghost p2 = params@;
    if let Some(d) = &filter.since {
        let secs = duration_as_secs(d);
        append_str(&mut sql, " AND trashed_at >= ?");
        params.push(SqlValue::Integer((now as i64) - (secs as i64)));
    }
    let ghost s3 = sql@;
    append_str(&mut sql, " ORDER BY trashed_at DESC");
    proof {
        let e = Seq::<char>::empty();
        assert(s1 == s0 + (if filter.origin_id is Some { " AND origin_id = ?"@ } else { e })) by {
            if filter.origin_id is None {
                assert(s0 + e =~= s0);
            }
        }
        assert(s2 == s1 + (if filter.path_prefix is Some { " AND original_path LIKE ?"@ } else { e })) by {
            if filter.path_prefix is None {
                assert(s1 + e =~= s1);
            }
        }
        assert(s3 == s2 + (if filter.since is Some { " AND trashed_at >= ?"@ } else { e })) by {
            if filter.since is None {
                assert(s2 + e =~= s2);
            }
        }
    }
    Statement { sql, params }
}

/// The query of a trash listing at `now`, or `None` exactly where the time window would
/// overflow there.
pub fn list_trashed_statement_checked(filter: &TrashedFilter, now: u64) -> (r: Option<Statement>)
    ensures
        r is None <==> !window_fits(*filter, now),
        r matches Some(s) ==> trash_statement_ok(*filter, now, s),
{
    let fits = match &filter.since {
        Some(d) => {
            let secs = duration_as_secs(d);
            let a = now as i64;
            let b = secs as i64;
            (b >= 0 && a >= i64::MIN + b) || (b < 0 && a <= i64::MAX + b)
        },
        None => true,
    };
    if !fits {
        return None;
    }
    Some(list_trashed_statement_at(filter, now))
}

/// The query of a trash listing now, with the time it was made for. It fails only for a
/// filter with a time window that overflows at the clock's reading; a filter without a
/// window always gives a query.
pub fn list_trashed_statement(filter: &TrashedFilter) -> (r: Option<(Statement, u64)>)
    ensures
        filter.since is None ==> r is Some,
        r is None ==> filter.since is Some && exists|n: u64| !window_fits(*filter, n),
        match r {
            Some((s, now)) => trash_statement_ok(*filter, now, s),
            None => true,
        },
{
    let now = unix_now_secs();
    match list_trashed_statement_checked(filter, now) {
        Some(st) => Some((st, now)),
        None => None,
    }
}

/// What a bound value is, with texts and byte strings by their contents.
pub enum SqlView {
    Null,
    Integer(i64),
    Real(i64),
    Text(Seq<char>),
    Blob(Seq<u8>),
}

pub open spec fn sql_view(v: SqlValue) -> SqlView {
    match v {
        SqlValue::Null => SqlView::Null,
        SqlValue::Integer(n) => SqlView::Integer(n),
        SqlValue::Real(n) => SqlView::Real(n),
        SqlValue::Text(t) => SqlView::Text(t@),
        SqlValue::Blob(b) => SqlView::Blob(b@),
    }
}

pub open spec fn params_view(v: Seq<SqlValue>) -> Seq<SqlView> {
    v.map_values(|x: SqlValue| sql_view(x))
}

pub open spec fn text_or_null(o: Option<Seq<char>>) -> SqlView {
    match o {
        Some(t) => SqlView::Text(t),
        None => SqlView::Null,
    }
}

pub open spec fn u32_or_null(o: Option<u32>) -> SqlView {
    match o {
        Some(n) => SqlView::Integer(n as i64),
        None => SqlView::Null,
    }
}

/// A 64-bit count stored with the integer's bits.
pub open spec fn bits_or_null(o: Option<u64>) -> SqlView {
    match o {
        Some(n) => SqlView::Integer(n as i64),
        None => SqlView::Null,
    }
}

pub open spec fn fixed_or_null(o: Option<i64>) -> SqlView {
    match o {
        Some(n) => SqlView::Real(n),
        None => SqlView::Null,
    }
}

pub open spec fn flag_or_null(o: Option<bool>) -> SqlView {
    match o {
        Some(b) => SqlView::Integer(if b { 1 } else { 0 }),
        None => SqlView::Null,
    }
}

pub open spec fn bytes_or_null(o: Option<Seq<u8>>) -> SqlView {
    match o {
        Some(b) => SqlView::Blob(b),
        None => SqlView::Null,
    }
}

pub open spec fn bytes_view(o: Option<Vec<u8>>) -> Option<Seq<u8>> {
    match o {
        Some(b) => Some(b@),
        None => None,
    }
}

pub open spec fn upsert_sql() -> Seq<char> {
    "INSERT INTO files (origin_id, real_path, virtual_path, title, artist, album, album_artist, genre, year, track, disc, duration_ms, bitrate, sample_rate, format, track_total, disc_total, date, composer, comment, lyrics, copyright, compilation, artist_sort, album_artist_sort, album_sort, title_sort, mb_recording_id, mb_album_id, mb_artist_id, mb_album_artist_id, mb_release_group_id, replaygain_track_gain, replaygain_track_peak, replaygain_album_gain, replaygain_album_peak, channels, bits_per_sample, encoder, custom_tags, format_layout, origin_mtime, origin_size) VALUES (?1, ?2, ?3, ?4, ?5, ?6, ?7, ?8, ?9, ?10, ?11, ?12, ?13, ?14, ?15, ?16, ?17, ?18, ?19, ?20, ?21, ?22, ?23, ?24, ?25, ?26, ?27, ?28, ?29, ?30, ?31, ?32, ?33, ?34, ?35, ?36, ?37, ?38, ?39, ?40, ?41, ?42, ?43) ON CONFLICT(origin_id, real_path) DO UPDATE SET virtual_path = excluded.virtual_path, title = excluded.title, artist = excluded.artist, album = excluded.album, album_artist = excluded.album_artist, genre = excluded.genre, year = excluded.year, track = excluded.track, disc = excluded.disc, duration_ms = excluded.duration_ms, bitrate = excluded.bitrate, sample_rate = excluded.sample_rate, format = excluded.format, track_total = excluded.track_total, disc_total = excluded.disc_total, date = excluded.date, composer = excluded.composer, comment = excluded.comment, lyrics = excluded.lyrics, copyright = excluded.copyright, compilation = excluded.compilation, artist_sort = excluded.artist_sort, album_artist_sort = excluded.album_artist_sort, album_sort = excluded.album_sort, title_sort = excluded.title_sort, mb_recording_id = excluded.mb_recording_id, mb_album_id = excluded.mb_album_id, mb_artist_id = excluded.mb_artist_id, mb_album_artist_id = excluded.mb_album_artist_id, mb_release_group_id = excluded.mb_release_group_id, replaygain_track_gain = excluded.replaygain_track_gain, replaygain_track_peak = excluded.replaygain_track_peak, replaygain_album_gain = excluded.replaygain_album_gain, replaygain_album_peak = excluded.replaygain_album_peak, channels = excluded.channels, bits_per_sample = excluded.bits_per_sample, encoder = excluded.encoder, custom_tags = excluded.custom_tags, format_layout = excluded.format_layout, origin_mtime = excluded.origin_mtime, origin_size = excluded.origin_size, last_sync = strftime('%s', 'now')"@
}

/// The values of an upsert, in column order: the file's place, every metadata field (absent
/// ones as null), the format's name, the custom tags as JSON text, the serialised layout,
/// the modification time in seconds and the size with the integer's bits.
pub open spec fn upsert_params(
    origin: Seq<char>,
    real_path: Seq<char>,
    vpath: Seq<char>,
    m: AudioMeta,
    mtime: i64,
    size: u64,
    tags: Option<Seq<char>>,
    layout: Option<Seq<u8>>,
) -> Seq<SqlView> {
    seq![
        SqlView::Text(origin),
        SqlView::Text(real_path),
        SqlView::Text(vpath),
        text_or_null(opt_view(m.title)),
        text_or_null(opt_view(m.artist)),
        text_or_null(opt_view(m.album)),
        text_or_null(opt_view(m.album_artist)),
        text_or_null(opt_view(m.genre)),
        u32_or_null(m.year),
        u32_or_null(m.track),
        u32_or_null(m.disc),
        bits_or_null(m.duration_ms),
        u32_or_null(m.bitrate),
        u32_or_null(m.sample_rate),
        SqlView::Text(format_name_spec(m.format)),
        u32_or_null(m.track_total),
        u32_or_null(m.disc_total),
        text_or_null(opt_view(m.date)),
        text_or_null(opt_view(m.composer)),
        text_or_null(opt_view(m.comment)),
        text_or_null(opt_view(m.lyrics)),
        text_or_null(opt_view(m.copyright)),
        flag_or_null(m.compilation),
        text_or_null(opt_view(m.artist_sort)),
        text_or_null(opt_view(m.album_artist_sort)),
        text_or_null(opt_view(m.album_sort)),
        text_or_null(opt_view(m.title_sort)),
        text_or_null(opt_view(m.mb_recording_id)),
        text_or_null(opt_view(m.mb_album_id)),
        text_or_null(opt_view(m.mb_artist_id)),
        text_or_null(opt_view(m.mb_album_artist_id)),
        text_or_null(opt_view(m.mb_release_group_id)),
        fixed_or_null(m.replaygain_track_gain),
        fixed_or_null(m.replaygain_track_peak),
        fixed_or_null(m.replaygain_album_gain),
        fixed_or_null(m.replaygain_album_peak),
        u32_or_null(m.channels),
        u32_or_null(m.bits_per_sample),
        text_or_null(opt_view(m.encoder)),
        text_or_null(tags),
        bytes_or_null(layout),
        SqlView::Integer(mtime),
        SqlView::Integer(size as i64)
    ]
}

/// The statement that moves a file to the trash, remembering the path it had and the time.
pub fn mark_trashed_statement(file_id: FileId, original_path: &VirtualPath) -> (r: Statement)
    ensures
        r.sql@ == "UPDATE files SET trashed = 1, original_path = ?1, trashed_at = strftime('%s', 'now') WHERE id = ?2"@,
        params_view(r.params@) == seq![SqlView::Text(original_path@), SqlView::Integer(file_id.0)],
{
    let mut params: Vec<SqlValue> = Vec::new();
    proof {
        assert(params_view(params@) =~= Seq::<SqlView>::empty());
    }
    push_param(&mut params, SqlValue::Text(original_path.0.clone()));
    push_param(&mut params, SqlValue::Integer(file_id.0));
    proof {
        assert(params_view(params@) =~= seq![SqlView::Text(original_path@), SqlView::Integer(file_id.0)]);
    }
    Statement {
        sql: "UPDATE files SET trashed = 1, original_path = ?1, trashed_at = strftime('%s', 'now') WHERE id = ?2".to_owned(),
        params,
    }
}

fn push_param(params: &mut Vec<SqlValue>, v: SqlValue)
    ensures
        params_view(final(params)@) == params_view(old(params)@).push(sql_view(v)),
{
    let ghost before = params@;
    let ghost vv = sql_view(v);
    params.push(v);
    proof {
        assert(params_view(params@) =~= params_view(before).push(vv));
    }
}

fn text_value(o: &Option<String>) -> (r: SqlValue)
    ensures
        sql_view(r) == text_or_null(opt_view(*o)),
{
    match o {
        Some(t) => SqlValue::Text(t.clone()),
        None => SqlValue::Null,
    }
}

fn u32_value(o: Option<u32>) -> (r: SqlValue)
    ensures
        sql_view(r) == u32_or_null(o),
{
    match o {
        Some(n) => SqlValue::Integer(n as i64),
        None => SqlValue::Null,
    }
}

fn bits_value(o: Option<u64>) -> (r: SqlValue)
    ensures
        sql_view(r) == bits_or_null(o),
{
    match o {
        Some(n) => SqlValue::Integer(n as i64),
        None => SqlValue::Null,
    }
}

fn fixed_value(o: Option<i64>) -> (r: SqlValue)
    ensures
        sql_view(r) == fixed_or_null(o),
{
    match o {
        Some(n) => SqlValue::Real(n),
        None => SqlValue::Null,
    }
}

fn flag_value(o: Option<bool>) -> (r: SqlValue)
    ensures
        sql_view(r) == flag_or_null(o),
{
    match o {
        Some(b) => SqlValue::Integer(if b { 1 } else { 0 }),
        None => SqlValue::Null,
    }
}

/// The statement that inserts a file, or on a file already known at that place updates
/// every column and the sync time.
pub fn upsert_file_statement(
    origin_id: &OriginId,
    real_path: &str,
    virtual_path: &VirtualPath,
    m: &AudioMeta,
    origin_mtime_secs: i64,
    origin_size: u64,
    custom_tags_json: Option<String>,
    format_layout_blob: Option<Vec<u8>>,
) -> (r: Statement)
    ensures
        r.sql@ == upsert_sql(),
        params_view(r.params@) == upsert_params(
            origin_id@,
            real_path@,
            virtual_path.0@,
            *m,
            origin_mtime_secs,
            origin_size,
            opt_view(custom_tags_json),
            bytes_view(format_layout_blob),
        ),
{
    let ghost tags = opt_view(custom_tags_json);
    let ghost layout = bytes_view(format_layout_blob);
    let mut params: Vec<SqlValue> = Vec::new();
    proof {
        assert(params_view(params@) =~= Seq::<SqlView>::empty());
    }
    push_param(&mut params, SqlValue::Text(origin_id.0.clone()));
    push_param(&mut params, SqlValue::Text(real_path.to_owned()));
    push_param(&mut params, SqlValue::Text(virtual_path.0.clone()));
    push_param(&mut params, text_value(&m.title));
    push_param(&mut params, text_value(&m.artist));
    push_param(&mut params, text_value(&m.album));
    push_param(&mut params, text_value(&m.album_artist));
    push_param(&mut params, text_value(&m.genre));
    push_param(&mut params, u32_value(m.year));
    push_param(&mut params, u32_value(m.track));
    push_param(&mut params, u32_value(m.disc));
    push_param(&mut params, bits_value(m.duration_ms));
    push_param(&mut params, u32_value(m.bitrate));
    push_param(&mut params, u32_value(m.sample_rate));
    push_param(&mut params, SqlValue::Text(crate::service::format_name(m.format)));
    push_param(&mut params, u32_value(m.track_total));
    push_param(&mut params, u32_value(m.disc_total));
    push_param(&mut params, text_value(&m.date));
    push_param(&mut params, text_value(&m.composer));
    push_param(&mut params, text_value(&m.comment));
    push_param(&mut params, text_value(&m.lyrics));
    push_param(&mut params, text_value(&m.copyright));
    push_param(&mut params, flag_value(m.compilation));
    push_param(&mut params, text_value(&m.artist_sort));
    push_param(&mut params, text_value(&m.album_artist_sort));
    push_param(&mut params, text_value(&m.album_sort));
    push_param(&mut params, text_value(&m.title_sort));
    push_param(&mut params, text_value(&m.mb_recording_id));
    push_param(&mut params, text_value(&m.mb_album_id));
    push_param(&mut params, text_value(&m.mb_artist_id));
    push_param(&mut params, text_value(&m.mb_album_artist_id));
    push_param(&mut params, text_value(&m.mb_release_group_id));
    push_param(&mut params, fixed_value(m.replaygain_track_gain));
    push_param(&mut params, fixed_value(m.replaygain_track_peak));
    push_param(&mut params, fixed_value(m.replaygain_album_gain));
    push_param(&mut params, fixed_value(m.replaygain_album_peak));
    push_param(&mut params, u32_value(m.channels));
    push_param(&mut params, u32_value(m.bits_per_sample));
    push_param(&mut params, text_value(&m.encoder));
    push_param(&mut params, text_value(&custom_tags_json));
    push_param(&mut params, match format_layout_blob { Some(b) => SqlValue::Blob(b), None => SqlValue::Null });
    push_param(&mut params, SqlValue::Integer(origin_mtime_secs));
    push_param(&mut params, SqlValue::Integer(origin_size as i64));
    proof {
        assert(params_view(params@) =~= upsert_params(origin_id@, real_path@, virtual_path.0@, *m, origin_mtime_secs, origin_size, tags, layout));
    }
    Statement { sql: "INSERT INTO files (origin_id, real_path, virtual_path, title, artist, album, album_artist, genre, year, track, disc, duration_ms, bitrate, sample_rate, format, track_total, disc_total, date, composer, comment, lyrics, copyright, compilation, artist_sort, album_artist_sort, album_sort, title_sort, mb_recording_id, mb_album_id, mb_artist_id, mb_album_artist_id, mb_release_group_id, replaygain_track_gain, replaygain_track_peak, replaygain_album_gain, replaygain_album_peak, channels, bits_per_sample, encoder, custom_tags, format_layout, origin_mtime, origin_size) VALUES (?1, ?2, ?3, ?4, ?5, ?6, ?7, ?8, ?9, ?10, ?11, ?12, ?13, ?14, ?15, ?16, ?17, ?18, ?19, ?20, ?21, ?22, ?23, ?24, ?25, ?26, ?27, ?28, ?29, ?30, ?31, ?32, ?33, ?34, ?35, ?36, ?37, ?38, ?39, ?40, ?41, ?42, ?43) ON CONFLICT(origin_id, real_path) DO UPDATE SET virtual_path = excluded.virtual_path, title = excluded.title, artist = excluded.artist, album = excluded.album, album_artist = excluded.album_artist, genre = excluded.genre, year = excluded.year, track = excluded.track, disc = excluded.disc, duration_ms = excluded.duration_ms, bitrate = excluded.bitrate, sample_rate = excluded.sample_rate, format = excluded.format, track_total = excluded.track_total, disc_total = excluded.disc_total, date = excluded.date, composer = excluded.composer, comment = excluded.comment, lyrics = excluded.lyrics, copyright = excluded.copyright, compilation = excluded.compilation, artist_sort = excluded.artist_sort, album_artist_sort = excluded.album_artist_sort, album_sort = excluded.album_sort, title_sort = excluded.title_sort, mb_recording_id = excluded.mb_recording_id, mb_album_id = excluded.mb_album_id, mb_artist_id = excluded.mb_artist_id, mb_album_artist_id = excluded.mb_album_artist_id, mb_release_group_id = excluded.mb_release_group_id, replaygain_track_gain = excluded.replaygain_track_gain, replaygain_track_peak = excluded.replaygain_track_peak, replaygain_album_gain = excluded.replaygain_album_gain, replaygain_album_peak = excluded.replaygain_album_peak, channels = excluded.channels, bits_per_sample = excluded.bits_per_sample, encoder = excluded.encoder, custom_tags = excluded.custom_tags, format_layout = excluded.format_layout, origin_mtime = excluded.origin_mtime, origin_size = excluded.origin_size, last_sync = strftime('%s', 'now')".to_owned(), params }
}

} // verus!

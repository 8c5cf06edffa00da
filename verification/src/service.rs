//! The decisions of the metadata service: request checks, the metadata that a request or an
//! import entry stands for, and the progress reports of batch updates and imports. The
//! transport, the database and the import file are handled by the caller.
use vstd::prelude::*;

use crate::text::append_str;
use crate::types::{AudioFormat, AudioMeta, FileId};

verus! {

/// Why a request was refused, as the transport reports it.
#[derive(Debug, Clone)]
pub enum ServiceError {
    InvalidArgument(String),
    NotFound(String),
    Internal(String),
}

/// A request to replace a file's metadata overlay. ReplayGain values are in millionths.
#[derive(Debug, Clone, Default)]
pub struct MetadataUpdate {
    pub file_id: i64,
    pub title: Option<String>,
    pub artist: Option<String>,
    pub album: Option<String>,
    pub album_artist: Option<String>,
    pub genre: Option<String>,
    pub year: Option<u32>,
    pub track_number: Option<u32>,
    pub disc_number: Option<u32>,
    pub date: Option<String>,
    pub composer: Option<String>,
    pub comment: Option<String>,
    pub lyrics: Option<String>,
    pub copyright: Option<String>,
    pub compilation: Option<bool>,
    pub artist_sort: Option<String>,
    pub album_artist_sort: Option<String>,
    pub album_sort: Option<String>,
    pub title_sort: Option<String>,
    pub mb_recording_id: Option<String>,
    pub mb_album_id: Option<String>,
    pub mb_artist_id: Option<String>,
    pub replaygain_track_gain: Option<i64>,
    pub replaygain_track_peak: Option<i64>,
    pub replaygain_album_gain: Option<i64>,
    pub replaygain_album_peak: Option<i64>,
    pub label: Option<String>,
    pub album_type: Option<String>,
    pub cover_url: Option<String>,
    pub custom_tags: Vec<(String, String)>,
}

/// The answer to an update or a clear.
#[derive(Debug, Clone)]
pub struct UpdateResult {
    pub file_id: i64,
    pub success: bool,
    pub error_message: Option<String>,
}

/// One line of an import file: a path and the fields to set on it.
#[derive(Debug, Clone, Default)]
pub struct ImportEntry {
    pub virtual_path: String,
    pub title: Option<String>,
    pub artist: Option<String>,
    pub album: Option<String>,
    pub album_artist: Option<String>,
    pub genre: Option<String>,
    pub year: Option<u32>,
    pub track: Option<u32>,
    pub disc: Option<u32>,
    pub date: Option<String>,
    pub composer: Option<String>,
    pub comment: Option<String>,
}

/// A progress report of an import.
#[derive(Debug, Clone)]
pub struct ImportProgress {
    pub imported: u32,
    pub total: u32,
    pub current_file: Option<String>,
    pub error_message: Option<String>,
}

/// A progress report of a batch update.
#[derive(Debug, Clone)]
pub struct BatchUpdateProgress {
    pub completed: u32,
    pub total: u32,
    pub current_file_id: Option<i64>,
    pub error_message: Option<String>,
}

/// The metadata that an update request sets: its fields, nothing else.
pub open spec fn request_meta_spec(req: MetadataUpdate) -> AudioMeta {
    AudioMeta {
        title: req.title,
        artist: req.artist,
        album: req.album,
        album_artist: req.album_artist,
        genre: req.genre,
        year: req.year,
        track: req.track_number,
        disc: req.disc_number,
        date: req.date,
        composer: req.composer,
        comment: req.comment,
        lyrics: req.lyrics,
        copyright: req.copyright,
        compilation: req.compilation,
        artist_sort: req.artist_sort,
        album_artist_sort: req.album_artist_sort,
        album_sort: req.album_sort,
        title_sort: req.title_sort,
        mb_recording_id: req.mb_recording_id,
        mb_album_id: req.mb_album_id,
        mb_artist_id: req.mb_artist_id,
        replaygain_track_gain: req.replaygain_track_gain,
        replaygain_track_peak: req.replaygain_track_peak,
        replaygain_album_gain: req.replaygain_album_gain,
        replaygain_album_peak: req.replaygain_album_peak,
        ..crate::types::empty_meta()
    }
}

/// The metadata that an import entry sets: its fields, nothing else.
pub open spec fn entry_meta_spec(e: ImportEntry) -> AudioMeta {
    AudioMeta {
        title: e.title,
        artist: e.artist,
        album: e.album,
        album_artist: e.album_artist,
        genre: e.genre,
        year: e.year,
        track: e.track,
        disc: e.disc,
        date: e.date,
        composer: e.composer,
        comment: e.comment,
        ..crate::types::empty_meta()
    }
}

/// An update request stores exactly its own fields: each metadata field is the request's
/// field of that name (track and disc from `track_number` and `disc_number`); every field a
/// request cannot carry is absent and the format unknown.
pub proof fn law_update_request_fields(req: MetadataUpdate)
    ensures
        request_meta_spec(req).title == req.title,
        request_meta_spec(req).artist == req.artist,
        request_meta_spec(req).album == req.album,
        request_meta_spec(req).album_artist == req.album_artist,
        request_meta_spec(req).genre == req.genre,
        request_meta_spec(req).year == req.year,
        request_meta_spec(req).track == req.track_number,
        request_meta_spec(req).disc == req.disc_number,
        request_meta_spec(req).duration_ms is None,
        request_meta_spec(req).bitrate is None,
        request_meta_spec(req).sample_rate is None,
        request_meta_spec(req).track_total is None,
        request_meta_spec(req).disc_total is None,
        request_meta_spec(req).date == req.date,
        request_meta_spec(req).composer == req.composer,
        request_meta_spec(req).comment == req.comment,
        request_meta_spec(req).lyrics == req.lyrics,
        request_meta_spec(req).copyright == req.copyright,
        request_meta_spec(req).compilation == req.compilation,
        request_meta_spec(req).artist_sort == req.artist_sort,
        request_meta_spec(req).album_artist_sort == req.album_artist_sort,
        request_meta_spec(req).album_sort == req.album_sort,
        request_meta_spec(req).title_sort == req.title_sort,
        request_meta_spec(req).mb_recording_id == req.mb_recording_id,
        request_meta_spec(req).mb_album_id == req.mb_album_id,
        request_meta_spec(req).mb_artist_id == req.mb_artist_id,
        request_meta_spec(req).mb_album_artist_id is None,
        request_meta_spec(req).mb_release_group_id is None,
        request_meta_spec(req).replaygain_track_gain == req.replaygain_track_gain,
        request_meta_spec(req).replaygain_track_peak == req.replaygain_track_peak,
        request_meta_spec(req).replaygain_album_gain == req.replaygain_album_gain,
        request_meta_spec(req).replaygain_album_peak == req.replaygain_album_peak,
        request_meta_spec(req).channels is None,
        request_meta_spec(req).bits_per_sample is None,
        request_meta_spec(req).encoder is None,
        request_meta_spec(req).format == AudioFormat::Unknown,
{
}

/// An import entry stores exactly its own fields: title, artist, album, album artist, genre,
/// year, track, disc, date, composer and comment as the entry gives them; every other field
/// absent and the format unknown.
pub proof fn law_import_entry_fields(e: ImportEntry)
    ensures
        entry_meta_spec(e).title == e.title,
        entry_meta_spec(e).artist == e.artist,
        entry_meta_spec(e).album == e.album,
        entry_meta_spec(e).album_artist == e.album_artist,
        entry_meta_spec(e).genre == e.genre,
        entry_meta_spec(e).year == e.year,
        entry_meta_spec(e).track == e.track,
        entry_meta_spec(e).disc == e.disc,
        entry_meta_spec(e).duration_ms is None,
        entry_meta_spec(e).bitrate is None,
        entry_meta_spec(e).sample_rate is None,
        entry_meta_spec(e).track_total is None,
        entry_meta_spec(e).disc_total is None,
        entry_meta_spec(e).date == e.date,
        entry_meta_spec(e).composer == e.composer,
        entry_meta_spec(e).comment == e.comment,
        entry_meta_spec(e).lyrics is None,
        entry_meta_spec(e).copyright is None,
        entry_meta_spec(e).compilation is None,
        entry_meta_spec(e).artist_sort is None,
        entry_meta_spec(e).album_artist_sort is None,
        entry_meta_spec(e).album_sort is None,
        entry_meta_spec(e).title_sort is None,
        entry_meta_spec(e).mb_recording_id is None,
        entry_meta_spec(e).mb_album_id is None,
        entry_meta_spec(e).mb_artist_id is None,
        entry_meta_spec(e).mb_album_artist_id is None,
        entry_meta_spec(e).mb_release_group_id is None,
        entry_meta_spec(e).replaygain_track_gain is None,
        entry_meta_spec(e).replaygain_track_peak is None,
        entry_meta_spec(e).replaygain_album_gain is None,
        entry_meta_spec(e).replaygain_album_peak is None,
        entry_meta_spec(e).channels is None,
        entry_meta_spec(e).bits_per_sample is None,
        entry_meta_spec(e).encoder is None,
        entry_meta_spec(e).format == AudioFormat::Unknown,
{
}

fn clone_opt(s: &Option<String>) -> (r: Option<String>)
    ensures
        r == *s,
{
    match s {
        Some(v) => Some(v.clone()),
        None => None,
    }
}

fn text(prefix: &str, detail: &str) -> (r: String)
    ensures
        r@ == prefix@ + detail@,
{
    let mut s = prefix.to_owned();
    append_str(&mut s, detail);
    s
}

impl MetadataUpdate {
    /// The metadata to store for this request.
    pub fn to_audio_meta(&self) -> (r: AudioMeta)
        ensures
            r == request_meta_spec(*self),
            r.title == self.title,
            r.artist == self.artist,
            r.album == self.album,
            r.album_artist == self.album_artist,
            r.genre == self.genre,
            r.year == self.year,
            r.track == self.track_number,
            r.disc == self.disc_number,
            r.duration_ms is None,
            r.bitrate is None,
            r.sample_rate is None,
            r.track_total is None,
            r.disc_total is None,
            r.date == self.date,
            r.composer == self.composer,
            r.comment == self.comment,
            r.lyrics == self.lyrics,
            r.copyright == self.copyright,
            r.compilation == self.compilation,
            r.artist_sort == self.artist_sort,
            r.album_artist_sort == self.album_artist_sort,
            r.album_sort == self.album_sort,
            r.title_sort == self.title_sort,
            r.mb_recording_id == self.mb_recording_id,
            r.mb_album_id == self.mb_album_id,
            r.mb_artist_id == self.mb_artist_id,
            r.mb_album_artist_id is None,
            r.mb_release_group_id is None,
            r.replaygain_track_gain == self.replaygain_track_gain,
            r.replaygain_track_peak == self.replaygain_track_peak,
            r.replaygain_album_gain == self.replaygain_album_gain,
            r.replaygain_album_peak == self.replaygain_album_peak,
            r.channels is None,
            r.bits_per_sample is None,
            r.encoder is None,
            r.format == AudioFormat::Unknown,
    {
        let mut m = AudioMeta::default();
        m.title = clone_opt(&self.title);
        m.artist = clone_opt(&self.artist);
        m.album = clone_opt(&self.album);
        m.album_artist = clone_opt(&self.album_artist);
        m.genre = clone_opt(&self.genre);
        m.year = self.year;
        m.track = self.track_number;
        m.disc = self.disc_number;
        m.date = clone_opt(&self.date);
        m.composer = clone_opt(&self.composer);
        m.comment = clone_opt(&self.comment);
        m.lyrics = clone_opt(&self.lyrics);
        m.copyright = clone_opt(&self.copyright);
        m.compilation = self.compilation;
        m.artist_sort = clone_opt(&self.artist_sort);
        m.album_artist_sort = clone_opt(&self.album_artist_sort);
        m.album_sort = clone_opt(&self.album_sort);
        m.title_sort = clone_opt(&self.title_sort);
        m.mb_recording_id = clone_opt(&self.mb_recording_id);
        m.mb_album_id = clone_opt(&self.mb_album_id);
        m.mb_artist_id = clone_opt(&self.mb_artist_id);
        m.replaygain_track_gain = self.replaygain_track_gain;
        m.replaygain_track_peak = self.replaygain_track_peak;
        m.replaygain_album_gain = self.replaygain_album_gain;
        m.replaygain_album_peak = self.replaygain_album_peak;
        m
    }

    /// Whether the request also carries enrichment (label, album type or cover).
    pub fn has_enrichment(&self) -> (r: bool)
        ensures
            r == (self.label is Some || self.album_type is Some || self.cover_url is Some),
    {
        self.label.is_some() || self.album_type.is_some() || self.cover_url.is_some()
    }
}

impl ImportEntry {
    /// The metadata to store for this entry.
    pub fn to_audio_meta(&self) -> (r: AudioMeta)
        ensures
            r == entry_meta_spec(*self),
            r.title == self.title,
            r.artist == self.artist,
            r.album == self.album,
            r.album_artist == self.album_artist,
            r.genre == self.genre,
            r.year == self.year,
            r.track == self.track,
            r.disc == self.disc,
            r.duration_ms is None,
            r.bitrate is None,
            r.sample_rate is None,
            r.track_total is None,
            r.disc_total is None,
            r.date == self.date,
            r.composer == self.composer,
            r.comment == self.comment,
            r.lyrics is None,
            r.copyright is None,
            r.compilation is None,
            r.artist_sort is None,
            r.album_artist_sort is None,
            r.album_sort is None,
            r.title_sort is None,
            r.mb_recording_id is None,
            r.mb_album_id is None,
            r.mb_artist_id is None,
            r.mb_album_artist_id is None,
            r.mb_release_group_id is None,
            r.replaygain_track_gain is None,
            r.replaygain_track_peak is None,
            r.replaygain_album_gain is None,
            r.replaygain_album_peak is None,
            r.channels is None,
            r.bits_per_sample is None,
            r.encoder is None,
            r.format == AudioFormat::Unknown,
    {
        let mut m = AudioMeta::default();
        m.title = clone_opt(&self.title);
        m.artist = clone_opt(&self.artist);
        m.album = clone_opt(&self.album);
        m.album_artist = clone_opt(&self.album_artist);
        m.genre = clone_opt(&self.genre);
        m.year = self.year;
        m.track = self.track;
        m.disc = self.disc;
        m.date = clone_opt(&self.date);
        m.composer = clone_opt(&self.composer);
        m.comment = clone_opt(&self.comment);
        m
    }
}

/// A request naming a file by id must name a positive one.
pub fn check_file_id(file_id: i64) -> (r: Result<FileId, ServiceError>)
    ensures
        file_id > 0 ==> r == Ok::<FileId, ServiceError>(FileId(file_id)),
        file_id <= 0 ==> (r matches Err(ServiceError::InvalidArgument(m)) && m@ == "file_id must be positive"@),
{
    if file_id <= 0 {
        let m = "file_id must be positive".to_owned();
        return Err(ServiceError::InvalidArgument(m));
    }
    Ok(FileId(file_id))
}

/// The answer to an update or clear: success, or the store's error text.
pub fn update_result(file_id: i64, outcome: Result<(), String>) -> (r: UpdateResult)
    ensures
        r.file_id == file_id,
        r.success == (outcome is Ok),
        match outcome {
            Ok(_) => r.error_message is None,
            Err(e) => r.error_message == Some(e),
        },
{
    match outcome {
        Ok(()) => UpdateResult { file_id, success: true, error_message: None },
        Err(e) => UpdateResult { file_id, success: false, error_message: Some(e) },
    }
}

/// What a lookup of a file by path gave.
#[derive(Debug, Clone)]
pub enum Lookup {
    Found(FileId),
    Missing,
    Failed(String),
}

/// The lookup behind a metadata read: an empty path is refused; a store error is internal;
/// a missing file is not found.
pub fn check_lookup(virtual_path: &str, lookup: Lookup) -> (r: Result<FileId, ServiceError>)
    ensures
        virtual_path@.len() == 0 ==> (r matches Err(ServiceError::InvalidArgument(m)) && m@ == "virtual_path cannot be empty"@),
        virtual_path@.len() > 0 ==> match lookup {
            Lookup::Found(id) => r == Ok::<FileId, ServiceError>(id),
            Lookup::Missing => r matches Err(ServiceError::NotFound(m)) && m@ == "File not found: "@ + virtual_path@,
            Lookup::Failed(e) => r matches Err(ServiceError::Internal(m)) && m@ == "Database error: "@ + e@,
        },
{
    if crate::text::to_chars(virtual_path).len() == 0 {
        let m = "virtual_path cannot be empty".to_owned();
        return Err(ServiceError::InvalidArgument(m));
    }
    match lookup {
        Lookup::Found(id) => Ok(id),
        Lookup::Missing => Err(ServiceError::NotFound(text("File not found: ", virtual_path))),
        Lookup::Failed(e) => Err(ServiceError::Internal(text("Database error: ", e.as_str()))),
    }
}

/// The format of an import file: as given, else by the path's `.csv` or `.json` ending, else
/// `unknown`.
pub fn import_format(format: &Option<String>, source_path: &str) -> (r: String)
    ensures
        r@ == match format {
            Some(f) => f@,
            None => if seq_ends_with(source_path@, ".csv"@) {
                "csv"@
            } else if seq_ends_with(source_path@, ".json"@) {
                "json"@
            } else {
                "unknown"@
            },
        },
{
    match format {
        Some(f) => f.clone(),
        None => {
            let p = crate::text::to_chars(source_path);
            if ends_with(&p, ".csv") {
                "csv".to_owned()
            } else if ends_with(&p, ".json") {
                "json".to_owned()
            } else {
                "unknown".to_owned()
            }
        },
    }
}

/// Whether `s` ends with `suf`.
pub open spec fn seq_ends_with(s: Seq<char>, suf: Seq<char>) -> bool {
    suf.len() <= s.len() && s.subrange(s.len() - suf.len(), s.len() as int) == suf
}

fn ends_with(s: &Vec<char>, lit: &str) -> (r: bool)
    ensures
        r == seq_ends_with(s@, lit@),
{
    let suf = crate::text::to_chars(lit);
    if suf.len() > s.len() {
        return false;
    }
    let start = s.len() - suf.len();
    let mut i: usize = 0;
    while i < suf.len()
        invariant
            start + suf@.len() == s@.len(),
            start + suf.len() == s.len(),
            i <= suf@.len(),
            suf@ == lit@,
            forall|j: int| 0 <= j < i ==> s@[start + j] == suf@[j],
        decreases suf@.len() - i,
    {
        if s[start + i] != suf[i] {
            proof {
                assert(s@.subrange(start as int, s@.len() as int)[i as int] != suf@[i as int]);
            }
            return false;
        }
        i = i + 1;
    }
    proof {
        assert(s@.subrange(start as int, s@.len() as int) =~= suf@);
    }
    true
}

/// Why an import could not start once the request was accepted.
#[derive(Debug, Clone)]
pub enum ImportFailure {
    Read(String),
    Json(String),
    Csv(String),
    Unsupported(String),
}

/// The one report of an import that could not start: nothing imported, nothing counted.
pub fn import_failure(f: &ImportFailure) -> (r: ImportProgress)
    ensures
        r.imported == 0,
        r.total == 0,
        r.current_file is None,
        r.error_message matches Some(m) && m@ == match *f {
            ImportFailure::Read(e) => "Failed to read file: "@ + e@,
            ImportFailure::Json(e) => "Failed to parse JSON: "@ + e@,
            ImportFailure::Csv(e) => "Failed to parse CSV: "@ + e@,
            ImportFailure::Unsupported(e) => "Unsupported format: "@ + e@,
        },
{
    let m = match f {
        ImportFailure::Read(e) => text("Failed to read file: ", e.as_str()),
        ImportFailure::Json(e) => text("Failed to parse JSON: ", e.as_str()),
        ImportFailure::Csv(e) => text("Failed to parse CSV: ", e.as_str()),
        ImportFailure::Unsupported(e) => text("Unsupported format: ", e.as_str()),
    };
    ImportProgress { imported: 0, total: 0, current_file: None, error_message: Some(m) }
}

/// The running count of an import.
#[derive(Debug, Clone, Copy)]
pub struct ImportRun {
    pub imported: u32,
    pub total: u32,
}

/// The request of an import must name a file.
pub fn check_import_source(source_path: &str) -> (r: Result<(), ServiceError>)
    ensures
        source_path@.len() > 0 ==> r is Ok,
        source_path@.len() == 0 ==> (r matches Err(ServiceError::InvalidArgument(m)) && m@ == "source_path cannot be empty"@),
{
    if crate::text::to_chars(source_path).len() == 0 {
        let m = "source_path cannot be empty".to_owned();
        return Err(ServiceError::InvalidArgument(m));
    }
    Ok(())
}

impl ImportRun {
    /// An import of `total` entries, none imported yet.
    pub fn new(total: u32) -> (r: Self)
        ensures
            r.imported == 0,
            r.total == total,
    {
        ImportRun { imported: 0, total }
    }

    /// The report for an entry whose file could not be found, or whose lookup failed; the
    /// count does not change.
    pub fn on_lookup(&self, path: &str, lookup: &Lookup) -> (r: Option<ImportProgress>)
        ensures
            lookup is Found <==> r is None,
            r matches Some(p) ==> (p.imported == self.imported && p.total == self.total && (p.current_file matches Some(c)
                && c@ == path@) && (p.error_message matches Some(m) && m@ == match *lookup {
                Lookup::Failed(e) => "Database error: "@ + e@,
                _ => "File not found: "@ + path@,
            })),
    {
        match lookup {
            Lookup::Found(_) => None,
            Lookup::Missing => Some(
                ImportProgress {
                    imported: self.imported,
                    total: self.total,
                    current_file: Some(path.to_owned()),
                    error_message: Some(text("File not found: ", path)),
                },
            ),
            Lookup::Failed(e) => Some(
                ImportProgress {
                    imported: self.imported,
                    total: self.total,
                    current_file: Some(path.to_owned()),
                    error_message: Some(text("Database error: ", e.as_str())),
                },
            ),
        }
    }

    /// The report after an entry's update: a success counts one more import.
    pub fn on_update(&mut self, path: &str, outcome: Result<(), String>) -> (r: ImportProgress)
        requires
            old(self).imported < u32::MAX,
        ensures
            final(self).total == old(self).total,
            final(self).imported == old(self).imported + if outcome is Ok { 1int } else { 0int },
            r.imported == final(self).imported,
            r.total == old(self).total,
            r.current_file matches Some(c) && c@ == path@,
            match outcome {
                Ok(_) => r.error_message is None,
                Err(e) => r.error_message == Some(e),
            },
    {
        let error_message = match outcome {
            Ok(()) => {
                self.imported = self.imported + 1;
                None
            },
            Err(e) => Some(e),
        };
        ImportProgress { imported: self.imported, total: self.total, current_file: Some(path.to_owned()), error_message }
    }
}

/// What became of one item of a batch update.
#[derive(Debug, Clone)]
pub enum BatchOutcome {
    Updated,
    MissingMetadata,
    Failed(String),
}

/// The report of item `index` (from 0) of a batch of `total`.
pub fn batch_progress(index: u32, total: u32, file_id: i64, outcome: BatchOutcome) -> (r: BatchUpdateProgress)
    requires
        index < u32::MAX,
    ensures
        r.completed == index + 1,
        r.total == total,
        r.current_file_id == Some(file_id),
        match outcome {
            BatchOutcome::Updated => r.error_message is None,
            BatchOutcome::MissingMetadata => r.error_message matches Some(m) && m@ == "Missing metadata in batch item"@,
            BatchOutcome::Failed(e) => r.error_message == Some(e),
        },
{
    let error_message = match outcome {
        BatchOutcome::Updated => None,
        BatchOutcome::MissingMetadata => Some("Missing metadata in batch item".to_owned()),
        BatchOutcome::Failed(e) => Some(e),
    };
    BatchUpdateProgress { completed: index + 1, total, current_file_id: Some(file_id), error_message }
}

/// The name of a format as its debug text reads.
pub open spec fn format_name_spec(f: AudioFormat) -> Seq<char> {
    match f {
        AudioFormat::Flac => "Flac"@,
        AudioFormat::Mp3 => "Mp3"@,
        AudioFormat::Opus => "Opus"@,
        AudioFormat::Vorbis => "Vorbis"@,
        AudioFormat::Aac => "Aac"@,
        AudioFormat::Alac => "Alac"@,
        AudioFormat::Wav => "Wav"@,
        AudioFormat::Unknown => "Unknown"@,
    }
}

/// The name of a format as reported to clients.
pub fn format_name(f: AudioFormat) -> (r: String)
    ensures
        r@ == format_name_spec(f),
{
    match f {
        AudioFormat::Flac => "Flac".to_owned(),
        AudioFormat::Mp3 => "Mp3".to_owned(),
        AudioFormat::Opus => "Opus".to_owned(),
        AudioFormat::Vorbis => "Vorbis".to_owned(),
        AudioFormat::Aac => "Aac".to_owned(),
        AudioFormat::Alac => "Alac".to_owned(),
        AudioFormat::Wav => "Wav".to_owned(),
        AudioFormat::Unknown => "Unknown".to_owned(),
    }
}

} // verus!

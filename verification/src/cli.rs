//! The logic of the command-line client: the paths it gives scanned files, the requests it
//! builds for metadata edits, the field lookups it prints, and the summaries it reports. The
//! argument parsing, the connection and the printing are done by the caller.
use vstd::prelude::*;

use crate::cas::path_join;
use crate::fixed::{format_int, format_short, int_text, short_text};
use crate::numtext::{decimal, push_decimal, u32_to_string};
use crate::pathutil::{path_file_name, std_path_file_name};
use crate::service::{ImportProgress, MetadataUpdate, UpdateResult};
use crate::text::{append_str, chars_eq, push_char, to_chars};
use crate::tree::VirtualTree;
use crate::tree_model::{mkdir_spec, TreeModel};
use crate::types::{AudioMeta, FileId, VirtualPath};

verus! {

/// The subcommands of `metadata`.
#[derive(Debug, Clone)]
pub enum MetadataCommand {
    Get { path: String, field: Option<String> },
    SetFields {
        path: String,
        title: Option<String>,
        artist: Option<String>,
        album: Option<String>,
        album_artist: Option<String>,
        track: Option<u32>,
        disc: Option<u32>,
        genre: Option<String>,
        date: Option<String>,
        composer: Option<String>,
        comment: Option<String>,
        json: Option<String>,
    },
    Clear { path: String },
    Diff { path: String },
    Import { file: String, format: Option<String> },
    Export { output: String, query: Option<String>, format: Option<String> },
}

/// Metadata as the client prints and reads it. ReplayGain values are in millionths.
#[derive(Debug, Clone, Default)]
pub struct MetadataFields {
    pub file_id: Option<i64>,
    pub title: Option<String>,
    pub artist: Option<String>,
    pub album: Option<String>,
    pub album_artist: Option<String>,
    pub year: Option<u32>,
    pub track: Option<u32>,
    pub disc: Option<u32>,
    pub genre: Option<String>,
    pub format: Option<String>,
    pub duration_ms: Option<u64>,
    pub bitrate: Option<u64>,
    pub track_total: Option<u32>,
    pub disc_total: Option<u32>,
    pub date: Option<String>,
    pub composer: Option<String>,
    pub comment: Option<String>,
    pub lyrics: Option<String>,
    pub copyright: Option<String>,
    pub compilation: Option<bool>,
    pub artist_sort: Option<String>,
    pub album_artist_sort: Option<String>,
    pub album_sort: Option<String>,
    pub title_sort: Option<String>,
    pub mb_recording_id: Option<String>,
    pub mb_album_id: Option<String>,
    pub mb_artist_id: Option<String>,
    pub mb_album_artist_id: Option<String>,
    pub mb_release_group_id: Option<String>,
    pub replaygain_track_gain: Option<i64>,
    pub replaygain_track_peak: Option<i64>,
    pub replaygain_album_gain: Option<i64>,
    pub replaygain_album_peak: Option<i64>,
    pub channels: Option<u32>,
    pub bits_per_sample: Option<u32>,
    pub encoder: Option<String>,
    pub custom_tags: Vec<(String, String)>,
}

/// The characters that a path component may not hold, each replaced by `_`.
pub open spec fn unsafe_char(c: char) -> bool {
    c == '/' || c == '\\' || c == ':' || c == '*' || c == '?' || c == '"' || c == '<' || c == '>' || c == '|'
}

/// The text with every unsafe character replaced by `_`.
pub open spec fn sanitized(s: Seq<char>) -> Seq<char> {
    s.map_values(|c: char| if unsafe_char(c) { '_' } else { c })
}

/// A sanitized text holds no unsafe character (in particular no `/`, `\` or `:`), and is
/// as long as the text it came from.
pub proof fn law_sanitized_is_safe(s: Seq<char>)
    ensures
        sanitized(s).len() == s.len(),
        forall|i: int| 0 <= i < s.len() ==> !unsafe_char(#[trigger] sanitized(s)[i]),
{
    assert forall|i: int| 0 <= i < s.len() implies !unsafe_char(#[trigger] sanitized(s)[i]) by {
        assert(sanitized(s)[i] == (if unsafe_char(s[i]) { '_' } else { s[i] }));
    }
}

/// Sanitizing changes only the characters a path component may not hold: the result is as
/// long as the text, and at each position it has `_` where the text has one of
/// `/ \ : * ? " < > |`, and the text's own character everywhere else.
pub proof fn law_sanitize_changes_only_unsafe(s: Seq<char>)
    ensures
        sanitized(s).len() == s.len(),
        forall|i: int| 0 <= i < s.len() && !(s[i] == '/' || s[i] == '\\' || s[i] == ':' || s[i] == '*' || s[i] == '?' || s[i] == '"' || s[i] == '<' || s[i] == '>' || s[i] == '|') ==> #[trigger] sanitized(s)[i] == s[i],
        forall|i: int| 0 <= i < s.len() && (s[i] == '/' || s[i] == '\\' || s[i] == ':' || s[i] == '*' || s[i] == '?' || s[i] == '"' || s[i] == '<' || s[i] == '>' || s[i] == '|') ==> #[trigger] sanitized(s)[i] == '_',
{
}

/// The text made safe as a path component: `_` in place of each of `/ \ : * ? " < > |`,
/// every other character kept.
pub fn sanitize(s: &str) -> (r: String)
    ensures
        r@ == sanitized(s@),
        r@.len() == s@.len(),
        forall|i: int| 0 <= i < s@.len() && !(s@[i] == '/' || s@[i] == '\\' || s@[i] == ':' || s@[i] == '*' || s@[i] == '?' || s@[i] == '"' || s@[i] == '<' || s@[i] == '>' || s@[i] == '|') ==> #[trigger] r@[i] == s@[i],
        forall|i: int| 0 <= i < s@.len() && (s@[i] == '/' || s@[i] == '\\' || s@[i] == ':' || s@[i] == '*' || s@[i] == '?' || s@[i] == '"' || s@[i] == '<' || s@[i] == '>' || s@[i] == '|') ==> #[trigger] r@[i] == '_',
{
    let cs = to_chars(s);
    let mut out = String::new();
    let mut i: usize = 0;
    while i < cs.len()
        invariant
            i <= cs@.len(),
            cs@ == s@,
            out@ == sanitized(cs@.subrange(0, i as int)),
        decreases cs@.len() - i,
    {
        let c = cs[i];
        let d = if c == '/' || c == '\\' || c == ':' || c == '*' || c == '?' || c == '"' || c == '<' || c == '>' || c == '|' {
            '_'
        } else {
            c
        };
        push_char(&mut out, d);
        proof {
            assert(sanitized(cs@.subrange(0, i + 1)) =~= sanitized(cs@.subrange(0, i as int)).push(d));
        }
        i = i + 1;
    }
    proof {
        assert(cs@.subrange(0, cs@.len() as int) =~= cs@);
        law_sanitize_changes_only_unsafe(s@);
    }
    out
}

/// The text of an optional field, or a default.
pub open spec fn text_or(v: Option<String>, d: Seq<char>) -> Seq<char> {
    match v {
        Some(s) => s@,
        None => d,
    }
}

/// The virtual path of a file found by a local scan: with metadata,
/// `/artist/album/file name` with artist and album made safe (defaults `Unknown Artist`,
/// `Unknown Album`, `track`); without, `/Unknown Artist/Unknown Album/file name` (default
/// `unknown`).
pub open spec fn built_path(path: Seq<char>, audio: Option<AudioMeta>) -> Seq<char> {
    match audio {
        Some(m) => "/"@ + sanitized(text_or(m.artist, "Unknown Artist"@)) + "/"@ + sanitized(text_or(m.album, "Unknown Album"@))
            + "/"@ + match std_path_file_name(path) {
            Some(n) => n,
            None => "track"@,
        },
        None => "/Unknown Artist/Unknown Album/"@ + match std_path_file_name(path) {
            Some(n) => n,
            None => "unknown"@,
        },
    }
}

/// A file with metadata gets the path `/A/B/F`: `A` is the artist (or `Unknown Artist`) and
/// `B` the album (or `Unknown Album`), each with `_` in place of every one of
/// `/ \\ : * ? " < > |` and every other character kept, so that neither holds a path
/// separator or another unsafe character; `F` is the file's name (or `track`).
pub proof fn law_built_path_with_meta(path: Seq<char>, m: AudioMeta)
    ensures
        ({
            let at = match m.artist {
                Some(x) => x@,
                None => "Unknown Artist"@,
            };
            let bt = match m.album {
                Some(x) => x@,
                None => "Unknown Album"@,
            };
            let f = match std_path_file_name(path) {
                Some(n) => n,
                None => "track"@,
            };
            exists|a: Seq<char>, b: Seq<char>|
                #![trigger a.len(), b.len()]
                built_path(path, Some(m)) == "/"@ + a + "/"@ + b + "/"@ + f && a.len() == at.len() && b.len() == bt.len()
                    && (forall|i: int| 0 <= i < a.len() ==> #[trigger] a[i] == (if (at[i] == '/' || at[i] == '\\' || at[i] == ':' || at[i] == '*' || at[i] == '?' || at[i] == '"' || at[i] == '<' || at[i] == '>' || at[i] == '|') { '_' } else { at[i] }))
                    && (forall|i: int| 0 <= i < b.len() ==> #[trigger] b[i] == (if (bt[i] == '/' || bt[i] == '\\' || bt[i] == ':' || bt[i] == '*' || bt[i] == '?' || bt[i] == '"' || bt[i] == '<' || bt[i] == '>' || bt[i] == '|') { '_' } else { bt[i] }))
                    && (forall|i: int| 0 <= i < a.len() ==> !(#[trigger] a[i] == '/' || a[i] == '\\' || a[i] == ':' || a[i] == '*' || a[i] == '?' || a[i] == '"' || a[i] == '<' || a[i] == '>' || a[i] == '|'))
                    && (forall|i: int| 0 <= i < b.len() ==> !(#[trigger] b[i] == '/' || b[i] == '\\' || b[i] == ':' || b[i] == '*' || b[i] == '?' || b[i] == '"' || b[i] == '<' || b[i] == '>' || b[i] == '|'))
        }),
{
    let at = text_or(m.artist, "Unknown Artist"@);
    let bt = text_or(m.album, "Unknown Album"@);
    law_sanitize_changes_only_unsafe(at);
    law_sanitize_changes_only_unsafe(bt);
    law_sanitized_is_safe(at);
    law_sanitized_is_safe(bt);
    let a = sanitized(at);
    let b = sanitized(bt);
    let f = match std_path_file_name(path) {
        Some(n) => n,
        None => "track"@,
    };
    assert(built_path(path, Some(m)) == "/"@ + a + "/"@ + b + "/"@ + f);
    assert(a.len() == at.len() && b.len() == bt.len());
    assert forall|i: int| 0 <= i < a.len() implies #[trigger] a[i] == (if (at[i] == '/' || at[i] == '\\' || at[i] == ':' || at[i] == '*' || at[i] == '?' || at[i] == '"' || at[i] == '<' || at[i] == '>' || at[i] == '|') { '_' } else { at[i] }) by {
        assert(a[i] == (if unsafe_char(at[i]) { '_' } else { at[i] }));
    }
    assert forall|i: int| 0 <= i < b.len() implies #[trigger] b[i] == (if (bt[i] == '/' || bt[i] == '\\' || bt[i] == ':' || bt[i] == '*' || bt[i] == '?' || bt[i] == '"' || bt[i] == '<' || bt[i] == '>' || bt[i] == '|') { '_' } else { bt[i] }) by {
        assert(b[i] == (if unsafe_char(bt[i]) { '_' } else { bt[i] }));
    }
    assert forall|i: int| 0 <= i < a.len() implies !(#[trigger] a[i] == '/' || a[i] == '\\' || a[i] == ':' || a[i] == '*' || a[i] == '?' || a[i] == '"' || a[i] == '<' || a[i] == '>' || a[i] == '|') by {
        assert(!unsafe_char(a[i]));
    }
    assert forall|i: int| 0 <= i < b.len() implies !(#[trigger] b[i] == '/' || b[i] == '\\' || b[i] == ':' || b[i] == '*' || b[i] == '?' || b[i] == '"' || b[i] == '<' || b[i] == '>' || b[i] == '|') by {
        assert(!unsafe_char(b[i]));
    }
}

/// The virtual path of a file found by a local scan.
pub fn build_virtual_path(path: &str, audio: Option<&AudioMeta>) -> (r: VirtualPath)
    ensures
        r@ == built_path(path@, match audio {
            Some(m) => Some(*m),
            None => None,
        }),
        audio matches Some(m) ==> ({
            let at = match m.artist {
                Some(x) => x@,
                None => "Unknown Artist"@,
            };
            let bt = match m.album {
                Some(x) => x@,
                None => "Unknown Album"@,
            };
            let f = match std_path_file_name(path@) {
                Some(n) => n,
                None => "track"@,
            };
            exists|a: Seq<char>, b: Seq<char>|
                #![trigger a.len(), b.len()]
                r@ == "/"@ + a + "/"@ + b + "/"@ + f && a.len() == at.len() && b.len() == bt.len()
                    && (forall|i: int| 0 <= i < a.len() ==> #[trigger] a[i] == (if (at[i] == '/' || at[i] == '\\' || at[i] == ':' || at[i] == '*' || at[i] == '?' || at[i] == '"' || at[i] == '<' || at[i] == '>' || at[i] == '|') { '_' } else { at[i] }))
                    && (forall|i: int| 0 <= i < b.len() ==> #[trigger] b[i] == (if (bt[i] == '/' || bt[i] == '\\' || bt[i] == ':' || bt[i] == '*' || bt[i] == '?' || bt[i] == '"' || bt[i] == '<' || bt[i] == '>' || bt[i] == '|') { '_' } else { bt[i] }))
                    && (forall|i: int| 0 <= i < a.len() ==> !(#[trigger] a[i] == '/' || a[i] == '\\' || a[i] == ':' || a[i] == '*' || a[i] == '?' || a[i] == '"' || a[i] == '<' || a[i] == '>' || a[i] == '|'))
                    && (forall|i: int| 0 <= i < b.len() ==> !(#[trigger] b[i] == '/' || b[i] == '\\' || b[i] == ':' || b[i] == '*' || b[i] == '?' || b[i] == '"' || b[i] == '<' || b[i] == '>' || b[i] == '|'))
        }),
{
    proof {
        match audio {
            Some(m) => law_built_path_with_meta(path@, *m),
            None => {},
        }
    }
    let name = path_file_name(path);
    match audio {
        Some(meta) => {
            let mut s = "/".to_owned();
            let artist = match &meta.artist {
                Some(a) => sanitize(a.as_str()),
                None => sanitize("Unknown Artist"),
            };
            append_str(&mut s, artist.as_str());
            append_str(&mut s, "/");
            let album = match &meta.album {
                Some(a) => sanitize(a.as_str()),
                None => sanitize("Unknown Album"),
            };
            append_str(&mut s, album.as_str());
            append_str(&mut s, "/");
            match name {
                Some(n) => append_str(&mut s, n.as_str()),
                None => append_str(&mut s, "track"),
            }
            VirtualPath(s)
        },
        None => {
            let mut s = "/Unknown Artist/Unknown Album/".to_owned();
            match name {
                Some(n) => append_str(&mut s, n.as_str()),
                None => append_str(&mut s, "unknown"),
            }
            VirtualPath(s)
        },
    }
}

/// Whether the file at `path` is an audio file, by its extension.
pub fn is_audio_file(path: &str) -> (r: bool)
    ensures
        r == crate::watcher::audio_path(path@),
{
    crate::watcher::is_audio_file(path)
}

/// The path under which a scanned file is stored: its path relative to the scan root, put
/// under `/` (a path that is already absolute stays as it is).
pub fn db_real_path(relative: &str) -> (r: String)
    ensures
        r@ == if relative@.len() > 0 && relative@[0] == '/' {
            relative@
        } else {
            path_join("/"@, relative@)
        },
{
    let cs = to_chars(relative);
    if cs.len() > 0 && cs[0] == '/' {
        return relative.to_owned();
    }
    let mut s = "/".to_owned();
    proof {
        reveal_strlit("/");
    }
    append_str(&mut s, relative);
    s
}

/// The id of a scanned file: the one the database gave, or the running count where storing
/// it failed.
pub fn scan_file_id(stored: &Result<FileId, String>, counter: i64) -> (r: FileId)
    ensures
        r == match stored {
            Ok(id) => *id,
            Err(_) => FileId(counter),
        },
{
    match stored {
        Ok(id) => *id,
        Err(_) => FileId(counter),
    }
}

/// The tree once each remembered directory that it lacks is created, in order.
pub open spec fn restored(m: TreeModel, dirs: Seq<Seq<char>>) -> TreeModel
    decreases dirs.len(),
{
    if dirs.len() == 0 {
        m
    } else {
        mkdir_spec(restored(m, dirs.drop_last()), dirs.last()).0
    }
}

/// Creates the remembered user directories that the tree lacks; one whose parent is missing
/// is skipped.
pub fn restore_directories(tree: &mut VirtualTree, dirs: &[VirtualPath])
    requires
        old(tree).wf(),
        old(tree).model().next + dirs@.len() < u64::MAX,
    ensures
        final(tree).wf(),
        final(tree).model() == restored(old(tree).model(), dirs@.map_values(|d: VirtualPath| d@)),
        final(tree).policy() == old(tree).policy(),
{
    let ghost m0 = tree.model();
    let ghost ds = dirs@.map_values(|d: VirtualPath| d@);
    let mut i: usize = 0;
    while i < dirs.len()
        invariant
            i <= dirs@.len(),
            ds == dirs@.map_values(|d: VirtualPath| d@),
            tree.wf(),
            tree.policy() == old(tree).policy(),
            tree.model() == restored(m0, ds.subrange(0, i as int)),
            tree.model().next <= m0.next + i,
            m0.next + dirs@.len() < u64::MAX,
        decreases dirs@.len() - i,
    {
        proof {
            assert(ds.subrange(0, i + 1).drop_last() =~= ds.subrange(0, i as int));
            assert(ds.subrange(0, i + 1).last() == dirs@[i as int]@);
        }
        if tree.get_by_path(&dirs[i]).is_none() {
            let _ = tree.mkdir(&dirs[i]);
        } else {
            proof {
                assert(crate::tree_model::pmap(tree.model()).contains_key(dirs@[i as int]@));
            }
        }
        i = i + 1;
    }
    proof {
        assert(ds.subrange(0, dirs@.len() as int) =~= ds);
    }
}

fn clone_opt(s: &Option<String>) -> (r: Option<String>)
    ensures
        r == *s,
{
    match s {
        Some(v) => Some(v.clone()),
        None => None,
    }
}

/// The arguments of `metadata set` that name fields.
#[derive(Debug, Clone, Default)]
pub struct SetArgs {
    pub title: Option<String>,
    pub artist: Option<String>,
    pub album: Option<String>,
    pub album_artist: Option<String>,
    pub track: Option<u32>,
    pub disc: Option<u32>,
    pub genre: Option<String>,
    pub date: Option<String>,
    pub composer: Option<String>,
    pub comment: Option<String>,
}

/// The request of `metadata set`: from the JSON fields where they were given (the year
/// among them), else from the arguments; never with enrichment. The custom tags are given apart.
pub open spec fn set_request_spec(file_id: i64, args: SetArgs, json: Option<MetadataFields>, tags: Vec<(String, String)>) -> MetadataUpdate {
    match json {
        Some(f) => MetadataUpdate {
            file_id,
            title: f.title,
            artist: f.artist,
            album: f.album,
            album_artist: f.album_artist,
            genre: f.genre,
            year: f.year,
            track_number: f.track,
            disc_number: f.disc,
            date: f.date,
            composer: f.composer,
            comment: f.comment,
            lyrics: f.lyrics,
            copyright: f.copyright,
            compilation: f.compilation,
            artist_sort: f.artist_sort,
            album_artist_sort: f.album_artist_sort,
            album_sort: f.album_sort,
            title_sort: f.title_sort,
            mb_recording_id: f.mb_recording_id,
            mb_album_id: f.mb_album_id,
            mb_artist_id: f.mb_artist_id,
            replaygain_track_gain: f.replaygain_track_gain,
            replaygain_track_peak: f.replaygain_track_peak,
            replaygain_album_gain: f.replaygain_album_gain,
            replaygain_album_peak: f.replaygain_album_peak,
            label: None,
            album_type: None,
            cover_url: None,
            custom_tags: tags,
        },
        None => MetadataUpdate {
            file_id,
            title: args.title,
            artist: args.artist,
            album: args.album,
            album_artist: args.album_artist,
            genre: args.genre,
            year: None,
            track_number: args.track,
            disc_number: args.disc,
            date: args.date,
            composer: args.composer,
            comment: args.comment,
            lyrics: None,
            copyright: None,
            compilation: None,
            artist_sort: None,
            album_artist_sort: None,
            album_sort: None,
            title_sort: None,
            mb_recording_id: None,
            mb_album_id: None,
            mb_artist_id: None,
            replaygain_track_gain: None,
            replaygain_track_peak: None,
            replaygain_album_gain: None,
            replaygain_album_peak: None,
            label: None,
            album_type: None,
            cover_url: None,
            custom_tags: tags,
        },
    }
}

/// The update request of `metadata set` for the file with this id.
pub fn set_request(file_id: i64, args: SetArgs, json: Option<MetadataFields>) -> (r: MetadataUpdate)
    ensures
        r == set_request_spec(file_id, args, json, r.custom_tags),
        r.custom_tags@ == match json {
            Some(f) => f.custom_tags@,
            None => Seq::empty(),
        },
{
    match json {
        Some(f) => MetadataUpdate {
            file_id,
            title: f.title,
            artist: f.artist,
            album: f.album,
            album_artist: f.album_artist,
            genre: f.genre,
            year: f.year,
            track_number: f.track,
            disc_number: f.disc,
            date: f.date,
            composer: f.composer,
            comment: f.comment,
            lyrics: f.lyrics,
            copyright: f.copyright,
            compilation: f.compilation,
            artist_sort: f.artist_sort,
            album_artist_sort: f.album_artist_sort,
            album_sort: f.album_sort,
            title_sort: f.title_sort,
            mb_recording_id: f.mb_recording_id,
            mb_album_id: f.mb_album_id,
            mb_artist_id: f.mb_artist_id,
            replaygain_track_gain: f.replaygain_track_gain,
            replaygain_track_peak: f.replaygain_track_peak,
            replaygain_album_gain: f.replaygain_album_gain,
            replaygain_album_peak: f.replaygain_album_peak,
            label: None,
            album_type: None,
            cover_url: None,
            custom_tags: f.custom_tags,
        },
        None => MetadataUpdate {
            file_id,
            title: args.title,
            artist: args.artist,
            album: args.album,
            album_artist: args.album_artist,
            genre: args.genre,
            year: None,
            track_number: args.track,
            disc_number: args.disc,
            date: args.date,
            composer: args.composer,
            comment: args.comment,
            lyrics: None,
            copyright: None,
            compilation: None,
            artist_sort: None,
            album_artist_sort: None,
            album_sort: None,
            title_sort: None,
            mb_recording_id: None,
            mb_album_id: None,
            mb_artist_id: None,
            replaygain_track_gain: None,
            replaygain_track_peak: None,
            replaygain_album_gain: None,
            replaygain_album_peak: None,
            label: None,
            album_type: None,
            cover_url: None,
            custom_tags: Vec::new(),
        },
    }
}

/// The outcome of an update or clear as the client reports it: the success line, or the
/// failure with the server's message (`Unknown error` where it gave none).
pub open spec fn outcome_text(r: UpdateResult, done: Seq<char>, failed: Seq<char>) -> Result<Seq<char>, Seq<char>> {
    if r.success {
        Ok(done + decimal_i64(r.file_id))
    } else {
        Err(failed + match r.error_message {
            Some(m) => m@,
            None => "Unknown error"@,
        })
    }
}

pub open spec fn decimal_i64(v: i64) -> Seq<char> {
    int_text(v)
}

fn outcome(r: &UpdateResult, done: &str, failed: &str) -> (o: Result<String, String>)
    ensures
        match (o, outcome_text(*r, done@, failed@)) {
            (Ok(a), Ok(b)) => a@ == b,
            (Err(a), Err(b)) => a@ == b,
            _ => false,
        },
{
    if r.success {
        let mut s = done.to_owned();
        let n = format_int(r.file_id);
        append_str(&mut s, n.as_str());
        Ok(s)
    } else {
        let mut s = failed.to_owned();
        match &r.error_message {
            Some(m) => append_str(&mut s, m.as_str()),
            None => append_str(&mut s, "Unknown error"),
        }
        Err(s)
    }
}

/// What `metadata set` reports for the server's answer.
pub fn set_outcome(r: &UpdateResult) -> (o: Result<String, String>)
    ensures
        match (o, outcome_text(*r, "Metadata updated for file_id="@, "Failed to update metadata: "@)) {
            (Ok(a), Ok(b)) => a@ == b,
            (Err(a), Err(b)) => a@ == b,
            _ => false,
        },
{
    outcome(r, "Metadata updated for file_id=", "Failed to update metadata: ")
}

/// What `metadata clear` reports for the server's answer.
pub fn clear_outcome(r: &UpdateResult) -> (o: Result<String, String>)
    ensures
        match (o, outcome_text(*r, "Metadata overlay cleared for file_id="@, "Failed to clear overlay: "@)) {
            (Ok(a), Ok(b)) => a@ == b,
            (Err(a), Err(b)) => a@ == b,
            _ => false,
        },
{
    outcome(r, "Metadata overlay cleared for file_id=", "Failed to clear overlay: ")
}

pub open spec fn opt_str(v: Option<String>) -> Option<Seq<char>> {
    match v {
        Some(s) => Some(s@),
        None => None,
    }
}

pub open spec fn opt_u32(v: Option<u32>) -> Option<Seq<char>> {
    match v {
        Some(n) => Some(decimal(n as nat)),
        None => None,
    }
}

pub open spec fn opt_u64(v: Option<u64>) -> Option<Seq<char>> {
    match v {
        Some(n) => Some(decimal(n as nat)),
        None => None,
    }
}

pub open spec fn opt_int(v: Option<i64>) -> Option<Seq<char>> {
    match v {
        Some(n) => Some(int_text(n)),
        None => None,
    }
}

pub open spec fn opt_short(v: Option<i64>) -> Option<Seq<char>> {
    match v {
        Some(n) => Some(short_text(n)),
        None => None,
    }
}

pub open spec fn opt_bool(v: Option<bool>) -> Option<Seq<char>> {
    match v {
        Some(b) => Some(if b { "true"@ } else { "false"@ }),
        None => None,
    }
}

/// The text of the field named `name`, where it is a known field: `Some` of its value's
/// text, or of `None` where the field is absent.
pub open spec fn field_text(f: MetadataFields, name: Seq<char>) -> Option<Option<Seq<char>>> {
    if name == "file_id"@ {
        Some(opt_int(f.file_id))
    } else if name == "title"@ {
        Some(opt_str(f.title))
    } else if name == "artist"@ {
        Some(opt_str(f.artist))
    } else if name == "album"@ {
        Some(opt_str(f.album))
    } else if name == "album_artist"@ {
        Some(opt_str(f.album_artist))
    } else if name == "year"@ {
        Some(opt_u32(f.year))
    } else if name == "track"@ {
        Some(opt_u32(f.track))
    } else if name == "disc"@ {
        Some(opt_u32(f.disc))
    } else if name == "genre"@ {
        Some(opt_str(f.genre))
    } else if name == "format"@ {
        Some(opt_str(f.format))
    } else if name == "duration_ms"@ {
        Some(opt_u64(f.duration_ms))
    } else if name == "bitrate"@ {
        Some(opt_u64(f.bitrate))
    } else if name == "track_total"@ {
        Some(opt_u32(f.track_total))
    } else if name == "disc_total"@ {
        Some(opt_u32(f.disc_total))
    } else if name == "date"@ {
        Some(opt_str(f.date))
    } else if name == "composer"@ {
        Some(opt_str(f.composer))
    } else if name == "comment"@ {
        Some(opt_str(f.comment))
    } else if name == "lyrics"@ {
        Some(opt_str(f.lyrics))
    } else if name == "copyright"@ {
        Some(opt_str(f.copyright))
    } else if name == "compilation"@ {
        Some(opt_bool(f.compilation))
    } else if name == "artist_sort"@ {
        Some(opt_str(f.artist_sort))
    } else if name == "album_artist_sort"@ {
        Some(opt_str(f.album_artist_sort))
    } else if name == "album_sort"@ {
        Some(opt_str(f.album_sort))
    } else if name == "title_sort"@ {
        Some(opt_str(f.title_sort))
    } else if name == "mb_recording_id"@ {
        Some(opt_str(f.mb_recording_id))
    } else if name == "mb_album_id"@ {
        Some(opt_str(f.mb_album_id))
    } else if name == "mb_artist_id"@ {
        Some(opt_str(f.mb_artist_id))
    } else if name == "mb_album_artist_id"@ {
        Some(opt_str(f.mb_album_artist_id))
    } else if name == "mb_release_group_id"@ {
        Some(opt_str(f.mb_release_group_id))
    } else if name == "replaygain_track_gain"@ {
        Some(opt_short(f.replaygain_track_gain))
    } else if name == "replaygain_track_peak"@ {
        Some(opt_short(f.replaygain_track_peak))
    } else if name == "replaygain_album_gain"@ {
        Some(opt_short(f.replaygain_album_gain))
    } else if name == "replaygain_album_peak"@ {
        Some(opt_short(f.replaygain_album_peak))
    } else if name == "channels"@ {
        Some(opt_u32(f.channels))
    } else if name == "bits_per_sample"@ {
        Some(opt_u32(f.bits_per_sample))
    } else if name == "encoder"@ {
        Some(opt_str(f.encoder))
    } else {
        None
    }
}

fn eq_lit(a: &Vec<char>, lit: &str) -> (r: bool)
    ensures
        r == (a@ == lit@),
{
    let b = to_chars(lit);
    chars_eq(a.as_slice(), b.as_slice())
}

fn u64_text(v: u64) -> (r: String)
    ensures
        r@ == decimal(v as nat),
{
    let mut s = String::new();
    push_decimal(&mut s, v);
    proof {
        assert(s@ =~= decimal(v as nat));
    }
    s
}

fn bool_text(b: bool) -> (r: String)
    ensures
        r@ == (if b { "true"@ } else { "false"@ }),
{
    if b {
        "true".to_owned()
    } else {
        "false".to_owned()
    }
}

fn field_text_exec(f: &MetadataFields, name: &str) -> (r: Option<Option<String>>)
    ensures
        match (r, field_text(*f, name@)) {
            (Some(a), Some(b)) => opt_str(a) == b,
            (None, None) => true,
            _ => false,
        },
{
    let cs = to_chars(name);
    if eq_lit(&cs, "file_id") {
        Some(match f.file_id { Some(v) => Some(format_int(v)), None => None })
    } else if eq_lit(&cs, "title") {
        Some(clone_opt(&f.title))
    } else if eq_lit(&cs, "artist") {
        Some(clone_opt(&f.artist))
    } else if eq_lit(&cs, "album") {
        Some(clone_opt(&f.album))
    } else if eq_lit(&cs, "album_artist") {
        Some(clone_opt(&f.album_artist))
    } else if eq_lit(&cs, "year") {
        Some(match f.year { Some(v) => Some(u32_to_string(v)), None => None })
    } else if eq_lit(&cs, "track") {
        Some(match f.track { Some(v) => Some(u32_to_string(v)), None => None })
    } else if eq_lit(&cs, "disc") {
        Some(match f.disc { Some(v) => Some(u32_to_string(v)), None => None })
    } else if eq_lit(&cs, "genre") {
        Some(clone_opt(&f.genre))
    } else if eq_lit(&cs, "format") {
        Some(clone_opt(&f.format))
    } else if eq_lit(&cs, "duration_ms") {
        Some(match f.duration_ms { Some(v) => Some(u64_text(v)), None => None })
    } else if eq_lit(&cs, "bitrate") {
        Some(match f.bitrate { Some(v) => Some(u64_text(v)), None => None })
    } else if eq_lit(&cs, "track_total") {
        Some(match f.track_total { Some(v) => Some(u32_to_string(v)), None => None })
    } else if eq_lit(&cs, "disc_total") {
        Some(match f.disc_total { Some(v) => Some(u32_to_string(v)), None => None })
    } else if eq_lit(&cs, "date") {
        Some(clone_opt(&f.date))
    } else if eq_lit(&cs, "composer") {
        Some(clone_opt(&f.composer))
    } else if eq_lit(&cs, "comment") {
        Some(clone_opt(&f.comment))
    } else if eq_lit(&cs, "lyrics") {
        Some(clone_opt(&f.lyrics))
    } else if eq_lit(&cs, "copyright") {
        Some(clone_opt(&f.copyright))
    } else if eq_lit(&cs, "compilation") {
        Some(match f.compilation { Some(v) => Some(bool_text(v)), None => None })
    } else if eq_lit(&cs, "artist_sort") {
        Some(clone_opt(&f.artist_sort))
    } else if eq_lit(&cs, "album_artist_sort") {
        Some(clone_opt(&f.album_artist_sort))
    } else if eq_lit(&cs, "album_sort") {
        Some(clone_opt(&f.album_sort))
    } else if eq_lit(&cs, "title_sort") {
        Some(clone_opt(&f.title_sort))
    } else if eq_lit(&cs, "mb_recording_id") {
        Some(clone_opt(&f.mb_recording_id))
    } else if eq_lit(&cs, "mb_album_id") {
        Some(clone_opt(&f.mb_album_id))
    } else if eq_lit(&cs, "mb_artist_id") {
        Some(clone_opt(&f.mb_artist_id))
    } else if eq_lit(&cs, "mb_album_artist_id") {
        Some(clone_opt(&f.mb_album_artist_id))
    } else if eq_lit(&cs, "mb_release_group_id") {
        Some(clone_opt(&f.mb_release_group_id))
    } else if eq_lit(&cs, "replaygain_track_gain") {
        Some(match f.replaygain_track_gain { Some(v) => Some(format_short(v)), None => None })
    } else if eq_lit(&cs, "replaygain_track_peak") {
        Some(match f.replaygain_track_peak { Some(v) => Some(format_short(v)), None => None })
    } else if eq_lit(&cs, "replaygain_album_gain") {
        Some(match f.replaygain_album_gain { Some(v) => Some(format_short(v)), None => None })
    } else if eq_lit(&cs, "replaygain_album_peak") {
        Some(match f.replaygain_album_peak { Some(v) => Some(format_short(v)), None => None })
    } else if eq_lit(&cs, "channels") {
        Some(match f.channels { Some(v) => Some(u32_to_string(v)), None => None })
    } else if eq_lit(&cs, "bits_per_sample") {
        Some(match f.bits_per_sample { Some(v) => Some(u32_to_string(v)), None => None })
    } else if eq_lit(&cs, "encoder") {
        Some(clone_opt(&f.encoder))
    } else {
        None
    }
}

/// The value of one field as `metadata get --field` prints it: its text, `null` where it is
/// absent, or an error for a name that is no field.
pub fn get_field_value(fields: &MetadataFields, field_name: &str) -> (r: Result<String, String>)
    ensures
        match field_text(*fields, field_name@) {
            Some(Some(t)) => r matches Ok(s) && s@ == t,
            Some(None) => r matches Ok(s) && s@ == "null"@,
            None => r matches Err(e) && e@ == "Unknown field: "@ + field_name@,
        },
{
    match field_text_exec(fields, field_name) {
        Some(Some(t)) => Ok(t),
        Some(None) => Ok("null".to_owned()),
        None => {
            let mut e = "Unknown field: ".to_owned();
            append_str(&mut e, field_name);
            Err(e)
        },
    }
}

/// The format of an import or export file: as given, else the file's extension in lower case.
pub fn file_format(format: Option<String>, path: &str) -> (r: Option<String>)
    ensures
        match format {
            Some(f) => r == Some(f),
            None => match crate::watcher::std_path_extension(path@) {
                Some(e) => r matches Some(s) && s@ == crate::text::ascii_lower_spec(e),
                None => r is None,
            },
        },
{
    match format {
        Some(f) => Some(f),
        None => match crate::watcher::path_extension(path) {
            Some(e) => {
                let l = crate::text::ascii_lower(e.as_str());
                Some(crate::text::from_chars(l.as_slice()))
            },
            None => None,
        },
    }
}

/// What the client gathers from an import's progress reports.
#[derive(Debug, Clone)]
pub struct ImportTally {
    pub last_imported: u32,
    pub last_total: u32,
    pub errors: Vec<String>,
}

/// The line of an error report: the file (`unknown` where none is named) and the message.
pub open spec fn error_line(current: Option<String>, err: Seq<char>) -> Seq<char> {
    text_or(current, "unknown"@) + ": "@ + err
}

impl ImportTally {
    pub fn new() -> (r: Self)
        ensures
            r.last_imported == 0,
            r.last_total == 0,
            r.errors@.len() == 0,
    {
        ImportTally { last_imported: 0, last_total: 0, errors: Vec::new() }
    }

    /// Takes in one report: the counts are the latest; an error is kept with its file.
    pub fn on_progress(&mut self, p: &ImportProgress)
        ensures
            final(self).last_imported == p.imported,
            final(self).last_total == p.total,
            match p.error_message {
                Some(e) => final(self).errors@.len() == old(self).errors@.len() + 1 && final(self).errors@.last()@
                    == error_line(p.current_file, e@) && final(self).errors@.drop_last() == old(self).errors@,
                None => final(self).errors@ == old(self).errors@,
            },
    {
        self.last_imported = p.imported;
        self.last_total = p.total;
        if let Some(err) = &p.error_message {
            let mut line = String::new();
            match &p.current_file {
                Some(c) => append_str(&mut line, c.as_str()),
                None => append_str(&mut line, "unknown"),
            }
            append_str(&mut line, ": ");
            append_str(&mut line, err.as_str());
            proof {
                assert(line@ == error_line(p.current_file, err@));
            }
            let ghost before = self.errors@;
            self.errors.push(line);
            proof {
                assert(self.errors@.drop_last() =~= before);
            }
        }
    }

    /// The closing line: `Import complete: imported/total files imported`.
    pub fn summary(&self) -> (r: String)
        ensures
            r@ == "Import complete: "@ + decimal(self.last_imported as nat) + "/"@ + decimal(self.last_total as nat)
                + " files imported"@,
    {
        let mut s = "Import complete: ".to_owned();
        push_decimal(&mut s, self.last_imported as u64);
        append_str(&mut s, "/");
        push_decimal(&mut s, self.last_total as u64);
        append_str(&mut s, " files imported");
        s
    }

    /// The error lines to show: at most the first ten, then how many more there were.
    pub fn error_report(&self) -> (r: Vec<String>)
        ensures
            self.errors@.len() == 0 ==> r@.len() == 0,
            self.errors@.len() > 0 ==> r@.len() == 1 + (if self.errors@.len() < 10 { self.errors@.len() as int } else { 10 }) + (
            if self.errors@.len() > 10 { 1int } else { 0int }),
            self.errors@.len() > 0 ==> r@[0]@ == "Errors ("@ + decimal(self.errors@.len()) + "):"@,
            forall|i: int| 0 <= i < self.errors@.len() && i < 10 ==> r@[i + 1]@ == "  - "@ + self.errors@[i]@,
            self.errors@.len() > 10 ==> r@.last()@ == "  ... and "@ + decimal((self.errors@.len() - 10) as nat) + " more"@,
    {
        let mut out: Vec<String> = Vec::new();
        let n = self.errors.len();
        if n == 0 {
            return out;
        }
        let mut head = "Errors (".to_owned();
        push_decimal(&mut head, n as u64);
        append_str(&mut head, "):");
        out.push(head);
        let shown = if n < 10 { n } else { 10 };
        let mut i: usize = 0;
        while i < shown
            invariant
                i <= shown,
                shown <= n,
                n == self.errors@.len(),
                shown == (if n < 10 { n } else { 10 }),
                out@.len() == i + 1,
                out@[0]@ == "Errors ("@ + decimal(n as nat) + "):"@,
                forall|j: int| 0 <= j < i ==> out@[j + 1]@ == "  - "@ + self.errors@[j]@,
            decreases shown - i,
        {
            let mut line = "  - ".to_owned();
            append_str(&mut line, self.errors[i].as_str());
            out.push(line);
            i = i + 1;
        }
        if n > 10 {
            let mut more = "  ... and ".to_owned();
            push_decimal(&mut more, (n - 10) as u64);
            append_str(&mut more, " more");
            out.push(more);
        }
        out
    }
}

} // verus!

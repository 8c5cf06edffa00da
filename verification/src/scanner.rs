//! The bookkeeping of a scan of an origin: where it starts, which files it reports, the
//! virtual path a new file gets, and the progress reports and result. The walk of the
//! directory, the database and the metadata probe are done by the caller.
use vstd::prelude::*;

use crate::cas::path_join;
use crate::cli::{law_sanitize_changes_only_unsafe, law_sanitized_is_safe, sanitize, sanitized, unsafe_char};
use crate::pathutil::{path_file_name, std_path_file_name};
use crate::text::{append_str, to_chars};
use crate::types::{AudioMeta, FileId, VirtualPath};
use crate::watcher::{path_strip_prefix, std_path_strip_prefix};

verus! {

/// The outcome of a scan.
#[derive(Debug, Clone)]
pub struct ScanResult {
    pub new_files: Vec<SyncedFileInfo>,
    pub changed: u32,
    pub deleted: u32,
    pub unchanged: u32,
    pub bytes_synced: u64,
}

/// A file that a scan added to the catalogue.
#[derive(Debug, Clone)]
pub struct SyncedFileInfo {
    pub path: String,
    pub file_id: FileId,
    pub virtual_path: String,
}

/// A progress report of a scan.
#[derive(Debug, Clone)]
pub struct ScanProgress {
    pub phase: String,
    pub current: u32,
    pub total: u32,
    pub current_path: String,
    pub bytes_synced: u64,
}

/// The text of an optional field, or a default.
pub open spec fn or_default(v: Option<String>, d: Seq<char>) -> Seq<char> {
    match v {
        Some(s) => s@,
        None => d,
    }
}

/// The virtual path of a newly found file: `/artist/album/file name`, with `Unknown Artist`,
/// `Unknown Album` and `unknown` where a part is missing. The artist and the album are
/// sanitized: each character that a path component may not hold (`/`, `\`, `:` among them)
/// becomes `_`.
pub open spec fn derived_path(meta: AudioMeta, rel_path: Seq<char>) -> Seq<char> {
    "/"@ + sanitized(or_default(meta.artist, "Unknown Artist"@)) + "/"@ + sanitized(
        or_default(meta.album, "Unknown Album"@),
    ) + "/"@
        + match std_path_file_name(rel_path) {
        Some(n) => n,
        None => "unknown"@,
    }
}

/// A newly found file gets the path `/A/B/F`: `A` is the artist (or `Unknown Artist`) and
/// `B` the album (or `Unknown Album`), each with `_` in place of every one of
/// `/ \\ : * ? " < > |` and every other character kept, so that neither holds a path
/// separator or another unsafe character; `F` is the file's name (or `unknown`).
pub proof fn law_derived_path_components(m: AudioMeta, rel_path: Seq<char>)
    ensures
        ({
            let at = match m.artist {
                Some(x) => x@,
                None => "Unknown Artist"@,
            };
            let bt = match m.album {
                Some(x) => x@,
                None => "Unknown Album"@,
            };
            let f = match std_path_file_name(rel_path) {
                Some(n) => n,
                None => "unknown"@,
            };
            exists|a: Seq<char>, b: Seq<char>|
                #![trigger a.len(), b.len()]
                derived_path(m, rel_path) == "/"@ + a + "/"@ + b + "/"@ + f && a.len() == at.len() && b.len() == bt.len()
                    && (forall|i: int| 0 <= i < a.len() ==> #[trigger] a[i] == (if (at[i] == '/' || at[i] == '\\' || at[i] == ':' || at[i] == '*' || at[i] == '?' || at[i] == '"' || at[i] == '<' || at[i] == '>' || at[i] == '|') { '_' } else { at[i] }))
                    && (forall|i: int| 0 <= i < b.len() ==> #[trigger] b[i] == (if (bt[i] == '/' || bt[i] == '\\' || bt[i] == ':' || bt[i] == '*' || bt[i] == '?' || bt[i] == '"' || bt[i] == '<' || bt[i] == '>' || bt[i] == '|') { '_' } else { bt[i] }))
                    && (forall|i: int| 0 <= i < a.len() ==> !(#[trigger] a[i] == '/' || a[i] == '\\' || a[i] == ':' || a[i] == '*' || a[i] == '?' || a[i] == '"' || a[i] == '<' || a[i] == '>' || a[i] == '|'))
                    && (forall|i: int| 0 <= i < b.len() ==> !(#[trigger] b[i] == '/' || b[i] == '\\' || b[i] == ':' || b[i] == '*' || b[i] == '?' || b[i] == '"' || b[i] == '<' || b[i] == '>' || b[i] == '|'))
        }),
{
    let at = or_default(m.artist, "Unknown Artist"@);
    let bt = or_default(m.album, "Unknown Album"@);
    law_sanitize_changes_only_unsafe(at);
    law_sanitize_changes_only_unsafe(bt);
    law_sanitized_is_safe(at);
    law_sanitized_is_safe(bt);
    let a = sanitized(at);
    let b = sanitized(bt);
    let f = match std_path_file_name(rel_path) {
        Some(n) => n,
        None => "unknown"@,
    };
    assert(derived_path(m, rel_path) == "/"@ + a + "/"@ + b + "/"@ + f);
    assert(a.len() == at.len() && b.len() == bt.len());
    assert forall|i: int| 0 <= i < a.len() implies #[trigger] a[i] == (if (at[i] == '/' || at[i] == '\\' || at[i] == ':' || at[i] == '*' || at[i] == '?' || at[i] == '"' || at[i] == '<' || at[i] == '>' || at[i] == '|') { '_' } else { at[i] }) by {
        assert(a[i] == (if unsafe_char(at[i]) { '_' } else { at[i] }));
    }
    assert forall|i: int| 0 <= i < b.len() implies #[trigger] b[i] == (if (bt[i] == '/' || bt[i] == '\\' || bt[i] == ':' || bt[i] == '*' || bt[i] == '?' || bt[i] == '"' || bt[i] == '<' || bt[i] == '>' || bt[i] == '|') { '_' } else { bt[i] }) by {
        assert(b[i] == (if unsafe_char(bt[i]) { '_' } else { bt[i] }));
    }
    assert forall|i: int| 0 <= i < a.len() implies !(#[trigger] a[i] == '/' || a[i] == '\\' || a[i] == ':' || a[i] == '*' || a[i] == '?' || a[i] == '"' || a[i] == '<' || a[i] == '>' || a[i] == '|') by {
        assert(!unsafe_char(a[i]));
    }
    assert forall|i: int| 0 <= i < b.len() implies !(#[trigger] b[i] == '/' || b[i] == '\\' || b[i] == ':' || b[i] == '*' || b[i] == '?' || b[i] == '"' || b[i] == '<' || b[i] == '>' || b[i] == '|') by {
        assert(!unsafe_char(b[i]));
    }
}

/// The virtual path under which a newly found file is catalogued.
pub fn derive_virtual_path(meta: &AudioMeta, rel_path: &str) -> (r: VirtualPath)
    ensures
        r@ == derived_path(*meta, rel_path@),
        ({
            let at = match meta.artist {
                Some(x) => x@,
                None => "Unknown Artist"@,
            };
            let bt = match meta.album {
                Some(x) => x@,
                None => "Unknown Album"@,
            };
            let f = match std_path_file_name(rel_path@) {
                Some(n) => n,
                None => "unknown"@,
            };
            exists|a: Seq<char>, b: Seq<char>|
                #![trigger a.len(), b.len()]
                r@ == "/"@ + a + "/"@ + b + "/"@ + f && a.len() == at.len() && b.len() == bt.len()
                    && (forall|i: int| 0 <= i < a.len() ==> #[trigger] a[i] == (if (at[i] == '/' || at[i] == '\\' || at[i] == ':' || at[i] == '*' || at[i] == '?' || at[i] == '"' || at[i] == '<' || at[i] == '>' || at[i] == '|') { '_' } else { at[i] }))
                    && (forall|i: int| 0 <= i < b.len() ==> #[trigger] b[i] == (if (bt[i] == '/' || bt[i] == '\\' || bt[i] == ':' || bt[i] == '*' || bt[i] == '?' || bt[i] == '"' || bt[i] == '<' || bt[i] == '>' || bt[i] == '|') { '_' } else { bt[i] }))
                    && (forall|i: int| 0 <= i < a.len() ==> !(#[trigger] a[i] == '/' || a[i] == '\\' || a[i] == ':' || a[i] == '*' || a[i] == '?' || a[i] == '"' || a[i] == '<' || a[i] == '>' || a[i] == '|'))
                    && (forall|i: int| 0 <= i < b.len() ==> !(#[trigger] b[i] == '/' || b[i] == '\\' || b[i] == ':' || b[i] == '*' || b[i] == '?' || b[i] == '"' || b[i] == '<' || b[i] == '>' || b[i] == '|'))
        }),
{
    proof {
        law_derived_path_components(*meta, rel_path@);
    }
    let mut s = "/".to_owned();
    let artist = match &meta.artist {
        Some(a) => sanitize(a.as_str()),
        None => sanitize("Unknown Artist"),
    };
    append_str(&mut s, artist.as_str());
    append_str(&mut s, "/");
    let album = match &meta.album {
        Some(a) => sanitize(a.as_str()),
        None => sanitize("Unknown Album"),
    };
    append_str(&mut s, album.as_str());
    append_str(&mut s, "/");
    match path_file_name(rel_path) {
        Some(n) => append_str(&mut s, n.as_str()),
        None => append_str(&mut s, "unknown"),
    }
    VirtualPath(s)
}

/// Where a scan starts: the origin's root, or a non-empty subdirectory beneath it.
pub fn scan_root(origin_root: &str, subdir: &Option<String>) -> (r: String)
    ensures
        r@ == match subdir {
            Some(sub) => if sub@.len() > 0 {
                path_join(origin_root@, sub@)
            } else {
                origin_root@
            },
            None => origin_root@,
        },
{
    match subdir {
        Some(sub) => {
            let cs = to_chars(sub.as_str());
            if cs.len() > 0 {
                let mut p = to_chars(origin_root);
                if p.len() == 0 || p[p.len() - 1] == '/' {
                    crate::text::extend_chars(&mut p, cs.as_slice());
                } else {
                    p.push('/');
                    crate::text::extend_chars(&mut p, cs.as_slice());
                }
                crate::text::from_chars(p.as_slice())
            } else {
                origin_root.to_owned()
            }
        },
        None => origin_root.to_owned(),
    }
}

/// The refusal of a scan whose starting directory does not exist.
pub fn missing_root_message(root: &str) -> (r: String)
    ensures
        r@ == "scan path does not exist: "@ + root@,
{
    let mut s = "scan path does not exist: ".to_owned();
    append_str(&mut s, root);
    s
}

/// A file's path relative to the origin's root, or the path itself where it is not beneath it.
pub fn relative_path(abs_path: &str, origin_root: &str) -> (r: String)
    ensures
        r@ == match std_path_strip_prefix(abs_path@, origin_root@) {
            Some(rel) => rel,
            None => abs_path@,
        },
{
    match path_strip_prefix(abs_path, origin_root) {
        Some(rel) => rel,
        None => abs_path.to_owned(),
    }
}

fn progress(phase: &str, current: u32, total: u32, path: &str, bytes_synced: u64) -> (r: ScanProgress)
    ensures
        r.phase@ == phase@,
        r.current == current,
        r.total == total,
        r.current_path@ == path@,
        r.bytes_synced == bytes_synced,
{
    ScanProgress { phase: phase.to_owned(), current, total, current_path: path.to_owned(), bytes_synced }
}

/// The report as the walk finds its `count`-th audio file.
pub fn scanning_progress(count: u32, path: &str) -> (r: ScanProgress)
    ensures
        r.phase@ == "scanning"@,
        r.current == count,
        r.total == 0,
        r.current_path@ == path@,
        r.bytes_synced == 0,
{
    progress("scanning", count, 0, path, 0)
}

/// The running state of a scan after the walk.
#[derive(Debug, Clone)]
pub struct ScanRun {
    pub new_files: Vec<SyncedFileInfo>,
    pub unchanged: u32,
    pub bytes_synced: u64,
}

impl ScanRun {
    /// Nothing counted yet.
    pub fn new() -> (r: Self)
        ensures
            r.new_files@.len() == 0,
            r.unchanged == 0,
            r.bytes_synced == 0,
    {
        ScanRun { new_files: Vec::new(), unchanged: 0, bytes_synced: 0 }
    }

    /// The report as file `index` (from 0) of `total` is checked against the catalogue.
    pub fn hashing_progress(&self, index: u32, total: u32, path: &str) -> (r: ScanProgress)
        requires
            index < u32::MAX,
        ensures
            r.phase@ == "hashing"@,
            r.current == index + 1,
            r.total == total,
            r.current_path@ == path@,
            r.bytes_synced == 0,
    {
        progress("hashing", index + 1, total, path, 0)
    }

    /// A file that the catalogue holds already is counted as unchanged; a new one is not.
    pub fn note_known(&mut self, known: bool)
        requires
            old(self).unchanged < u32::MAX,
        ensures
            final(self).unchanged == old(self).unchanged + if known { 1int } else { 0int },
            final(self).new_files@ == old(self).new_files@,
            final(self).bytes_synced == old(self).bytes_synced,
    {
        if known {
            self.unchanged = self.unchanged + 1;
        }
    }

    /// The report as new file `index` (from 0) of `total` is indexed.
    pub fn indexing_progress(&self, index: u32, total: u32, path: &str) -> (r: ScanProgress)
        requires
            index < u32::MAX,
        ensures
            r.phase@ == "indexing"@,
            r.current == index + 1,
            r.total == total,
            r.current_path@ == path@,
            r.bytes_synced == self.bytes_synced,
    {
        progress("indexing", index + 1, total, path, self.bytes_synced)
    }

    /// A new file was catalogued: it is listed and its size counted.
    pub fn note_indexed(&mut self, path: &str, file_id: FileId, virtual_path: &VirtualPath, size: u64)
        requires
            old(self).bytes_synced + size <= u64::MAX,
        ensures
            final(self).bytes_synced == old(self).bytes_synced + size,
            final(self).unchanged == old(self).unchanged,
            final(self).new_files@.len() == old(self).new_files@.len() + 1,
            forall|i: int| 0 <= i < old(self).new_files@.len() ==> #[trigger] final(self).new_files@[i] == old(self).new_files@[i],
            final(self).new_files@.last().path@ == path@,
            final(self).new_files@.last().file_id == file_id,
            final(self).new_files@.last().virtual_path@ == virtual_path@,
    {
        self.new_files.push(SyncedFileInfo { path: path.to_owned(), file_id, virtual_path: virtual_path.0.clone() });
        self.bytes_synced = self.bytes_synced + size;
    }

    /// The result of the scan: the new files, the unchanged count and the bytes; a scan of
    /// this kind reports nothing changed or deleted.
    pub fn finish(self) -> (r: ScanResult)
        ensures
            r.new_files@ == self.new_files@,
            r.changed == 0,
            r.deleted == 0,
            r.unchanged == self.unchanged,
            r.bytes_synced == self.bytes_synced,
    {
        ScanResult { new_files: self.new_files, changed: 0, deleted: 0, unchanged: self.unchanged, bytes_synced: self.bytes_synced }
    }
}

} // verus!

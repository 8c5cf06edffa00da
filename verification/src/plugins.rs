//! Bookkeeping of native plugins: their ids, search paths and loaded files, which files count
//! as plugin libraries, and the API version check. Loading the libraries is left to the caller.
use vstd::prelude::*;

use crate::text::{append_str, chars_eq, to_chars};
use crate::watcher::{path_extension, std_path_extension};

verus! {

/// The id of a loaded plugin.
#[derive(Debug, Clone, Copy, PartialEq, Eq, Hash, Structural)]
pub struct PluginId(pub u64);

impl PluginId {
    pub fn new(n: u64) -> (r: Self)
        ensures
            r.0 == n,
    {
        PluginId(n)
    }
}

/// Why a plugin operation failed.
#[derive(Debug, Clone)]
pub enum PluginError {
    LoadFailed(String),
    AlreadyLoaded(String),
    NotFound(String),
    SymbolNotFound(String),
    VersionMismatch { expected: String, actual: String },
}

/// Hands out plugin ids, counting up from 1 (wrapping as the atomic counter does).
#[derive(Debug)]
pub struct PluginIdCounter {
    next: u64,
}

impl PluginIdCounter {
    pub fn new() -> (r: Self)
        ensures
            r.peek() == 1,
    {
        PluginIdCounter { next: 1 }
    }

    pub closed spec fn peek(&self) -> u64 {
        self.next
    }

    /// The next id.
    pub fn next_plugin_id(&mut self) -> (r: PluginId)
        ensures
            r.0 == old(self).peek(),
            final(self).peek() == (if old(self).peek() == u64::MAX { 0 } else { old(self).peek() + 1 }),
    {
        let id = self.next;
        self.next = if id == u64::MAX { 0 } else { id + 1 };
        PluginId(id)
    }
}

/// The extensions of native libraries.
pub open spec fn library_ext(e: Seq<char>) -> bool {
    e == "so"@ || e == "dylib"@ || e == "dll"@
}

/// Whether the file at `path` is a native library by its extension (case matters).
pub fn is_plugin_library(path: &str) -> (r: bool)
    ensures
        r == match std_path_extension(path@) {
            Some(e) => library_ext(e),
            None => false,
        },
{
    match path_extension(path) {
        None => false,
        Some(e) => {
            let c = to_chars(e.as_str());
            let so = to_chars("so");
            let dylib = to_chars("dylib");
            let dll = to_chars("dll");
            chars_eq(c.as_slice(), so.as_slice()) || chars_eq(c.as_slice(), dylib.as_slice()) || chars_eq(
                c.as_slice(),
                dll.as_slice(),
            )
        },
    }
}

/// The major version that `semver::Version::parse` reads from a text, or `None` where the
/// text is no version.
pub uninterp spec fn semver_major(text: Seq<char>) -> Option<u64>;

/// `semver::Version::parse`, keeping the major version.
#[verifier::external_body]
fn parse_major(text: &str) -> (r: Option<u64>)
    ensures
        r == semver_major(text@),
{
    semver::Version::parse(text).ok().map(|v| v.major)
}

/// The check of a plugin's API version against the host's: the text must be a version with
/// the same major number.
pub fn check_api_version(version: &str, expected: &str, expected_major: u64) -> (r: Result<(), PluginError>)
    ensures
        (semver_major(version@) == Some(expected_major)) <==> r is Ok,
        r matches Err(PluginError::VersionMismatch { expected: e, actual: a }) ==> e@ == expected@ && a@ == version@,
        r is Err ==> r matches Err(PluginError::VersionMismatch { .. }),
{
    match parse_major(version) {
        Some(m) => if m == expected_major {
            Ok(())
        } else {
            Err(PluginError::VersionMismatch { expected: expected.to_owned(), actual: version.to_owned() })
        },
        None => Err(PluginError::VersionMismatch { expected: expected.to_owned(), actual: version.to_owned() }),
    }
}

/// The directories searched for plugins and the files loaded, by id.
#[derive(Debug)]
pub struct NativePluginHost {
    search_paths: Vec<String>,
    loaded: Vec<(PluginId, String)>,
}

/// Whether the list holds the text.
pub open spec fn has_text(s: Seq<Seq<char>>, t: Seq<char>) -> bool {
    exists|i: int| 0 <= i < s.len() && s[i] == t
}

impl NativePluginHost {
    pub fn new() -> (r: Self)
        ensures
            r.paths().len() == 0,
            r.loaded_view().len() == 0,
    {
        NativePluginHost { search_paths: Vec::new(), loaded: Vec::new() }
    }

    /// The search directories, in the order added.
    pub closed spec fn paths(&self) -> Seq<Seq<char>> {
        self.search_paths@.map_values(|p: String| p@)
    }

    /// The loaded files with their ids, in the order loaded.
    pub closed spec fn loaded_view(&self) -> Seq<(PluginId, Seq<char>)> {
        self.loaded@.map_values(|e: (PluginId, String)| (e.0, e.1@))
    }

    /// The search directories.
    pub fn search_paths(&self) -> (r: Vec<String>)
        ensures
            r@.map_values(|p: String| p@) == self.paths(),
    {
        let mut out: Vec<String> = Vec::new();
        let mut i: usize = 0;
        while i < self.search_paths.len()
            invariant
                i <= self.search_paths@.len(),
                out@.map_values(|p: String| p@) == self.paths().subrange(0, i as int),
            decreases self.search_paths@.len() - i,
        {
            let ghost before = out@;
            let c = self.search_paths[i].clone();
            out.push(c);
            proof {
                assert(out@ == before.push(c));
                assert(c@ == self.paths()[i as int]);
                assert(out@.map_values(|p: String| p@) =~= before.map_values(|p: String| p@).push(c@));
                assert(out@.map_values(|p: String| p@) =~= self.paths().subrange(0, i + 1));
            }
            i = i + 1;
        }
        proof {
            assert(self.paths().subrange(0, self.search_paths@.len() as int) =~= self.paths());
        }
        out
    }

    /// Adds a directory to search, unless it is listed already.
    pub fn add_search_path(&mut self, path: &str)
        ensures
            has_text(old(self).paths(), path@) ==> final(self).paths() == old(self).paths(),
            !has_text(old(self).paths(), path@) ==> final(self).paths() == old(self).paths().push(path@),
            final(self).loaded_view() == old(self).loaded_view(),
    {
        let want = to_chars(path);
        let mut i: usize = 0;
        while i < self.search_paths.len()
            invariant
                i <= self.search_paths@.len(),
                want@ == path@,
                forall|j: int| 0 <= j < i ==> self.paths()[j] != path@,
            decreases self.search_paths@.len() - i,
        {
            let have = to_chars(self.search_paths[i].as_str());
            if chars_eq(have.as_slice(), want.as_slice()) {
                proof {
                    assert(self.paths()[i as int] == path@);
                }
                return;
            }
            i = i + 1;
        }
        let ghost before = self.paths();
        self.search_paths.push(path.to_owned());
        proof {
            assert(self.paths() =~= before.push(path@));
        }
    }

    /// A file may be loaded only once: `AlreadyLoaded` with the path where it is loaded.
    pub fn check_not_loaded(&self, canonical: &str) -> (r: Result<(), PluginError>)
        ensures
            (exists|i: int| 0 <= i < self.loaded_view().len() && #[trigger] self.loaded_view()[i].1 == canonical@) <==> r is Err,
            r matches Err(e) ==> (e matches PluginError::AlreadyLoaded(m) && m@ == canonical@),
    {
        let want = to_chars(canonical);
        let mut i: usize = 0;
        while i < self.loaded.len()
            invariant
                i <= self.loaded@.len(),
                want@ == canonical@,
                forall|j: int| 0 <= j < i ==> #[trigger] self.loaded_view()[j].1 != canonical@,
            decreases self.loaded@.len() - i,
        {
            let have = to_chars(self.loaded[i].1.as_str());
            if chars_eq(have.as_slice(), want.as_slice()) {
                proof {
                    assert(self.loaded_view()[i as int].1 == canonical@);
                }
                return Err(PluginError::AlreadyLoaded(canonical.to_owned()));
            }
            i = i + 1;
        }
        Ok(())
    }

    /// Records a loaded file under its id.
    pub fn record_loaded(&mut self, id: PluginId, canonical: &str)
        ensures
            final(self).loaded_view() == old(self).loaded_view().push((id, canonical@)),
            final(self).paths() == old(self).paths(),
    {
        let ghost before = self.loaded_view();
        self.loaded.push((id, canonical.to_owned()));
        proof {
            assert(self.loaded_view() =~= before.push((id, canonical@)));
        }
    }

    /// Forgets the plugin with this id, giving its path; `NotFound` where none has it.
    pub fn unload(&mut self, id: PluginId) -> (r: Result<String, PluginError>)
        ensures
            (exists|i: int| 0 <= i < old(self).loaded_view().len() && #[trigger] old(self).loaded_view()[i].0 == id) <==> r is Ok,
            r is Err ==> final(self).loaded_view() == old(self).loaded_view(),
            match r {
                Ok(p) => exists|i: int|
                    0 <= i < old(self).loaded_view().len() && #[trigger] old(self).loaded_view()[i] == (id, p@)
                        && final(self).loaded_view() == old(self).loaded_view().remove(i),
                Err(e) => e matches PluginError::NotFound(m) && m@ == "Plugin PluginId("@ + crate::numtext::decimal(id.0 as nat)
                    + ")"@,
            },
            final(self).paths() == old(self).paths(),
    {
        let mut i: usize = 0;
        while i < self.loaded.len()
            invariant
                i <= self.loaded@.len(),
                self.loaded_view() == old(self).loaded_view(),
                self.paths() == old(self).paths(),
                forall|j: int| 0 <= j < i ==> #[trigger] self.loaded_view()[j].0 != id,
            decreases self.loaded@.len() - i,
        {
            if self.loaded[i].0 == id {
                let ghost before = self.loaded_view();
                let (_, p) = self.loaded.remove(i);
                proof {
                    assert(self.loaded_view() =~= before.remove(i as int));
                    assert(before[i as int] == (id, p@));
                    assert(old(self).loaded_view()[i as int] == (id, p@));
                    assert(old(self).loaded_view()[i as int].0 == id);
                }
                return Ok(p);
            }
            i = i + 1;
        }
        let mut m = "Plugin PluginId(".to_owned();
        crate::numtext::push_decimal(&mut m, id.0);
        append_str(&mut m, ")");
        Err(PluginError::NotFound(m))
    }
}

} // verus!

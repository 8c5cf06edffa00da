//! Turning file-system notifications under an origin's root into catalogue events, with a
//! short debounce per file.
use vstd::prelude::*;

use crate::events::Event;
use crate::router::{first_val, lemma_first_val_push, lemma_first_val_update};
use crate::text::{append_str, ascii_lower, chars_eq, to_chars};
use crate::types::{OriginId, VirtualPath};

verus! {

/// Two notifications of one file closer than this many milliseconds count as one.
pub const DEBOUNCE_MS: u128 = 200;

/// What `std::path::Path::extension` gives for a path, as text.
pub uninterp spec fn std_path_extension(p: Seq<char>) -> Option<Seq<char>>;

/// What `std::path::Path::strip_prefix` gives for a path and a base, as text.
pub uninterp spec fn std_path_strip_prefix(p: Seq<char>, base: Seq<char>) -> Option<Seq<char>>;

/// `Path::extension` on the text of a path; a `str` path has `str` parts, so the text is exact.
#[verifier::external_body]
pub(crate) fn path_extension(p: &str) -> (r: Option<String>)
    ensures
        match r {
            Some(s) => std_path_extension(p@) == Some(s@),
            None => std_path_extension(p@) is None,
        },
{
    std::path::Path::new(p).extension().map(|e| e.to_string_lossy().into_owned())
}

/// `Path::strip_prefix` on the texts of a path and a base, compared component by component.
#[verifier::external_body]
pub(crate) fn path_strip_prefix(p: &str, base: &str) -> (r: Option<String>)
    ensures
        match r {
            Some(s) => std_path_strip_prefix(p@, base@) == Some(s@),
            None => std_path_strip_prefix(p@, base@) is None,
        },
{
    std::path::Path::new(p).strip_prefix(base).ok().map(|q| q.to_string_lossy().into_owned())
}

/// The extensions of audio files, in lower case.
pub open spec fn is_audio_ext(e: Seq<char>) -> bool {
    e == "flac"@ || e == "mp3"@ || e == "ogg"@ || e == "wav"@ || e == "m4a"@ || e == "aac"@ || e == "opus"@
}

/// Whether a path names an audio file by its extension, compared without regard to case.
pub open spec fn audio_path(p: Seq<char>) -> bool {
    match std_path_extension(p) {
        Some(e) => is_audio_ext(crate::text::ascii_lower_spec(e)),
        None => false,
    }
}

fn eq_lit(a: &Vec<char>, lit: &str) -> (r: bool)
    ensures
        r == (a@ == lit@),
{
    let b = to_chars(lit);
    chars_eq(a.as_slice(), b.as_slice())
}

/// Whether the file at `path` is an audio file, by its extension.
pub fn is_audio_file(path: &str) -> (r: bool)
    ensures
        r == audio_path(path@),
{
    match path_extension(path) {
        None => false,
        Some(e) => {
            let l = ascii_lower(e.as_str());
            eq_lit(&l, "flac") || eq_lit(&l, "mp3") || eq_lit(&l, "ogg") || eq_lit(&l, "wav") || eq_lit(&l, "m4a")
                || eq_lit(&l, "aac") || eq_lit(&l, "opus")
        },
    }
}

/// The kind of a change notification.
#[derive(Debug, Clone, Copy, PartialEq, Eq, Structural)]
pub enum ChangeKind {
    Create,
    Remove,
    Modify,
    Other,
}

/// The event for a change of the file at `vpath`, if its kind has one.
pub open spec fn change_event(kind: ChangeKind, vpath: Seq<char>, origin: Seq<char>, e: Event) -> bool {
    match kind {
        ChangeKind::Create => e matches Event::FileAdded { path, origin_id } && path@ == vpath && origin_id@ == origin,
        ChangeKind::Remove => e matches Event::FileRemoved { path, file_id } && path@ == vpath && file_id is None,
        ChangeKind::Modify => e matches Event::FileModified { path } && path@ == vpath,
        ChangeKind::Other => false,
    }
}

/// Watches one origin's root and announces changes of audio files there.
#[derive(Debug, Clone)]
pub struct OriginWatcher {
    origin_id: OriginId,
    root: String,
    seen: Vec<(String, u128)>,
}

/// Why watching could not start.
#[derive(Debug, Clone)]
pub enum WatchError {
    Init(String),
    Watch(String),
}

/// The display text of a watch error.
pub open spec fn watch_error_text(e: WatchError) -> Seq<char> {
    match e {
        WatchError::Init(m) => "Failed to initialize watcher: "@ + m@,
        WatchError::Watch(m) => "Failed to watch path: "@ + m@,
    }
}

impl WatchError {
    /// The error's message, as its display text would read.
    pub fn message(&self) -> (r: String)
        ensures
            r@ == watch_error_text(*self),
    {
        match self {
            WatchError::Init(m) => {
                let mut s = "Failed to initialize watcher: ".to_owned();
                append_str(&mut s, m.as_str());
                s
            },
            WatchError::Watch(m) => {
                let mut s = "Failed to watch path: ".to_owned();
                append_str(&mut s, m.as_str());
                s
            },
        }
    }
}

/// Whether a change seen at `now` is passed on: never seen, or seen at least the debounce
/// interval ago (a clock that went back counts as no time).
pub open spec fn passes(last: Option<u128>, now: u128) -> bool {
    match last {
        None => true,
        Some(t) => now >= t && now - t >= DEBOUNCE_MS,
    }
}

impl OriginWatcher {
    /// A watcher of `root` for an origin, with nothing seen yet.
    pub fn new(origin_id: OriginId, root: &str) -> (r: Self)
        ensures
            r.origin() == origin_id@,
            r.root_path() == root@,
            r.seen_view().len() == 0,
    {
        OriginWatcher { origin_id, root: root.to_owned(), seen: Vec::new() }
    }

    /// The origin whose root is watched.
    pub closed spec fn origin(&self) -> Seq<char> {
        self.origin_id@
    }

    /// The watched root.
    pub closed spec fn root_path(&self) -> Seq<char> {
        self.root@
    }

    /// The origin whose root is watched.
    pub fn origin_id(&self) -> (r: &OriginId)
        ensures
            r@ == self.origin(),
    {
        &self.origin_id
    }

    /// The watched root.
    pub fn root(&self) -> (r: &str)
        ensures
            r@ == self.root_path(),
    {
        self.root.as_str()
    }

    /// When each relative path was last passed on, in milliseconds of the caller's clock.
    pub closed spec fn seen_view(&self) -> Seq<(Seq<char>, u128)> {
        self.seen@.map_values(|e: (String, u128)| (e.0@, e.1))
    }

    /// When the file at a relative path was last passed on.
    pub open spec fn last_seen(&self, rel: Seq<char>) -> Option<u128> {
        first_val(self.seen_view(), rel)
    }

    /// Whether the file at `path` is an audio file, by its extension.
    pub fn is_audio_file(path: &str) -> (r: bool)
        ensures
            r == audio_path(path@),
    {
        is_audio_file(path)
    }

    fn find_seen(&self, rel: &str) -> (r: Option<usize>)
        ensures
            match r {
                Some(i) => i < self.seen@.len() && self.seen_view()[i as int].0 == rel@ && self.last_seen(rel@)
                    == Some(self.seen_view()[i as int].1) && forall|j: int|
                    0 <= j < i ==> self.seen_view()[j].0 != rel@,
                None => self.last_seen(rel@) is None,
            },
    {
        let ghost s = self.seen_view();
        let want = to_chars(rel);
        let mut i: usize = 0;
        proof {
            assert(s.skip(0) =~= s);
        }
        while i < self.seen.len()
            invariant
                i <= s.len(),
                s == self.seen_view(),
                s.len() == self.seen@.len(),
                want@ == rel@,
                first_val(s, rel@) == first_val(s.skip(i as int), rel@),
                forall|j: int| 0 <= j < i ==> s[j].0 != rel@,
            decreases s.len() - i,
        {
            proof {
                assert(s.skip(i as int).drop_first() =~= s.skip(i + 1));
                assert(s.skip(i as int)[0] == s[i as int]);
            }
            let have = to_chars(self.seen[i].0.as_str());
            if chars_eq(have.as_slice(), want.as_slice()) {
                return Some(i);
            }
            i = i + 1;
        }
        None
    }

    /// Handles one path of a notification at time `now` (milliseconds of the caller's clock):
    /// a path outside the root, or not of an audio file, or passed on less than the debounce
    /// interval ago, gives nothing; otherwise the time is recorded and the change's event, if
    /// its kind has one, is returned, for the path `/` and the path relative to the root.
    pub fn handle_path(&mut self, path: &str, kind: ChangeKind, now: u128) -> (r: Option<Event>)
        ensures
            final(self).origin() == old(self).origin(),
            final(self).root_path() == old(self).root_path(),
            match std_path_strip_prefix(path@, old(self).root_path()) {
                None => r is None && final(self).seen_view() == old(self).seen_view(),
                Some(rel) => if !audio_path(path@) || !passes(old(self).last_seen(rel), now) {
                    r is None && final(self).seen_view() == old(self).seen_view()
                } else {
                    &&& final(self).last_seen(rel) == Some(now)
                    &&& forall|x: Seq<char>| x != rel ==> #[trigger] final(self).last_seen(x) == old(self).last_seen(x)
                    &&& match r {
                        Some(e) => change_event(kind, seq!['/'] + rel, old(self).origin(), e),
                        None => kind == ChangeKind::Other,
                    }
                },
            },
    {
        let rel = match path_strip_prefix(path, self.root.as_str()) {
            None => {
                return None;
            },
            Some(r) => r,
        };
        if !is_audio_file(path) {
            return None;
        }
        let ghost s = self.seen_view();
        let found = self.find_seen(rel.as_str());
        match found {
            Some(i) => {
                let last = self.seen[i].1;
                if now < last || now - last < DEBOUNCE_MS {
                    return None;
                }
                let key = rel.clone();
                proof {
                    assert(key@ == rel@);
                }
                self.seen.set(i, (key, now));
                proof {
                    assert(self.seen_view() =~= s.update(i as int, (rel@, now)));
                    lemma_first_val_update(s, i as int, rel@, now);
                }
            },
            None => {
                let key = rel.clone();
                proof {
                    assert(key@ == rel@);
                }
                self.seen.push((key, now));
                proof {
                    assert(self.seen_view() =~= s.push((rel@, now)));
                    lemma_first_val_push(s, rel@, now);
                }
            },
        }
        let mut text = "/".to_owned();
        proof {
            reveal_strlit("/");
        }
        append_str(&mut text, rel.as_str());
        proof {
            assert(text@ == seq!['/'] + rel@);
        }
        let vpath = VirtualPath(text);
        match kind {
            ChangeKind::Create => Some(Event::FileAdded { path: vpath, origin_id: OriginId(self.origin_id.0.clone()) }),
            ChangeKind::Remove => Some(Event::FileRemoved { path: vpath, file_id: None }),
            ChangeKind::Modify => Some(Event::FileModified { path: vpath }),
            ChangeKind::Other => None,
        }
    }
}

} // verus!

//! Prefetch settings and the set of files whose prefetch is under way.
use vstd::prelude::*;

use std::time::Duration;

use crate::types::FileId;

verus! {

/// Files to predict after each access when nothing else is configured.
pub const DEFAULT_PREFETCH_LOOKAHEAD: usize = 3;

/// Prefetches that may run at once when nothing else is configured.
pub const DEFAULT_MAX_CONCURRENT: usize = 2;

/// Pause after handling an access, in milliseconds, when nothing else is configured.
pub const DEFAULT_COOLDOWN_MS: u64 = 100;

/// The span of `ms` milliseconds.
pub uninterp spec fn millis_duration(ms: u64) -> Duration;

/// `Duration::from_millis`: the span of that many milliseconds, a function of the count alone.
#[verifier::external_body]
fn duration_from_millis(ms: u64) -> (r: Duration)
    ensures
        r == millis_duration(ms),
{
    Duration::from_millis(ms)
}

/// Settings of the prefetcher.
#[derive(Debug, Clone)]
pub struct PrefetchConfig {
    pub lookahead: usize,
    pub max_concurrent: usize,
    pub cooldown: Duration,
    pub enabled: bool,
}

impl Default for PrefetchConfig {
    fn default() -> (r: Self)
        ensures
            r.lookahead == DEFAULT_PREFETCH_LOOKAHEAD,
            r.max_concurrent == DEFAULT_MAX_CONCURRENT,
            r.cooldown == millis_duration(DEFAULT_COOLDOWN_MS),
            r.enabled,
    {
        PrefetchConfig {
            lookahead: DEFAULT_PREFETCH_LOOKAHEAD,
            max_concurrent: DEFAULT_MAX_CONCURRENT,
            cooldown: duration_from_millis(DEFAULT_COOLDOWN_MS),
            enabled: true,
        }
    }
}

/// What became of a request to prefetch a file.
#[derive(Debug, Clone, Copy, PartialEq, Eq, Structural)]
pub enum PrefetchStart {
    /// The file was taken into the set; its fetch may start.
    Started,
    /// A prefetch of the file is under way already.
    AlreadyInFlight,
    /// No permit was free: the file was not taken.
    ConcurrencyLimit,
}

/// The files whose prefetch is under way; each occurs once.
#[derive(Debug)]
pub struct InFlight {
    ids: Vec<FileId>,
}

/// Whether the list holds `id`.
pub open spec fn holds(s: Seq<FileId>, id: FileId) -> bool {
    exists|i: int| 0 <= i < s.len() && s[i] == id
}

/// No file occurs twice.
pub open spec fn no_repeats(s: Seq<FileId>) -> bool {
    forall|i: int, j: int| 0 <= i < j < s.len() ==> s[i] != s[j]
}

impl InFlight {
    /// The files under way, as a set.
    pub closed spec fn view(&self) -> Set<FileId> {
        self.ids@.to_set()
    }

    pub closed spec fn wf(&self) -> bool {
        no_repeats(self.ids@)
    }

    /// The number of files under way.
    pub closed spec fn count(&self) -> nat {
        self.ids@.len()
    }

    pub proof fn lemma_count(&self)
        requires
            self.wf(),
        ensures
            self.count() == self@.len(),
            self@.finite(),
    {
        self.ids@.unique_seq_to_set();
    }

    /// An empty set.
    pub fn new() -> (r: Self)
        ensures
            r.wf(),
            r@ == Set::<FileId>::empty(),
            r.count() == 0,
    {
        let r = InFlight { ids: Vec::new() };
        proof {
            assert(r.ids@.to_set() =~= Set::<FileId>::empty());
        }
        r
    }

    fn position(&self, id: FileId) -> (r: Option<usize>)
        ensures
            match r {
                Some(i) => i < self.ids@.len() && self.ids@[i as int] == id,
                None => !self.ids@.contains(id),
            },
    {
        let mut i: usize = 0;
        while i < self.ids.len()
            invariant
                i <= self.ids@.len(),
                forall|j: int| 0 <= j < i ==> self.ids@[j] != id,
            decreases self.ids@.len() - i,
        {
            if self.ids[i] == id {
                return Some(i);
            }
            i = i + 1;
        }
        None
    }

    /// Whether a prefetch of the file is under way.
    pub fn contains(&self, id: FileId) -> (r: bool)
        ensures
            r == self@.contains(id),
    {
        self.position(id).is_some()
    }

    /// The number of prefetches under way.
    pub fn len(&self) -> (r: usize)
        requires
            self.wf(),
        ensures
            r == self@.len(),
    {
        proof {
            self.lemma_count();
        }
        self.ids.len()
    }

    /// Asks to prefetch a file, given whether a concurrency permit could be had: a file under
    /// way already is skipped; without a permit nothing changes; else the file is taken in.
    pub fn try_begin(&mut self, id: FileId, permit_available: bool) -> (r: PrefetchStart)
        requires
            old(self).wf(),
        ensures
            final(self).wf(),
            old(self)@.contains(id) ==> r == PrefetchStart::AlreadyInFlight && final(self)@ == old(self)@,
            !old(self)@.contains(id) && !permit_available ==> r == PrefetchStart::ConcurrencyLimit
                && final(self)@ == old(self)@,
            !old(self)@.contains(id) && permit_available ==> r == PrefetchStart::Started && final(self)@
                == old(self)@.insert(id),
    {
        if self.contains(id) {
            return PrefetchStart::AlreadyInFlight;
        }
        if !permit_available {
            return PrefetchStart::ConcurrencyLimit;
        }
        let ghost before = self.ids@;
        self.ids.push(id);
        proof {
            assert(self.ids@ == before.push(id));
            assert forall|x: FileId| #[trigger] self.ids@.contains(x) <==> (before.contains(x) || x == id) by {
                if x == id {
                    assert(self.ids@[before.len() as int] == id);
                }
                if before.contains(x) {
                    let k = choose|k: int| 0 <= k < before.len() && before[k] == x;
                    assert(self.ids@[k] == x);
                }
                if self.ids@.contains(x) {
                    let k = choose|k: int| 0 <= k < self.ids@.len() && self.ids@[k] == x;
                    if k < before.len() {
                        assert(before[k] == x);
                    }
                }
            }
            assert(self.ids@.to_set() =~= before.to_set().insert(id));
        }
        PrefetchStart::Started
    }

    /// A prefetch ended, whether it succeeded or not: the file leaves the set.
    pub fn finish(&mut self, id: FileId)
        requires
            old(self).wf(),
        ensures
            final(self).wf(),
            final(self)@ == old(self)@.remove(id),
    {
        match self.position(id) {
            None => {
                proof {
                    assert(self.ids@.to_set() =~= self.ids@.to_set().remove(id));
                }
            },
            Some(i) => {
                let ghost before = self.ids@;
                self.ids.remove(i);
                proof {
                    assert(self.ids@ == before.remove(i as int));
                    assert forall|x: FileId| #[trigger] self.ids@.to_set().contains(x) <==> before.to_set().remove(id).contains(x) by {
                        if self.ids@.contains(x) {
                            let k = choose|k: int| 0 <= k < self.ids@.len() && self.ids@[k] == x;
                            if k < i {
                                assert(before[k] == x);
                            } else {
                                assert(before[k + 1] == x);
                            }
                        }
                        if before.contains(x) && x != id {
                            let k = choose|k: int| 0 <= k < before.len() && before[k] == x;
                            if k < i {
                                assert(self.ids@[k] == x);
                            } else {
                                assert(k != i);
                                assert(self.ids@[k - 1] == x);
                            }
                        }
                    }
                    assert(self.ids@.to_set() =~= before.to_set().remove(id));
                }
            },
        }
    }
}

} // verus!

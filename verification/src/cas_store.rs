//! The bookkeeping of a content-addressed store: which chunks it holds, how large each is,
//! and the running total that the size limit is checked against. Reading and writing the
//! chunk files is left to the caller.
use vstd::prelude::*;

use crate::cas::{admits, put_step, verify_integrity, CasConfig, CasError, DedupStats, PutStep};
use crate::hexfmt::hex_encode;
use crate::types::{digest_of, ChunkHash};

verus! {

/// Chunk sizes by hash bytes.
pub open spec fn entries_map(s: Seq<(ChunkHash, u64)>) -> Map<Seq<u8>, u64>
    decreases s.len(),
{
    if s.len() == 0 {
        Map::empty()
    } else {
        entries_map(s.drop_last()).insert(s.last().0.0@, s.last().1)
    }
}

/// The sum of the chunk sizes.
pub open spec fn entries_total(s: Seq<(ChunkHash, u64)>) -> int
    decreases s.len(),
{
    if s.len() == 0 {
        0
    } else {
        entries_total(s.drop_last()) + s.last().1
    }
}

/// No hash occurs twice.
pub open spec fn distinct_keys(s: Seq<(ChunkHash, u64)>) -> bool {
    forall|i: int, j: int| 0 <= i < j < s.len() ==> (#[trigger] s[i]).0.0@ != (#[trigger] s[j]).0.0@
}

proof fn lemma_entries_dom(s: Seq<(ChunkHash, u64)>)
    requires
        distinct_keys(s),
    ensures
        forall|k: Seq<u8>| #[trigger] entries_map(s).contains_key(k) <==> exists|i: int| 0 <= i < s.len() && s[i].0.0@ == k,
        forall|i: int| 0 <= i < s.len() ==> #[trigger] entries_map(s)[s[i].0.0@] == s[i].1,
        entries_map(s).dom().finite(),
        entries_map(s).dom().len() == s.len(),
        entries_total(s) >= 0,
    decreases s.len(),
{
    if s.len() > 0 {
        let t = s.drop_last();
        assert(distinct_keys(t)) by {
            assert forall|i: int, j: int| 0 <= i < j < t.len() implies (#[trigger] t[i]).0.0@ != (#[trigger] t[j]).0.0@ by {
                assert(t[i] == s[i] && t[j] == s[j]);
            }
        }
        lemma_entries_dom(t);
        let k = s.last().0.0@;
        assert(!entries_map(t).contains_key(k)) by {
            if entries_map(t).contains_key(k) {
                let i = choose|i: int| 0 <= i < t.len() && t[i].0.0@ == k;
                assert(s[i] == t[i]);
                assert(s[s.len() - 1] == s.last());
            }
        }
        assert forall|kk: Seq<u8>| #[trigger] entries_map(s).contains_key(kk) <==> exists|i: int| 0 <= i < s.len() && s[i].0.0@ == kk by {
            if entries_map(s).contains_key(kk) && kk != k {
                let i = choose|i: int| 0 <= i < t.len() && t[i].0.0@ == kk;
                assert(s[i] == t[i]);
            }
            if kk == k {
                assert(s[s.len() - 1].0.0@ == kk);
            }
            if exists|i: int| 0 <= i < s.len() && s[i].0.0@ == kk {
                let i = choose|i: int| 0 <= i < s.len() && s[i].0.0@ == kk;
                if i < t.len() {
                    assert(t[i] == s[i]);
                }
            }
        }
        assert forall|i: int| 0 <= i < s.len() implies #[trigger] entries_map(s)[s[i].0.0@] == s[i].1 by {
            if i < t.len() {
                assert(t[i] == s[i]);
                assert(s[i].0.0@ != k);
            }
        }
    }
}

/// Removing the chunk at one position removes its hash from the map and its size from the
/// total.
proof fn lemma_entries_remove(s: Seq<(ChunkHash, u64)>, i: int)
    requires
        distinct_keys(s),
        0 <= i < s.len(),
    ensures
        distinct_keys(s.remove(i)),
        entries_map(s.remove(i)) == entries_map(s).remove(s[i].0.0@),
        entries_total(s.remove(i)) == entries_total(s) - s[i].1,
    decreases s.len(),
{
    let r = s.remove(i);
    assert(distinct_keys(r)) by {
        assert forall|a: int, b: int| 0 <= a < b < r.len() implies (#[trigger] r[a]).0.0@ != (#[trigger] r[b]).0.0@ by {
            let a2 = if a < i { a } else { a + 1 };
            let b2 = if b < i { b } else { b + 1 };
            assert(r[a] == s[a2] && r[b] == s[b2]);
        }
    }
    let t = s.drop_last();
    lemma_entries_dom(s);
    if i == s.len() - 1 {
        assert(r =~= t);
        lemma_entries_dom(t);
        assert(!entries_map(t).contains_key(s[i].0.0@)) by {
            if entries_map(t).contains_key(s[i].0.0@) {
                let j = choose|j: int| 0 <= j < t.len() && t[j].0.0@ == s[i].0.0@;
                assert(t[j] == s[j]);
            }
        }
        assert(entries_map(r) =~= entries_map(s).remove(s[i].0.0@));
    } else {
        assert(distinct_keys(t)) by {
            assert forall|a: int, b: int| 0 <= a < b < t.len() implies (#[trigger] t[a]).0.0@ != (#[trigger] t[b]).0.0@ by {
                assert(t[a] == s[a] && t[b] == s[b]);
            }
        }
        lemma_entries_remove(t, i);
        assert(r.drop_last() =~= t.remove(i));
        assert(r.last() == s.last());
        assert(t[i] == s[i]);
        assert(s.last().0.0@ != s[i].0.0@);
        assert(entries_map(r) =~= entries_map(s).remove(s[i].0.0@));
    }
}

/// What a put of `data` gives and leaves: a chunk held already is a hit and changes
/// nothing; a new one is recorded with its length where it fits under the size limit, else
/// the store is full and unchanged. A store never grows past its limit.
pub open spec fn put_result(before: CasStore, after: CasStore, data: Seq<u8>, r: Result<ChunkHash, CasError>) -> bool {
    let h = digest_of(data);
    let len = data.len();
    &&& after.wf()
    &&& after.settings() == before.settings()
    &&& r is Ok ==> r->Ok_0.0@ == h
    &&& before@.contains_key(h) ==> r is Ok && after@ == before@ && after.size() == before.size()
    &&& !before@.contains_key(h) && admits(before.size() as u64, len as u64, before.settings().max_size) ==> r is Ok && after@
        == before@.insert(h, len as u64) && after.size() == before.size() + len
    &&& !before@.contains_key(h) && !admits(before.size() as u64, len as u64, before.settings().max_size) ==> after@ == before@
        && after.size() == before.size() && (r matches Err(CasError::StoreFull { current: c, max: m }) && c == before.size() && m
        == before.settings().max_size)
    &&& before.settings().max_size > 0 && before.size() <= before.settings().max_size ==> after.size() <= after.settings().max_size
}

/// What a chunk file holds, where there is one.
pub open spec fn file_view(file: Option<&[u8]>) -> Option<Seq<u8>> {
    match file {
        Some(d) => Some(d@),
        None => None,
    }
}

/// What a read of a chunk gives back, given what its file holds (`None` where there is no
/// file): the bytes, where with a size limit set they hash to the chunk; else nothing.
pub open spec fn read_back(store: CasStore, hash: Seq<u8>, file: Option<Seq<u8>>) -> Option<Seq<u8>> {
    match file {
        Some(d) => if store.settings().max_size == 0 || digest_of(d) == hash {
            Some(d)
        } else {
            None
        },
        None => None,
    }
}

/// A chunk store's table: the chunks it holds with their sizes, and its running size.
pub struct CasStore {
    config: CasConfig,
    chunks: Vec<(ChunkHash, u64)>,
    current_size: u64,
}

impl View for CasStore {
    type V = Map<Seq<u8>, u64>;

    /// The stored chunks: their sizes by hash bytes.
    open spec fn view(&self) -> Map<Seq<u8>, u64> {
        self.contents()
    }
}

impl CasStore {
    pub closed spec fn contents(&self) -> Map<Seq<u8>, u64> {
        entries_map(self.chunks@)
    }

    /// The running size in bytes.
    pub closed spec fn size(&self) -> nat {
        self.current_size as nat
    }

    pub closed spec fn settings(&self) -> CasConfig {
        self.config
    }

    /// No chunk is held twice, and the running size is the total of the chunk sizes.
    pub closed spec fn wf(&self) -> bool {
        &&& distinct_keys(self.chunks@)
        &&& self.current_size as int == entries_total(self.chunks@)
    }

    /// An empty store with these settings.
    pub fn new(config: CasConfig) -> (r: Self)
        ensures
            r.wf(),
            r@ == Map::<Seq<u8>, u64>::empty(),
            r.size() == 0,
            r.settings() == config,
    {
        let r = CasStore { config, chunks: Vec::new(), current_size: 0 };
        proof {
            assert(r.chunks@ =~= Seq::<(ChunkHash, u64)>::empty());
        }
        r
    }

    fn find(&self, hash: &ChunkHash) -> (r: Option<usize>)
        requires
            self.wf(),
        ensures
            match r {
                Some(i) => i < self.chunks@.len() && self.chunks@[i as int].0.0@ == hash.0@,
                None => !self@.contains_key(hash.0@),
            },
    {
        proof {
            lemma_entries_dom(self.chunks@);
        }
        let mut i: usize = 0;
        while i < self.chunks.len()
            invariant
                i <= self.chunks@.len(),
                forall|j: int| 0 <= j < i ==> self.chunks@[j].0.0@ != hash.0@,
            decreases self.chunks@.len() - i,
        {
            if self.chunks[i].0 == *hash {
                return Some(i);
            }
            i = i + 1;
        }
        None
    }

    /// Whether a chunk with this hash is stored.
    pub fn has_chunk(&self, hash: &ChunkHash) -> (r: bool)
        requires
            self.wf(),
        ensures
            r == self@.contains_key(hash.0@),
    {
        proof {
            lemma_entries_dom(self.chunks@);
        }
        self.find(hash).is_some()
    }

    /// Records a chunk found in the store's directory when it is opened: its size counts
    /// towards the running size; a chunk already recorded is left as it is.
    pub fn record_existing(&mut self, hash: ChunkHash, size: u64)
        requires
            old(self).wf(),
            old(self).size() + size <= u64::MAX,
        ensures
            final(self).wf(),
            final(self).settings() == old(self).settings(),
            old(self)@.contains_key(hash.0@) ==> final(self)@ == old(self)@ && final(self).size() == old(self).size(),
            !old(self)@.contains_key(hash.0@) ==> final(self)@ == old(self)@.insert(hash.0@, size) && final(self).size() == old(self).size() + size,
    {
        match self.find(&hash) {
            Some(_) => {
                proof {
                    lemma_entries_dom(self.chunks@);
                }
            },
            None => {
                self.add_entry(hash, size);
            },
        }
    }

    fn add_entry(&mut self, hash: ChunkHash, size: u64)
        requires
            old(self).wf(),
            !old(self)@.contains_key(hash.0@),
            old(self).size() + size <= u64::MAX,
        ensures
            final(self).wf(),
            final(self).settings() == old(self).settings(),
            final(self)@ == old(self)@.insert(hash.0@, size),
            final(self).size() == old(self).size() + size,
    {
        let ghost s0 = self.chunks@;
        proof {
            lemma_entries_dom(s0);
        }
        self.chunks.push((hash, size));
        self.current_size = self.current_size + size;
        proof {
            let s1 = self.chunks@;
            assert(s1.drop_last() =~= s0);
            assert(s1.last() == (hash, size));
            assert forall|i: int, j: int| 0 <= i < j < s1.len() implies (#[trigger] s1[i]).0.0@ != (#[trigger] s1[j]).0.0@ by {
                assert(s1[i] == s0[i]);
                if j < s0.len() {
                    assert(s1[j] == s0[j]);
                } else {
                    assert(entries_map(s0).contains_key(s0[i].0.0@));
                }
            }
        }
    }

    /// Stores a chunk: a chunk held already is a hit and changes nothing; a new one is
    /// recorded with its length where it fits under the size limit, else the store is full.
    /// Returns the chunk's hash.
    pub fn put(&mut self, data: &[u8]) -> (r: Result<ChunkHash, CasError>)
        requires
            old(self).wf(),
            old(self).size() + data@.len() <= u64::MAX,
        ensures
            put_result(*old(self), *final(self), data@, r),
    {
        let hash = ChunkHash::from_bytes(data);
        let present = self.has_chunk(&hash);
        let len = data.len() as u64;
        match put_step(present, self.current_size, len, self.config.max_size) {
            Err(e) => Err(e),
            Ok(PutStep::DedupHit) => Ok(hash),
            Ok(PutStep::Write) => {
                self.add_entry(hash, len);
                Ok(hash)
            },
        }
    }

    /// Forgets a chunk and takes its size off the running size; nothing happens for a
    /// chunk that is not stored.
    pub fn delete(&mut self, hash: &ChunkHash)
        requires
            old(self).wf(),
        ensures
            final(self).wf(),
            final(self).settings() == old(self).settings(),
            final(self)@ == old(self)@.remove(hash.0@),
            final(self).size() == old(self).size() - (if old(self)@.contains_key(hash.0@) { old(self)@[hash.0@] as int } else { 0 }),
    {
        let ghost s0 = self.chunks@;
        proof {
            lemma_entries_dom(s0);
        }
        match self.find(hash) {
            Some(i) => {
                proof {
                    lemma_entries_remove(s0, i as int);
                    lemma_entries_dom(s0.remove(i as int));
                }
                let (_, size) = self.chunks.remove(i);
                self.current_size = self.current_size - size;
            },
            None => {
                proof {
                    assert(entries_map(s0).remove(hash.0@) =~= entries_map(s0));
                }
            },
        }
    }

    /// The running size in bytes.
    pub fn current_size(&self) -> (r: u64)
        ensures
            r == self.size(),
    {
        self.current_size
    }

    /// The size limit in bytes; 0 for none.
    pub fn max_size(&self) -> (r: u64)
        ensures
            r == self.settings().max_size,
    {
        self.config.max_size
    }

    /// The hashes of the stored chunks, each once.
    pub fn list_chunks(&self) -> (r: Vec<ChunkHash>)
        requires
            self.wf(),
        ensures
            r@.len() == self@.dom().len(),
            forall|k: Seq<u8>| self@.contains_key(k) <==> exists|i: int| 0 <= i < r@.len() && (#[trigger] r@[i]).0@ == k,
            forall|i: int, j: int| 0 <= i < j < r@.len() ==> (#[trigger] r@[i]).0@ != (#[trigger] r@[j]).0@,
    {
        proof {
            lemma_entries_dom(self.chunks@);
        }
        let mut out: Vec<ChunkHash> = Vec::new();
        let mut i: usize = 0;
        while i < self.chunks.len()
            invariant
                i <= self.chunks@.len(),
                out@.len() == i,
                forall|j: int| 0 <= j < i ==> (#[trigger] out@[j]).0@ == self.chunks@[j].0.0@,
            decreases self.chunks@.len() - i,
        {
            out.push(self.chunks[i].0);
            i = i + 1;
        }
        proof {
            assert forall|k: Seq<u8>| self@.contains_key(k) <==> exists|i: int| 0 <= i < out@.len() && (#[trigger] out@[i]).0@ == k by {
                if self@.contains_key(k) {
                    let j = choose|j: int| 0 <= j < self.chunks@.len() && self.chunks@[j].0.0@ == k;
                    assert(out@[j].0@ == k);
                }
                if exists|i: int| 0 <= i < out@.len() && (#[trigger] out@[i]).0@ == k {
                    let j = choose|j: int| 0 <= j < out@.len() && (#[trigger] out@[j]).0@ == k;
                    assert(self.chunks@[j].0.0@ == k);
                }
            }
            assert forall|a: int, b: int| 0 <= a < b < out@.len() implies (#[trigger] out@[a]).0@ != (#[trigger] out@[b]).0@ by {
                assert(self.chunks@[a].0.0@ != self.chunks@[b].0.0@);
            }
        }
        out
    }

    /// The store's counts: every stored chunk is unique.
    pub fn dedup_stats(&self) -> (r: DedupStats)
        requires
            self.wf(),
        ensures
            r.chunks_stored == self@.dom().len(),
            r.chunks_unique == self@.dom().len(),
            r.size_bytes == self.size(),
            r.size_limit_bytes == self.settings().max_size,
    {
        proof {
            lemma_entries_dom(self.chunks@);
        }
        crate::cas::dedup_stats(self.chunks.len() as u64, self.current_size, self.config.max_size)
    }

    /// Where a stored chunk's file is; `NotFound` with the hash's hex text for a chunk that
    /// is not stored.
    pub fn locate(&self, hash: &ChunkHash) -> (r: Result<String, CasError>)
        requires
            self.wf(),
        ensures
            self@.contains_key(hash.0@) ==> r is Ok && r->Ok_0@ == crate::cas::chunk_path_spec(self.settings(), *hash),
            !self@.contains_key(hash.0@) ==> (r matches Err(CasError::NotFound(h)) && h@ == hex_encode(hash.0@)),
    {
        if !self.has_chunk(hash) {
            return Err(CasError::NotFound(hash.as_hex()));
        }
        Ok(self.config.chunk_path(hash))
    }

    /// A read of a chunk, given what its file holds (`None` where there is no file):
    /// `NotFound` where there is no file, the integrity error where a size limit is set and
    /// the bytes hash otherwise, else the bytes.
    pub fn get(&self, hash: &ChunkHash, file: Option<&[u8]>) -> (r: Result<Vec<u8>, CasError>)
        ensures
            file is None ==> (r matches Err(CasError::NotFound(h)) && h@ == hex_encode(hash.0@)),
            file is Some && self.settings().max_size > 0 && digest_of(file->0@) != hash.0@ ==> (r matches Err(
                CasError::IntegrityError { expected: e, actual: a },
            ) && e@ == hex_encode(hash.0@) && a@ == hex_encode(digest_of(file->0@))),
            r is Ok <==> read_back(*self, hash.0@, file_view(file)) is Some,
            r is Ok ==> Some(r->Ok_0@) == read_back(*self, hash.0@, file_view(file)),
    {
        let data = match file {
            None => {
                return Err(CasError::NotFound(hash.as_hex()));
            },
            Some(d) => d,
        };
        if self.config.max_size > 0 {
            match verify_integrity(hash, data) {
                Err(e) => return Err(e),
                Ok(()) => {},
            }
        }
        let mut out: Vec<u8> = Vec::new();
        crate::text::extend_bytes(&mut out, data);
        proof {
            assert(out@ =~= data@);
        }
        Ok(out)
    }

    /// The check on bytes read for a chunk: with a size limit set, their hash must be the
    /// chunk's; without one they are taken as read.
    pub fn check_read(&self, hash: &ChunkHash, data: &[u8]) -> (r: Result<(), CasError>)
        ensures
            r is Ok <==> (self.settings().max_size == 0 || digest_of(data@) == hash.0@),
    {
        if self.config.max_size > 0 {
            verify_integrity(hash, data)
        } else {
            Ok(())
        }
    }
}

/// Deleting a chunk that a put has just added gives back the store as it was: the same
/// chunks, and the running size less exactly the size the put added.
pub proof fn law_delete_undoes_put(chunks: Map<Seq<u8>, u64>, size: int, h: Seq<u8>, len: u64)
    requires
        !chunks.contains_key(h),
    ensures
        chunks.insert(h, len).remove(h) == chunks,
        chunks.insert(h, len).contains_key(h),
        (size + len) - (chunks.insert(h, len)[h] as int) == size,
{
    assert(chunks.insert(h, len).remove(h) =~= chunks);
}


/// A read gives back what a put wrote: after a put of `data` that succeeded, the chunk is
/// stored under the returned hash, and a read of that hash, given its unaltered file, gives
/// back exactly those bytes; every other chunk is still stored as before.
pub proof fn law_get_after_put(before: CasStore, after: CasStore, data: Seq<u8>, r: Result<ChunkHash, CasError>)
    requires
        before.wf(),
        put_result(before, after, data, r),
        r is Ok,
    ensures
        after@.contains_key(r->Ok_0.0@),
        read_back(after, r->Ok_0.0@, Some(data)) == Some(data),
        forall|k: Seq<u8>| k != r->Ok_0.0@ ==> (#[trigger] after@.contains_key(k) <==> before@.contains_key(k)),
{
    let h = digest_of(data);
    assert(r->Ok_0.0@ == h);
    if before@.contains_key(h) {
        assert(after@ == before@);
    } else {
        assert(after@ == before@.insert(h, data.len() as u64));
    }
}

} // verus!

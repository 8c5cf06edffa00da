//! A chunk store that fails on request: for exercising how callers cope with a full disk,
//! I/O errors, corrupted reads and a store that fails after some number of writes.
use vstd::prelude::*;

use crate::cas::{CasConfig, CasError, DedupStats};
use crate::cas_store::{put_result, CasStore};
use crate::hexfmt::hex_encode;
use crate::types::{digest_of, ChunkHash};

verus! {

pub open spec fn enospc_text() -> Seq<char> {
    "No space left on device (ENOSPC injected)"@
}

pub open spec fn eio_text() -> Seq<char> {
    "Input/output error (EIO injected)"@
}

pub open spec fn after_n_text() -> Seq<char> {
    "Injected failure after N puts"@
}

/// The bytes with the first one incremented (wrapping), as a corrupted read returns them.
pub open spec fn corrupted(d: Seq<u8>) -> Seq<u8> {
    if d.len() == 0 {
        d
    } else {
        d.update(0, ((d[0] + 1) % 256) as u8)
    }
}

/// A store with switches for injected faults and a count of the puts tried.
pub struct FaultyCasStore {
    inner: CasStore,
    inject_enospc: bool,
    inject_eio_on_read: bool,
    inject_eio_on_write: bool,
    inject_corruption: bool,
    fail_after_n_puts: usize,
    put_count: usize,
}

fn io_error(msg: &str) -> (r: CasError)
    ensures
        r matches CasError::Io(m) && m@ == msg@,
{
    CasError::Io(msg.to_owned())
}

impl FaultyCasStore {
    pub closed spec fn store(&self) -> CasStore {
        self.inner
    }

    pub closed spec fn enospc(&self) -> bool {
        self.inject_enospc
    }

    pub closed spec fn eio_on_read(&self) -> bool {
        self.inject_eio_on_read
    }

    pub closed spec fn eio_on_write(&self) -> bool {
        self.inject_eio_on_write
    }

    pub closed spec fn corruption(&self) -> bool {
        self.inject_corruption
    }

    /// The number of puts after which every put fails.
    pub closed spec fn threshold(&self) -> usize {
        self.fail_after_n_puts
    }

    /// The number of puts tried since the count was last reset.
    pub closed spec fn count(&self) -> usize {
        self.put_count
    }

    /// No faults injected, and no puts counted.
    pub open spec fn healthy(&self) -> bool {
        !self.enospc() && !self.eio_on_read() && !self.eio_on_write() && !self.corruption() && self.threshold() == usize::MAX
            && self.count() == 0
    }

    /// Wraps a store, with no faults injected.
    pub fn new(inner: CasStore) -> (r: Self)
        ensures
            r.store() == inner,
            r.healthy(),
    {
        FaultyCasStore {
            inner,
            inject_enospc: false,
            inject_eio_on_read: false,
            inject_eio_on_write: false,
            inject_corruption: false,
            fail_after_n_puts: usize::MAX,
            put_count: 0,
        }
    }

    /// An empty store with these settings, with no faults injected.
    pub fn open(config: CasConfig) -> (r: Self)
        ensures
            r.store().wf(),
            r.store()@ == Map::<Seq<u8>, u64>::empty(),
            r.store().size() == 0,
            r.store().settings() == config,
            r.healthy(),
    {
        Self::new(CasStore::new(config))
    }

    pub fn set_inject_enospc(&mut self, enabled: bool)
        ensures
            final(self).enospc() == enabled,
            final(self).store() == old(self).store(),
            final(self).eio_on_read() == old(self).eio_on_read(),
            final(self).eio_on_write() == old(self).eio_on_write(),
            final(self).corruption() == old(self).corruption(),
            final(self).threshold() == old(self).threshold(),
            final(self).count() == old(self).count(),
    {
        self.inject_enospc = enabled;
    }

    pub fn set_inject_eio_on_read(&mut self, enabled: bool)
        ensures
            final(self).eio_on_read() == enabled,
            final(self).store() == old(self).store(),
            final(self).enospc() == old(self).enospc(),
            final(self).eio_on_write() == old(self).eio_on_write(),
            final(self).corruption() == old(self).corruption(),
            final(self).threshold() == old(self).threshold(),
            final(self).count() == old(self).count(),
    {
        self.inject_eio_on_read = enabled;
    }

    pub fn set_inject_eio_on_write(&mut self, enabled: bool)
        ensures
            final(self).eio_on_write() == enabled,
            final(self).store() == old(self).store(),
            final(self).enospc() == old(self).enospc(),
            final(self).eio_on_read() == old(self).eio_on_read(),
            final(self).corruption() == old(self).corruption(),
            final(self).threshold() == old(self).threshold(),
            final(self).count() == old(self).count(),
    {
        self.inject_eio_on_write = enabled;
    }

    pub fn set_inject_corruption(&mut self, enabled: bool)
        ensures
            final(self).corruption() == enabled,
            final(self).store() == old(self).store(),
            final(self).enospc() == old(self).enospc(),
            final(self).eio_on_read() == old(self).eio_on_read(),
            final(self).eio_on_write() == old(self).eio_on_write(),
            final(self).threshold() == old(self).threshold(),
            final(self).count() == old(self).count(),
    {
        self.inject_corruption = enabled;
    }

    /// Makes every put after the next `n` fail, and restarts the count.
    pub fn set_fail_after_n_puts(&mut self, n: usize)
        ensures
            final(self).threshold() == n,
            final(self).count() == 0,
            final(self).store() == old(self).store(),
            final(self).enospc() == old(self).enospc(),
            final(self).eio_on_read() == old(self).eio_on_read(),
            final(self).eio_on_write() == old(self).eio_on_write(),
            final(self).corruption() == old(self).corruption(),
    {
        self.fail_after_n_puts = n;
        self.put_count = 0;
    }

    /// Switches every fault off and restarts the count.
    pub fn reset_faults(&mut self)
        ensures
            final(self).healthy(),
            final(self).store() == old(self).store(),
    {
        self.inject_enospc = false;
        self.inject_eio_on_read = false;
        self.inject_eio_on_write = false;
        self.inject_corruption = false;
        self.fail_after_n_puts = usize::MAX;
        self.put_count = 0;
    }

    /// The number of puts tried since the count was last reset.
    pub fn put_count(&self) -> (r: usize)
        ensures
            r == self.count(),
    {
        self.put_count
    }

    /// A put: counted whatever comes of it; then an injected full disk, an injected I/O
    /// error, or a put past the threshold fails with its message and changes nothing;
    /// otherwise the store's own put.
    pub fn put(&mut self, data: &[u8]) -> (r: Result<ChunkHash, CasError>)
        requires
            old(self).store().wf(),
            old(self).store().size() + data@.len() <= u64::MAX,
        ensures
            final(self).count() == (if old(self).count() == usize::MAX { 0 } else { old(self).count() + 1 }),
            final(self).enospc() == old(self).enospc(),
            final(self).eio_on_read() == old(self).eio_on_read(),
            final(self).eio_on_write() == old(self).eio_on_write(),
            final(self).corruption() == old(self).corruption(),
            final(self).threshold() == old(self).threshold(),
            old(self).enospc() ==> final(self).store() == old(self).store() && (r matches Err(CasError::Io(m)) && m@ == enospc_text()),
            !old(self).enospc() && old(self).eio_on_write() ==> final(self).store() == old(self).store() && (r matches Err(
                CasError::Io(m),
            ) && m@ == eio_text()),
            !old(self).enospc() && !old(self).eio_on_write() && old(self).count() >= old(self).threshold() ==> final(self).store()
                == old(self).store() && (r matches Err(CasError::Io(m)) && m@ == after_n_text()),
            !old(self).enospc() && !old(self).eio_on_write() && old(self).count() < old(self).threshold() ==> put_result(
                old(self).store(),
                final(self).store(),
                data@,
                r,
            ),
    {
        let count = self.put_count;
        self.put_count = count.wrapping_add(1);
        if self.inject_enospc {
            return Err(io_error("No space left on device (ENOSPC injected)"));
        }
        if self.inject_eio_on_write {
            return Err(io_error("Input/output error (EIO injected)"));
        }
        if count >= self.fail_after_n_puts {
            return Err(io_error("Injected failure after N puts"));
        }
        self.inner.put(data)
    }

    /// A read, given what the chunk's file holds (`None` where there is no file): an injected
    /// I/O error fails first; then the store's own read; then, with corruption injected, an
    /// integrity error naming the hash of the bytes with the first one incremented.
    pub fn get(&self, hash: &ChunkHash, file: Option<&[u8]>) -> (r: Result<Vec<u8>, CasError>)
        ensures
            self.eio_on_read() ==> (r matches Err(CasError::Io(m)) && m@ == eio_text()),
            !self.eio_on_read() && file is None ==> (r matches Err(CasError::NotFound(h)) && h@ == hex_encode(hash.0@)),
            !self.eio_on_read() && file is Some && self.store().settings().max_size > 0 && digest_of(file->0@) != hash.0@ ==> (r matches Err(
                CasError::IntegrityError { expected: e, actual: a },
            ) && e@ == hex_encode(hash.0@) && a@ == hex_encode(digest_of(file->0@))),
            !self.eio_on_read() && file is Some && (self.store().settings().max_size == 0 || digest_of(file->0@) == hash.0@)
                ==> if self.corruption() {
                r matches Err(CasError::IntegrityError { expected: e, actual: a }) && e@ == hex_encode(hash.0@) && a@ == hex_encode(
                    digest_of(corrupted(file->0@)),
                )
            } else {
                r is Ok && r->Ok_0@ == file->0@
            },
    {
        if self.inject_eio_on_read {
            return Err(io_error("Input/output error (EIO injected)"));
        }
        let read = self.inner.get(hash, file);
        match read {
            Err(e) => Err(e),
            Ok(bytes) => {
                if self.inject_corruption {
                    let mut bad = bytes;
                    if bad.len() > 0 {
                        let first = bad[0].wrapping_add(1);
                        bad.set(0, first);
                    }
                    proof {
                        assert(bad@ =~= corrupted(file.unwrap()@));
                    }
                    let actual = ChunkHash::from_bytes(bad.as_slice());
                    Err(CasError::IntegrityError { expected: hash.as_hex(), actual: actual.as_hex() })
                } else {
                    Ok(bytes)
                }
            },
        }
    }

    /// Whether a chunk with this hash is stored.
    pub fn has_chunk(&self, hash: &ChunkHash) -> (r: bool)
        requires
            self.store().wf(),
        ensures
            r == self.store()@.contains_key(hash.0@),
    {
        self.inner.has_chunk(hash)
    }

    /// A delete: an injected I/O error fails and changes nothing; otherwise the store's own
    /// delete.
    pub fn delete(&mut self, hash: &ChunkHash) -> (r: Result<(), CasError>)
        requires
            old(self).store().wf(),
        ensures
            final(self).enospc() == old(self).enospc(),
            final(self).eio_on_read() == old(self).eio_on_read(),
            final(self).eio_on_write() == old(self).eio_on_write(),
            final(self).corruption() == old(self).corruption(),
            final(self).threshold() == old(self).threshold(),
            final(self).count() == old(self).count(),
            old(self).eio_on_write() ==> final(self).store() == old(self).store() && (r matches Err(CasError::Io(m)) && m@ == eio_text()),
            !old(self).eio_on_write() ==> r is Ok && final(self).store().wf() && final(self).store()@ == old(self).store()@.remove(hash.0@)
                && final(self).store().settings() == old(self).store().settings() && final(self).store().size() == old(self).store().size()
                - (if old(self).store()@.contains_key(hash.0@) { old(self).store()@[hash.0@] as int } else { 0 }),
    {
        if self.inject_eio_on_write {
            return Err(io_error("Input/output error (EIO injected)"));
        }
        self.inner.delete(hash);
        Ok(())
    }

    pub fn current_size(&self) -> (r: u64)
        ensures
            r == self.store().size(),
    {
        self.inner.current_size()
    }

    pub fn max_size(&self) -> (r: u64)
        ensures
            r == self.store().settings().max_size,
    {
        self.inner.max_size()
    }

    /// The hashes of the stored chunks, each once.
    pub fn list_chunks(&self) -> (r: Vec<ChunkHash>)
        requires
            self.store().wf(),
        ensures
            r@.len() == self.store()@.dom().len(),
            forall|k: Seq<u8>| self.store()@.contains_key(k) <==> exists|i: int| 0 <= i < r@.len() && (#[trigger] r@[i]).0@ == k,
    {
        self.inner.list_chunks()
    }

    pub fn dedup_stats(&self) -> (r: DedupStats)
        requires
            self.store().wf(),
        ensures
            r.chunks_stored == self.store()@.dom().len(),
            r.chunks_unique == self.store()@.dom().len(),
            r.size_bytes == self.store().size(),
            r.size_limit_bytes == self.store().settings().max_size,
    {
        self.inner.dedup_stats()
    }

    /// The wrapped store.
    pub fn inner(&self) -> (r: &CasStore)
        ensures
            *r == self.store(),
    {
        &self.inner
    }
}

} // verus!

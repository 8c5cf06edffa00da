//! Content-addressed chunk store: where a chunk lives, when a write is admitted, and the
//! integrity check on read. The files, the index and the running size are kept by the caller.
use vstd::prelude::*;

use crate::hexfmt::hex_encode;
use crate::text::{append_str, extend_chars, to_chars};
use crate::types::{digest_of, ChunkHash};

verus! {

/// Largest store size when none is configured: 10 GiB.
pub const DEFAULT_MAX_SIZE: u64 = 10_737_418_240;

/// Directory levels of two hex digits each above a chunk file.
pub const DEFAULT_SHARD_LEVELS: u8 = 2;

/// Where a chunk's bytes are, and how many there are.
#[derive(Debug, Clone)]
pub struct ChunkLocation {
    pub path: String,
    pub size: u32,
}

/// A chunk within a file: its hash, where it starts and how long it is.
#[derive(Debug, Clone, Copy)]
pub struct ChunkRef {
    pub hash: ChunkHash,
    pub offset: u64,
    pub size: u32,
}

/// Settings of a chunk store.
#[derive(Debug, Clone)]
pub struct CasConfig {
    pub chunks_dir: String,
    /// Largest total size in bytes; 0 for no limit.
    pub max_size: u64,
    pub shard_levels: u8,
}

/// Counts of a chunk store.
#[derive(Debug, Clone, Copy)]
pub struct DedupStats {
    pub chunks_stored: u64,
    pub chunks_unique: u64,
    pub size_bytes: u64,
    pub size_limit_bytes: u64,
}

/// Why a store operation failed.
#[derive(Debug, Clone)]
pub enum CasError {
    Io(String),
    Sled(String),
    NotFound(String),
    IntegrityError { expected: String, actual: String },
    Serialization(String),
    StoreFull { current: u64, max: u64 },
}

/// `base` with one relative component added, as a path push does: a `/` goes between them
/// unless `base` is empty or already ends with one.
pub open spec fn path_join(base: Seq<char>, comp: Seq<char>) -> Seq<char> {
    if base.len() == 0 || base.last() == '/' {
        base + comp
    } else {
        base + seq!['/'] + comp
    }
}

/// The directory of a chunk after `k` shard levels: each adds the next two hex digits.
pub open spec fn shard_dir(base: Seq<char>, hex: Seq<char>, k: nat) -> Seq<char>
    decreases k,
{
    if k == 0 {
        base
    } else {
        let prev = shard_dir(base, hex, (k - 1) as nat);
        let start = 2 * (k - 1);
        if start + 2 <= hex.len() {
            path_join(prev, hex.subrange(start, start + 2))
        } else {
            prev
        }
    }
}

/// The file of a chunk: its shard directories under the chunks directory, then its hex name.
pub open spec fn chunk_path_spec(config: CasConfig, hash: ChunkHash) -> Seq<char> {
    let hex = hex_encode(hash.0@);
    path_join(shard_dir(config.chunks_dir@, hex, config.shard_levels as nat), hex)
}

/// Whether a write of `len` bytes fits: always without a limit, else while the new total
/// stays within it.
pub open spec fn admits(current: u64, len: u64, max: u64) -> bool {
    max == 0 || current + len <= max
}

fn join_into(out: &mut Vec<char>, comp: &[char])
    ensures
        final(out)@ == path_join(old(out)@, comp@),
{
    if out.len() == 0 || out[out.len() - 1] == '/' {
        extend_chars(out, comp);
    } else {
        out.push('/');
        extend_chars(out, comp);
    }
}

fn slice_pair(hex: &Vec<char>, start: usize) -> (r: Vec<char>)
    requires
        start + 2 <= hex.len(),
    ensures
        r@ == hex@.subrange(start as int, start + 2),
{
    let mut v: Vec<char> = Vec::new();
    v.push(hex[start]);
    v.push(hex[start + 1]);
    proof {
        assert(v@ =~= hex@.subrange(start as int, start + 2));
    }
    v
}

impl CasConfig {
    /// The default settings under a cache directory: `musicfs/chunks` beneath it, 10 GiB, two
    /// shard levels.
    pub fn under_cache_dir(cache_dir: &str) -> (r: Self)
        ensures
            r.chunks_dir@ == path_join(path_join(cache_dir@, "musicfs"@), "chunks"@),
            r.max_size == DEFAULT_MAX_SIZE,
            r.shard_levels == DEFAULT_SHARD_LEVELS,
    {
        let mut p = to_chars(cache_dir);
        let a = to_chars("musicfs");
        join_into(&mut p, a.as_slice());
        let b = to_chars("chunks");
        join_into(&mut p, b.as_slice());
        CasConfig { chunks_dir: crate::text::from_chars(p.as_slice()), max_size: DEFAULT_MAX_SIZE, shard_levels: DEFAULT_SHARD_LEVELS }
    }

    /// Where the chunk with this hash is stored.
    pub fn chunk_path(&self, hash: &ChunkHash) -> (r: String)
        ensures
            r@ == chunk_path_spec(*self, *hash),
    {
        let hex_s = hash.as_hex();
        let hex = to_chars(hex_s.as_str());
        let mut p = to_chars(self.chunks_dir.as_str());
        let levels = self.shard_levels as usize;
        let mut i: usize = 0;
        while i < levels
            invariant
                i <= levels,
                levels == self.shard_levels as nat,
                hex@ == hex_encode(hash.0@),
                p@ == shard_dir(self.chunks_dir@, hex@, i as nat),
            decreases levels - i,
        {
            let start = i * 2;
            if start + 2 <= hex.len() {
                let pair = slice_pair(&hex, start);
                join_into(&mut p, pair.as_slice());
            }
            i = i + 1;
        }
        join_into(&mut p, hex.as_slice());
        crate::text::from_chars(p.as_slice())
    }
}

/// What a put does once the chunk's path is known.
#[derive(Debug, Clone, Copy, PartialEq, Eq, Structural)]
pub enum PutStep {
    /// The chunk is stored already: nothing to write.
    DedupHit,
    /// Write the chunk, index it, and add its length to the running size.
    Write,
}

/// The decision of a put: a chunk whose file exists is a hit; else the write must fit under
/// the limit, or the store is full.
pub fn put_step(exists: bool, current: u64, len: u64, max: u64) -> (r: Result<PutStep, CasError>)
    ensures
        exists ==> r == Ok::<PutStep, CasError>(PutStep::DedupHit),
        !exists && admits(current, len, max) ==> r == Ok::<PutStep, CasError>(PutStep::Write),
        !exists && !admits(current, len, max) ==> (r matches Err(CasError::StoreFull { current: c, max: m }) && c == current && m == max),
{
    if exists {
        return Ok(PutStep::DedupHit);
    }
    if max > 0 && current as u128 + len as u128 > max as u128 {
        return Err(CasError::StoreFull { current, max });
    }
    Ok(PutStep::Write)
}

/// The check on a read: the data's hash must be the one asked for.
pub fn verify_integrity(expected: &ChunkHash, data: &[u8]) -> (r: Result<(), CasError>)
    ensures
        r is Ok <==> digest_of(data@) == expected.0@,
        digest_of(data@) != expected.0@ ==> (r matches Err(CasError::IntegrityError { expected: e, actual: a }) && e@ == hex_encode(expected.0@)
            && a@ == hex_encode(digest_of(data@))),
{
    let actual = ChunkHash::from_bytes(data);
    if actual == *expected {
        Ok(())
    } else {
        Err(CasError::IntegrityError { expected: expected.as_hex(), actual: actual.as_hex() })
    }
}

/// The hash an index key stands for: keys of exactly eight bytes, others are skipped.
pub fn chunk_hash_of_key(key: &[u8]) -> (r: Option<ChunkHash>)
    ensures
        key@.len() == 8 <==> r is Some,
        r matches Some(h) ==> h.0@ == key@,
{
    if key.len() != 8 {
        return None;
    }
    let arr = [key[0], key[1], key[2], key[3], key[4], key[5], key[6], key[7]];
    proof {
        assert(arr@ =~= key@);
    }
    Some(ChunkHash(arr))
}

/// The counts of a store with `chunks` indexed chunks: each stored chunk is unique.
pub fn dedup_stats(chunks: u64, size_bytes: u64, max_size: u64) -> (r: DedupStats)
    ensures
        r.chunks_stored == chunks,
        r.chunks_unique == chunks,
        r.size_bytes == size_bytes,
        r.size_limit_bytes == max_size,
{
    DedupStats { chunks_stored: chunks, chunks_unique: chunks, size_bytes, size_limit_bytes: max_size }
}

/// The display text of a store error.
pub open spec fn cas_error_text(e: CasError) -> Seq<char> {
    match e {
        CasError::Io(m) => "IO error: "@ + m@,
        CasError::Sled(m) => "Sled error: "@ + m@,
        CasError::NotFound(m) => "Chunk not found: "@ + m@,
        CasError::IntegrityError { expected, actual } => "Integrity error: expected "@ + expected@ + ", got "@ + actual@,
        CasError::Serialization(m) => "Serialization error: "@ + m@,
        CasError::StoreFull { current, max } => "Store full: "@ + crate::numtext::decimal(current as nat) + " / "@
            + crate::numtext::decimal(max as nat) + " bytes"@,
    }
}

impl CasError {
    /// The error's message, as its display text would read.
    pub fn message(&self) -> (r: String)
        ensures
            r@ == cas_error_text(*self),
    {
        match self {
            CasError::Io(m) => {
                let mut s = "IO error: ".to_owned();
                append_str(&mut s, m.as_str());
                s
            },
            CasError::Sled(m) => {
                let mut s = "Sled error: ".to_owned();
                append_str(&mut s, m.as_str());
                s
            },
            CasError::NotFound(m) => {
                let mut s = "Chunk not found: ".to_owned();
                append_str(&mut s, m.as_str());
                s
            },
            CasError::IntegrityError { expected, actual } => {
                let mut s = "Integrity error: expected ".to_owned();
                append_str(&mut s, expected.as_str());
                append_str(&mut s, ", got ");
                append_str(&mut s, actual.as_str());
                s
            },
            CasError::Serialization(m) => {
                let mut s = "Serialization error: ".to_owned();
                append_str(&mut s, m.as_str());
                s
            },
            CasError::StoreFull { current, max } => {
                let mut s = "Store full: ".to_owned();
                crate::numtext::push_decimal(&mut s, *current);
                append_str(&mut s, " / ");
                crate::numtext::push_decimal(&mut s, *max);
                append_str(&mut s, " bytes");
                s
            },
        }
    }
}

} // verus!

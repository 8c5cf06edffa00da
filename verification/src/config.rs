//! Configuration values and their defaults.
use vstd::prelude::*;

use crate::text::{append_str, chars_eq, to_chars};
use crate::types::OriginId;

verus! {

/// The kind of storage an origin is.
#[derive(Debug, Clone, Copy, PartialEq, Eq, Hash, Structural)]
pub enum OriginType {
    Local,
    Nfs,
    Smb,
    S3,
    Sftp,
}

/// Whether an origin is enabled when its configuration does not say.
pub fn default_enabled() -> (r: bool)
    ensures
        r,
{
    true
}

pub fn default_metadata_cache_mb() -> (r: u64)
    ensures
        r == 100,
{
    100
}

pub fn default_content_cache_gb() -> (r: u64)
    ensures
        r == 10,
{
    10
}

pub fn default_check_interval_secs() -> (r: u64)
    ensures
        r == 30,
{
    30
}

pub fn default_timeout_ms() -> (r: u64)
    ensures
        r == 5000,
{
    5000
}

pub fn default_unhealthy_threshold() -> (r: u32)
    ensures
        r == 3,
{
    3
}

/// The default log directory, `/var/log/musicfs`.
pub fn default_log_dir() -> (r: String)
    ensures
        r@ == "/var/log/musicfs"@,
{
    "/var/log/musicfs".to_owned()
}

/// The default log filter, `musicfs=info,warn`.
pub fn default_log_level() -> (r: String)
    ensures
        r@ == "musicfs=info,warn"@,
{
    "musicfs=info,warn".to_owned()
}

pub fn default_true() -> (r: bool)
    ensures
        r,
{
    true
}

/// Cache sizes.
#[derive(Debug, Clone)]
pub struct CacheConfig {
    pub metadata_cache_mb: u64,
    pub content_cache_gb: u64,
}

impl Default for CacheConfig {
    /// 100 MB of metadata cache and 10 GB of content cache.
    fn default() -> (r: Self)
        ensures
            r.metadata_cache_mb == 100,
            r.content_cache_gb == 10,
    {
        CacheConfig { metadata_cache_mb: default_metadata_cache_mb(), content_cache_gb: default_content_cache_gb() }
    }
}

/// The threshold of the first pair for this origin type.
pub open spec fn threshold_in(pairs: Seq<(OriginType, u32)>, t: OriginType) -> Option<u32>
    decreases pairs.len(),
{
    if pairs.len() == 0 {
        None
    } else if pairs[0].0 == t {
        Some(pairs[0].1)
    } else {
        threshold_in(pairs.drop_first(), t)
    }
}

/// No origin type has two thresholds.
pub open spec fn distinct_types(pairs: Seq<(OriginType, u32)>) -> bool {
    forall|i: int, j: int| 0 <= i < j < pairs.len() ==> (#[trigger] pairs[i]).0 != (#[trigger] pairs[j]).0
}

proof fn lemma_threshold_in_distinct(pairs: Seq<(OriginType, u32)>, i: int)
    requires
        distinct_types(pairs),
        0 <= i < pairs.len(),
    ensures
        threshold_in(pairs, pairs[i].0) == Some(pairs[i].1),
    decreases pairs.len(),
{
    if i > 0 {
        let t = pairs.drop_first();
        assert(pairs[0].0 != pairs[i].0);
        assert(t[i - 1] == pairs[i]);
        assert(distinct_types(t)) by {
            assert forall|a: int, b: int| 0 <= a < b < t.len() implies (#[trigger] t[a]).0 != (#[trigger] t[b]).0 by {
                assert(t[a] == pairs[a + 1] && t[b] == pairs[b + 1]);
            }
        }
        lemma_threshold_in_distinct(t, i - 1);
    }
}

/// Health checking: how often, how long to wait, and how many failures make an origin
/// unhealthy, in general and per origin type.
#[derive(Debug, Clone)]
pub struct HealthConfig {
    pub check_interval_secs: u64,
    pub timeout_ms: u64,
    pub unhealthy_threshold: u32,
    pub per_origin_thresholds: Vec<(OriginType, u32)>,
}

impl Default for HealthConfig {
    /// Every 30 s, 5 s timeout, 3 failures; a local origin is unhealthy after 1 failure and
    /// every other kind after 3.
    fn default() -> (r: Self)
        ensures
            r.check_interval_secs == 30,
            r.timeout_ms == 5000,
            r.unhealthy_threshold == 3,
            r.wf(),
            r.per_origin_thresholds@ == seq![
                (OriginType::Local, 1u32),
                (OriginType::Nfs, 3u32),
                (OriginType::Smb, 3u32),
                (OriginType::S3, 3u32),
                (OriginType::Sftp, 3u32),
            ],
    {
        let mut per_origin: Vec<(OriginType, u32)> = Vec::new();
        per_origin.push((OriginType::Local, 1));
        per_origin.push((OriginType::Nfs, 3));
        per_origin.push((OriginType::Smb, 3));
        per_origin.push((OriginType::S3, 3));
        per_origin.push((OriginType::Sftp, 3));
        proof {
            assert(per_origin@ =~= seq![
                (OriginType::Local, 1u32),
                (OriginType::Nfs, 3u32),
                (OriginType::Smb, 3u32),
                (OriginType::S3, 3u32),
                (OriginType::Sftp, 3u32),
            ]);
        }
        HealthConfig {
            check_interval_secs: default_check_interval_secs(),
            timeout_ms: default_timeout_ms(),
            unhealthy_threshold: default_unhealthy_threshold(),
            per_origin_thresholds: per_origin,
        }
    }
}

impl HealthConfig {
    /// Each origin type has at most one threshold of its own.
    pub open spec fn wf(&self) -> bool {
        distinct_types(self.per_origin_thresholds@)
    }

    /// The failure threshold for an origin type: its own, or the general one.
    pub fn threshold_for(&self, origin_type: OriginType) -> (r: u32)
        ensures
            r == match threshold_in(self.per_origin_thresholds@, origin_type) {
                Some(n) => n,
                None => self.unhealthy_threshold,
            },
            self.wf() ==> forall|i: int|
                0 <= i < self.per_origin_thresholds@.len() && (#[trigger] self.per_origin_thresholds@[i]).0 == origin_type ==> r
                    == self.per_origin_thresholds@[i].1,
    {
        proof {
            if self.wf() {
                assert forall|i: int|
                    0 <= i < self.per_origin_thresholds@.len() && (#[trigger] self.per_origin_thresholds@[i]).0
                        == origin_type implies threshold_in(self.per_origin_thresholds@, origin_type) == Some(
                    self.per_origin_thresholds@[i].1,
                ) by {
                    lemma_threshold_in_distinct(self.per_origin_thresholds@, i);
                }
            }
        }
        let ghost s = self.per_origin_thresholds@;
        let mut i: usize = 0;
        proof {
            assert(s.skip(0) =~= s);
        }
        while i < self.per_origin_thresholds.len()
            invariant
                i <= s.len(),
                s == self.per_origin_thresholds@,
                threshold_in(s, origin_type) == threshold_in(s.skip(i as int), origin_type),
            decreases s.len() - i,
        {
            proof {
                assert(s.skip(i as int).drop_first() =~= s.skip(i + 1));
                assert(s.skip(i as int)[0] == s[i as int]);
            }
            if self.per_origin_thresholds[i].0 == origin_type {
                return self.per_origin_thresholds[i].1;
            }
            i = i + 1;
        }
        self.unhealthy_threshold
    }
}

/// Why the configuration could not be loaded.
#[derive(Debug, Clone)]
pub enum ConfigError {
    Read(String),
    Parse(String),
}

/// The display text of a configuration error.
pub open spec fn config_error_text(e: ConfigError) -> Seq<char> {
    match e {
        ConfigError::Read(m) => "Failed to read config: "@ + m@,
        ConfigError::Parse(m) => "Failed to parse config: "@ + m@,
    }
}

impl ConfigError {
    /// The error's message, as its display text would read.
    pub fn message(&self) -> (r: String)
        ensures
            r@ == config_error_text(*self),
    {
        match self {
            ConfigError::Read(m) => {
                let mut s = "Failed to read config: ".to_owned();
                append_str(&mut s, m.as_str());
                s
            },
            ConfigError::Parse(m) => {
                let mut s = "Failed to parse config: ".to_owned();
                append_str(&mut s, m.as_str());
                s
            },
        }
    }
}

/// The id of the configured origin named `id`, if one is: the lookup behind
/// `Config::origin_id`.
pub fn find_origin_id(origin_ids: &Vec<String>, id: &str) -> (r: Option<OriginId>)
    ensures
        match r {
            Some(o) => o@ == id@ && exists|i: int| 0 <= i < origin_ids@.len() && #[trigger] origin_ids@[i]@ == id@,
            None => forall|i: int| 0 <= i < origin_ids@.len() ==> #[trigger] origin_ids@[i]@ != id@,
        },
{
    let want = to_chars(id);
    let mut i: usize = 0;
    while i < origin_ids.len()
        invariant
            i <= origin_ids@.len(),
            want@ == id@,
            forall|j: int| 0 <= j < i ==> #[trigger] origin_ids@[j]@ != id@,
        decreases origin_ids@.len() - i,
    {
        let have = to_chars(origin_ids[i].as_str());
        if chars_eq(have.as_slice(), want.as_slice()) {
            return Some(OriginId::new(id));
        }
        i = i + 1;
    }
    None
}


/// An origin's configuration as the mount plan reads it: its id, kind, whether it is
/// enabled, and its `path` setting where that is a text.
#[derive(Debug, Clone)]
pub struct OriginEntry {
    pub id: String,
    pub origin_type: OriginType,
    pub enabled: bool,
    pub path: Option<String>,
}

/// The kinds of origin that are served from a directory: local, NFS and SMB (S3 and SFTP
/// origins are stubs).
pub open spec fn served_kind(t: OriginType) -> bool {
    t == OriginType::Local || t == OriginType::Nfs || t == OriginType::Smb
}

/// The origins a mount serves, as (id, kind, root directory), in configuration order: every
/// enabled local, NFS and SMB origin; disabled origins and the stub kinds are passed over.
/// The first enabled served origin without a path makes the plan fail, naming its kind.
pub open spec fn origin_plan_spec(os: Seq<OriginEntry>) -> Result<Seq<(Seq<char>, OriginType, Seq<char>)>, OriginType>
    decreases os.len(),
{
    if os.len() == 0 {
        Ok(Seq::empty())
    } else {
        match origin_plan_spec(os.drop_last()) {
            Err(t) => Err(t),
            Ok(v) => {
                let o = os.last();
                if !o.enabled || !served_kind(o.origin_type) {
                    Ok(v)
                } else {
                    match o.path {
                        Some(p) => Ok(v.push((o.id@, o.origin_type, p@))),
                        None => Err(o.origin_type),
                    }
                }
            },
        }
    }
}

/// The name of an origin kind as configurations write it.
pub open spec fn kind_name(t: OriginType) -> Seq<char> {
    match t {
        OriginType::Local => "local"@,
        OriginType::Nfs => "nfs"@,
        OriginType::Smb => "smb"@,
        OriginType::S3 => "s3"@,
        OriginType::Sftp => "sftp"@,
    }
}

/// The refusal of an enabled origin of this kind that names no path.
pub open spec fn missing_path_text(t: OriginType) -> Seq<char> {
    "path required for "@ + kind_name(t) + " origin"@
}

/// The name of an origin kind as configurations write it.
pub fn origin_kind_name(t: OriginType) -> (r: &'static str)
    ensures
        r@ == kind_name(t),
{
    match t {
        OriginType::Local => "local",
        OriginType::Nfs => "nfs",
        OriginType::Smb => "smb",
        OriginType::S3 => "s3",
        OriginType::Sftp => "sftp",
    }
}

/// The origins a mount serves: each enabled local, NFS and SMB origin with its kind and root
/// directory, or the refusal of the first such origin that names no path.
pub fn origin_plan(origins: &[OriginEntry]) -> (r: Result<Vec<(OriginId, OriginType, String)>, String>)
    ensures
        match r {
            Ok(v) => origin_plan_spec(origins@) == Ok::<Seq<(Seq<char>, OriginType, Seq<char>)>, OriginType>(
                v@.map_values(|e: (OriginId, OriginType, String)| (e.0@, e.1, e.2@)),
            ),
            Err(m) => origin_plan_spec(origins@) is Err && m@ == missing_path_text(origin_plan_spec(origins@)->Err_0),
        },
{
    let mut out: Vec<(OriginId, OriginType, String)> = Vec::new();
    let mut i: usize = 0;
    proof {
        assert(origins@.take(0) =~= Seq::<OriginEntry>::empty());
        assert(out@.map_values(|e: (OriginId, OriginType, String)| (e.0@, e.1, e.2@)) =~= Seq::<
            (Seq<char>, OriginType, Seq<char>),
        >::empty());
    }
    while i < origins.len()
        invariant
            i <= origins@.len(),
            origin_plan_spec(origins@.take(i as int)) == Ok::<Seq<(Seq<char>, OriginType, Seq<char>)>, OriginType>(
                out@.map_values(|e: (OriginId, OriginType, String)| (e.0@, e.1, e.2@)),
            ),
        decreases origins@.len() - i,
    {
        let o = &origins[i];
        proof {
            assert(origins@.take(i + 1).drop_last() =~= origins@.take(i as int));
            assert(origins@.take(i + 1).last() == origins@[i as int]);
        }
        let served = match o.origin_type {
            OriginType::Local | OriginType::Nfs | OriginType::Smb => true,
            _ => false,
        };
        if o.enabled && served {
            match &o.path {
                Some(p) => {
                    let ghost before = out@;
                    out.push((OriginId(o.id.clone()), o.origin_type, p.clone()));
                    proof {
                        assert(out@.map_values(|e: (OriginId, OriginType, String)| (e.0@, e.1, e.2@)) =~= before.map_values(
                            |e: (OriginId, OriginType, String)| (e.0@, e.1, e.2@),
                        ).push((o.id@, o.origin_type, p@)));
                    }
                },
                None => {
                    proof {
                        lemma_plan_fails_later(origins@, i as int + 1, o.origin_type);
                    }
                    let mut m = "path required for ".to_owned();
                    append_str(&mut m, origin_kind_name(o.origin_type));
                    append_str(&mut m, " origin");
                    return Err(m);
                },
            }
        }
        i = i + 1;
    }
    proof {
        assert(origins@.take(origins@.len() as int) =~= origins@);
    }
    Ok(out)
}

/// Once a prefix of the origins fails to plan, every longer prefix fails the same way.
proof fn lemma_plan_fails_later(os: Seq<OriginEntry>, k: int, t: OriginType)
    requires
        0 <= k <= os.len(),
        origin_plan_spec(os.take(k)) == Err::<Seq<(Seq<char>, OriginType, Seq<char>)>, OriginType>(t),
    ensures
        origin_plan_spec(os) == Err::<Seq<(Seq<char>, OriginType, Seq<char>)>, OriginType>(t),
    decreases os.len() - k,
{
    if k < os.len() {
        assert(os.take(k + 1).drop_last() =~= os.take(k));
        lemma_plan_fails_later(os, k + 1, t);
    } else {
        assert(os.take(k) =~= os);
    }
}

} // verus!

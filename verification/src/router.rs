//! Choosing which origin serves a read: by health, then priority, then observed latency.
use vstd::prelude::*;

use std::time::Instant;
use vstd::relations::{sorted_by, total_ordering};

use crate::text::chars_eq;
use crate::types::OriginId;

verus! {

#[verifier::external_type_specification]
#[verifier::external_body]
pub struct ExInstant(std::time::Instant);

/// `Instant::now`: nothing is claimed of the instant.
#[verifier::external_body]
fn instant_now() -> Instant {
    Instant::now()
}

/// `Instant::clone`: the type is `Copy`, so the clone is the same instant.
pub assume_specification[ <std::time::Instant as Clone>::clone ](t: &std::time::Instant) -> (r: std::time::Instant)
    ensures
        r == *t,
;

/// The number of latency samples kept.
pub const MAX_SAMPLES: usize = 100;

pub open spec fn le_u64() -> spec_fn(u64, u64) -> bool {
    |a: u64, b: u64| a <= b
}

/// The samples once one is added: the oldest is dropped when there are more than 100.
pub open spec fn window(s: Seq<u64>) -> Seq<u64> {
    if s.len() > 100 {
        s.drop_first()
    } else {
        s
    }
}

/// The value of the first pair with this key.
pub open spec fn first_val<V>(s: Seq<(Seq<char>, V)>, k: Seq<char>) -> Option<V>
    decreases s.len(),
{
    if s.len() == 0 {
        None
    } else if s[0].0 == k {
        Some(s[0].1)
    } else {
        first_val(s.drop_first(), k)
    }
}

/// The median of some samples: the one at half their count in sorted order.
pub open spec fn median_of(s: Seq<u64>) -> u64 {
    s.sort_by(le_u64())[(s.len() / 2) as int]
}

/// Latency samples of one origin and their median and 99th percentile.
#[derive(Debug, Clone)]
pub struct LatencyStats {
    pub samples: Vec<u64>,
    pub p50_ms: u64,
    pub p99_ms: u64,
    pub last_update: Option<Instant>,
}

impl Default for LatencyStats {
    fn default() -> (r: Self)
        ensures
            r.samples@.len() == 0,
            r.p50_ms == 0,
            r.p99_ms == 0,
            r.last_update is None,
    {
        LatencyStats { samples: Vec::new(), p50_ms: 0, p99_ms: 0, last_update: None }
    }
}

proof fn lemma_le_total()
    ensures
        total_ordering(le_u64()),
{
}

/// A sorted copy of the samples.
fn sorted_copy(s: &Vec<u64>) -> (r: Vec<u64>)
    ensures
        r@ == s@.sort_by(le_u64()),
{
    let mut out: Vec<u64> = Vec::new();
    let mut i: usize = 0;
    proof {
        assert(out@ =~= s@.subrange(0, 0));
    }
    while i < s.len()
        invariant
            i <= s@.len(),
            sorted_by(out@, le_u64()),
            out@.to_multiset() == s@.subrange(0, i as int).to_multiset(),
        decreases s@.len() - i,
    {
        let x = s[i];
        let mut pos: usize = 0;
        while pos < out.len() && out[pos] <= x
            invariant
                pos <= out@.len(),
                forall|j: int| 0 <= j < pos ==> out@[j] <= x,
            decreases out@.len() - pos,
        {
            pos = pos + 1;
        }
        let ghost before = out@;
        out.insert(pos, x);
        proof {
            broadcast use vstd::seq_lib::to_multiset_insert, vstd::seq_lib::to_multiset_build;
            assert(s@.subrange(0, i + 1) =~= s@.subrange(0, i as int).push(x));
            assert forall|a: int, b: int| 0 <= a < b < out@.len() implies #[trigger] (le_u64())(out@[a], out@[b]) by {
                if b < pos {
                    assert((le_u64())(before[a], before[b]));
                } else if b == pos {
                    assert(out@[a] == before[a]);
                } else if a < pos {
                    assert(out@[a] == before[a]);
                    assert(out@[b] == before[b - 1]);
                    if pos < before.len() {
                        assert(x < before[pos as int]);
                        if b - 1 > pos {
                            assert((le_u64())(before[pos as int], before[b - 1]));
                        }
                    }
                } else if a == pos {
                    assert(out@[b] == before[b - 1]);
                    assert(x < before[pos as int]);
                    if b - 1 > pos {
                        assert((le_u64())(before[pos as int], before[b - 1]));
                    }
                } else {
                    assert((le_u64())(before[a - 1], before[b - 1]));
                }
            }
        }
        i = i + 1;
    }
    proof {
        assert(s@.subrange(0, s@.len() as int) =~= s@);
        lemma_le_total();
        s@.lemma_sort_by_ensures(le_u64());
        vstd::seq_lib::lemma_sorted_unique(out@, s@.sort_by(le_u64()), le_u64());
    }
    out
}

impl LatencyStats {
    /// Adds a sample (keeping the last 100) and recomputes the median (the sample at half
    /// the count in sorted order) and the 99th percentile (at 99% of the count).
    pub fn record(&mut self, latency_ms: u64)
        requires
            old(self).samples@.len() < usize::MAX,
        ensures
            final(self).samples@ == window(old(self).samples@.push(latency_ms)),
            final(self).p50_ms == final(self).samples@.sort_by(le_u64())[(final(self).samples@.len() / 2) as int],
            final(self).p99_ms == final(self).samples@.sort_by(le_u64())[(final(self).samples@.len() * 99 / 100) as int],
            final(self).last_update is Some,
    {
        self.samples.push(latency_ms);
        if self.samples.len() > MAX_SAMPLES {
            self.samples.remove(0);
            proof {
                assert(self.samples@ =~= window(old(self).samples@.push(latency_ms)));
            }
        }
        let sorted = sorted_copy(&self.samples);
        proof {
            lemma_le_total();
            self.samples@.lemma_sort_by_ensures(le_u64());
            vstd::seq_lib::to_multiset_len(self.samples@);
            vstd::seq_lib::to_multiset_len(sorted@);
            assert(sorted@.len() == self.samples@.len());
        }
        let n = sorted.len();
        let p50_idx = n / 2;
        let p99_wide: u128 = (n as u128 * 99) / 100;
        proof {
            assert((n * 99) / 100 < n) by (nonlinear_arith)
                requires
                    n >= 1,
            ;
        }
        let p99_idx = p99_wide as usize;
        self.p50_ms = sorted[p50_idx];
        self.p99_ms = if p99_idx < n { sorted[p99_idx] } else { self.p50_ms };
        self.last_update = Some(instant_now());
    }
}

/// The origins a health check last found healthy, degraded and unhealthy, and their
/// consecutive failure counts.
#[derive(Debug, Clone)]
pub struct HealthSnapshot {
    pub healthy: Vec<OriginId>,
    pub degraded: Vec<OriginId>,
    pub unhealthy: Vec<OriginId>,
    pub failure_counts: Vec<(OriginId, u32)>,
}

/// No origin id occurs twice among the keys.
pub open spec fn ids_unique<V>(s: Seq<(Seq<char>, V)>) -> bool {
    forall|i: int, j: int| 0 <= i < j < s.len() ==> (#[trigger] s[i]).0 != (#[trigger] s[j]).0
}

proof fn lemma_first_val_unique<V>(s: Seq<(Seq<char>, V)>, i: int)
    requires
        ids_unique(s),
        0 <= i < s.len(),
    ensures
        first_val(s, s[i].0) == Some(s[i].1),
    decreases s.len(),
{
    if i > 0 {
        let t = s.drop_first();
        assert(s[0].0 != s[i].0);
        assert(t[i - 1] == s[i]);
        assert(ids_unique(t)) by {
            assert forall|a: int, b: int| 0 <= a < b < t.len() implies (#[trigger] t[a]).0 != (#[trigger] t[b]).0 by {
                assert(t[a] == s[a + 1] && t[b] == s[b + 1]);
            }
        }
        lemma_first_val_unique(t, i - 1);
    }
}

pub open spec fn ids_view(v: Seq<OriginId>) -> Seq<Seq<char>> {
    v.map_values(|o: OriginId| o@)
}

pub open spec fn counts_view(v: Seq<(OriginId, u32)>) -> Seq<(Seq<char>, u32)> {
    v.map_values(|e: (OriginId, u32)| (e.0@, e.1))
}


fn contains_id(v: &Vec<OriginId>, id: &OriginId) -> (r: bool)
    ensures
        r == ids_view(v@).contains(id@),
{
    let mut i: usize = 0;
    while i < v.len()
        invariant
            i <= v@.len(),
            forall|j: int| 0 <= j < i ==> v@[j]@ != id@,
        decreases v@.len() - i,
    {
        if chars_eq(crate::text::to_chars(v[i].0.as_str()).as_slice(), crate::text::to_chars(id.0.as_str()).as_slice()) {
            proof {
                assert(ids_view(v@)[i as int] == id@);
            }
            return true;
        }
        i = i + 1;
    }
    proof {
        if ids_view(v@).contains(id@) {
            let j = choose|j: int| 0 <= j < ids_view(v@).len() && ids_view(v@)[j] == id@;
            assert(v@[j]@ == id@);
        }
    }
    false
}

impl HealthSnapshot {
    /// Each origin has at most one failure count.
    pub open spec fn wf(&self) -> bool {
        ids_unique(counts_view(self.failure_counts@))
    }

    pub fn is_healthy(&self, id: &OriginId) -> (r: bool)
        ensures
            r == ids_view(self.healthy@).contains(id@),
    {
        contains_id(&self.healthy, id)
    }

    pub fn is_degraded(&self, id: &OriginId) -> (r: bool)
        ensures
            r == ids_view(self.degraded@).contains(id@),
    {
        contains_id(&self.degraded, id)
    }

    /// The recorded failure count of an origin.
    pub fn failure_count(&self, id: &OriginId) -> (r: Option<u32>)
        ensures
            r == first_val(counts_view(self.failure_counts@), id@),
            self.wf() ==> forall|i: int|
                0 <= i < self.failure_counts@.len() && (#[trigger] self.failure_counts@[i]).0@ == id@ ==> r == Some(
                    self.failure_counts@[i].1,
                ),
    {
        proof {
            if self.wf() {
                assert forall|i: int|
                    0 <= i < self.failure_counts@.len() && (#[trigger] self.failure_counts@[i]).0@ == id@ implies first_val(
                    counts_view(self.failure_counts@),
                    id@,
                ) == Some(self.failure_counts@[i].1) by {
                    assert(counts_view(self.failure_counts@)[i] == (self.failure_counts@[i].0@, self.failure_counts@[i].1));
                    lemma_first_val_unique(counts_view(self.failure_counts@), i);
                }
            }
        }
        let ghost s = counts_view(self.failure_counts@);
        let mut i: usize = 0;
        proof {
            assert(s.skip(0) =~= s);
        }
        while i < self.failure_counts.len()
            invariant
                i <= s.len(),
                s == counts_view(self.failure_counts@),
                first_val(s, id@) == first_val(s.skip(i as int), id@),
                self.wf() ==> forall|k: int|
                    0 <= k < self.failure_counts@.len() && (#[trigger] self.failure_counts@[k]).0@ == id@ ==> first_val(s, id@)
                        == Some(self.failure_counts@[k].1),
            decreases s.len() - i,
        {
            proof {
                assert(s.skip(i as int).drop_first() =~= s.skip(i + 1));
                assert(s.skip(i as int)[0] == s[i as int]);
            }
            if chars_eq(
                crate::text::to_chars(self.failure_counts[i].0.0.as_str()).as_slice(),
                crate::text::to_chars(id.0.as_str()).as_slice(),
            ) {
                return Some(self.failure_counts[i].1);
            }
            i = i + 1;
        }
        None
    }
}

pub open spec fn prios_view(v: Seq<(OriginId, u8)>) -> Seq<(Seq<char>, u8)> {
    v.map_values(|e: (OriginId, u8)| (e.0@, e.1))
}

pub open spec fn lats_view(v: Seq<(OriginId, LatencyStats)>) -> Seq<(Seq<char>, u64)> {
    v.map_values(|e: (OriginId, LatencyStats)| (e.0@, e.1.p50_ms))
}

pub open spec fn samples_view(v: Seq<(OriginId, LatencyStats)>) -> Seq<(Seq<char>, Seq<u64>)> {
    v.map_values(|e: (OriginId, LatencyStats)| (e.0@, e.1.samples@))
}


/// Which candidates a selection stage admits: healthy ones (stage 0), degraded ones
/// (stage 1), or all (stage 2).
pub open spec fn admitted(stage: u8, h: HealthSnapshot, c: Seq<char>) -> bool {
    if stage == 0 {
        ids_view(h.healthy@).contains(c)
    } else if stage == 1 {
        ids_view(h.degraded@).contains(c)
    } else {
        true
    }
}



/// Lexicographic order on pairs.
pub open spec fn lex_le(a: (int, int), b: (int, int)) -> bool {
    a.0 < b.0 || (a.0 == b.0 && a.1 <= b.1)
}

/// `i` is the first index among those that `ok` admits whose key is least: the choice of
/// `Iterator::min_by_key` over the admitted candidates.
pub open spec fn first_min(cands: Seq<Seq<char>>, ok: spec_fn(Seq<char>) -> bool, key: spec_fn(Seq<char>) -> (int, int), i: int) -> bool {
    &&& 0 <= i < cands.len()
    &&& ok(cands[i])
    &&& forall|j: int| 0 <= j < cands.len() && ok(#[trigger] cands[j]) ==> lex_le(key(cands[i]), key(cands[j]))
    &&& forall|j: int| 0 <= j < i && ok(#[trigger] cands[j]) ==> !lex_le(key(cands[j]), key(cands[i]))
}

/// What a selection gives: nothing where no candidate is admitted, else the first least one.
pub open spec fn selects(r: Option<OriginId>, cands: Seq<Seq<char>>, ok: spec_fn(Seq<char>) -> bool, key: spec_fn(Seq<char>) -> (int, int)) -> bool {
    match r {
        None => forall|j: int| 0 <= j < cands.len() ==> !ok(#[trigger] cands[j]),
        Some(c) => exists|i: int| first_min(cands, ok, key, i) && c@ == cands[i],
    }
}

/// Origin priorities (lower is preferred) and latency statistics.
#[derive(Debug)]
pub struct Router {
    priorities: Vec<(OriginId, u8)>,
    latency_stats: Vec<(OriginId, LatencyStats)>,
}

impl Router {
    pub closed spec fn prios(&self) -> Seq<(Seq<char>, u8)> {
        prios_view(self.priorities@)
    }

    pub closed spec fn lats(&self) -> Seq<(Seq<char>, u64)> {
        lats_view(self.latency_stats@)
    }

    /// The priority of an origin: as set, or 100.
    pub open spec fn priority_of(&self, id: Seq<char>) -> int {
        match first_val(self.prios(), id) {
            Some(p) => p as int,
            None => 100,
        }
    }

    /// The median latency of an origin: as recorded, or 0.
    pub open spec fn latency_of(&self, id: Seq<char>) -> int {
        match first_val(self.lats(), id) {
            Some(p) => p as int,
            None => 0,
        }
    }

    pub fn new() -> (r: Self)
        ensures
            r.prios().len() == 0,
            r.lats().len() == 0,
            r.samples().len() == 0,
            r.wf(),
    {
        Router { priorities: Vec::new(), latency_stats: Vec::new() }
    }

    fn find_priority(&self, id: &OriginId) -> (r: Option<usize>)
        ensures
            match r {
                Some(i) => i < self.prios().len() && self.prios()[i as int].0 == id@ && first_val(self.prios(), id@) == Some(
                    self.prios()[i as int].1,
                ) && forall|j: int| 0 <= j < i ==> self.prios()[j].0 != id@,
                None => first_val(self.prios(), id@) is None,
            },
    {
        let ghost s = self.prios();
        let mut i: usize = 0;
        proof {
            assert(s.skip(0) =~= s);
        }
        while i < self.priorities.len()
            invariant
                i <= s.len(),
                s == self.prios(),
                first_val(s, id@) == first_val(s.skip(i as int), id@),
                forall|j: int| 0 <= j < i ==> s[j].0 != id@,
            decreases s.len() - i,
        {
            proof {
                assert(s.skip(i as int).drop_first() =~= s.skip(i + 1));
                assert(s.skip(i as int)[0] == s[i as int]);
            }
            if chars_eq(
                crate::text::to_chars(self.priorities[i].0.0.as_str()).as_slice(),
                crate::text::to_chars(id.0.as_str()).as_slice(),
            ) {
                return Some(i);
            }
            i = i + 1;
        }
        None
    }

    /// Sets an origin's priority.
    pub fn set_priority(&mut self, id: OriginId, priority: u8)
        ensures
            first_val(final(self).prios(), id@) == Some(priority),
            forall|k: Seq<char>| k != id@ ==> first_val(#[trigger] final(self).prios(), k) == first_val(old(self).prios(), k),
            final(self).lats() == old(self).lats(),
            final(self).samples() == old(self).samples(),
            old(self).wf() ==> final(self).wf(),
    {
        let ghost before = self.prios();
        let ghost idv = id@;
        match self.find_priority(&id) {
            Some(i) => {
                self.priorities.set(i, (id, priority));
                proof {
                    let after = self.prios();
                    assert(after =~= before.update(i as int, (idv, priority)));
                    lemma_first_val_update(before, i as int, idv, priority);
                }
            },
            None => {
                self.priorities.push((id, priority));
                proof {
                    let after = self.prios();
                    assert(after =~= before.push((idv, priority)));
                    lemma_first_val_push(before, idv, priority);
                }
            },
        }
    }

    /// Forgets an origin's priority and latency statistics.
    pub fn remove_priority(&mut self, id: &OriginId)
        ensures
            forall|k: Seq<char>| k != id@ ==> first_val(#[trigger] final(self).prios(), k) == first_val(old(self).prios(), k),
            first_val(final(self).prios(), id@) is None,
            first_val(final(self).lats(), id@) is None,
            forall|k: Seq<char>| k != id@ ==> first_val(#[trigger] final(self).lats(), k) == first_val(old(self).lats(), k),
            old(self).wf() ==> final(self).wf(),
    {
        let ghost p0 = self.prios();
        let mut kept: Vec<(OriginId, u8)> = Vec::new();
        let mut i: usize = 0;
        proof {
            assert(p0.skip(0) =~= p0);
            assert(prios_view(kept@) =~= Seq::<(Seq<char>, u8)>::empty());
        }
        while i < self.priorities.len()
            invariant
                i <= p0.len(),
                p0 == self.prios(),
                forall|k: Seq<char>| k != id@ ==> first_val(p0, k) == match first_val(prios_view(kept@), k) {
                    Some(v) => Some(v),
                    None => first_val(p0.skip(i as int), k),
                },
                first_val(prios_view(kept@), id@) is None,
            decreases p0.len() - i,
        {
            let e = &self.priorities[i];
            let same = chars_eq(crate::text::to_chars(e.0.0.as_str()).as_slice(), crate::text::to_chars(id.0.as_str()).as_slice());
            let ghost kv = prios_view(kept@);
            proof {
                assert(p0.skip(i as int).drop_first() =~= p0.skip(i + 1));
                assert(p0.skip(i as int)[0] == p0[i as int]);
            }
            if !same {
                kept.push((OriginId(e.0.0.clone()), e.1));
                proof {
                    assert(prios_view(kept@) =~= kv.push(p0[i as int]));
                    lemma_first_val_push_any(kv, p0[i as int].0, p0[i as int].1);
                }
            }
            i = i + 1;
        }
        let ghost l0 = self.lats();
        let mut kept_l: Vec<(OriginId, LatencyStats)> = Vec::new();
        let mut j: usize = 0;
        proof {
            assert(l0.skip(0) =~= l0);
            assert(lats_view(kept_l@) =~= Seq::<(Seq<char>, u64)>::empty());
        }
        while j < self.latency_stats.len()
            invariant
                j <= l0.len(),
                l0 == self.lats(),
                forall|k: Seq<char>| k != id@ ==> first_val(l0, k) == match first_val(lats_view(kept_l@), k) {
                    Some(v) => Some(v),
                    None => first_val(l0.skip(j as int), k),
                },
                first_val(lats_view(kept_l@), id@) is None,
                self.wf() ==> forall|t: int| 0 <= t < kept_l@.len() ==> #[trigger] kept_l@[t].1.samples@.len() <= 100,
            decreases l0.len() - j,
        {
            let e = &self.latency_stats[j];
            let same = chars_eq(crate::text::to_chars(e.0.0.as_str()).as_slice(), crate::text::to_chars(id.0.as_str()).as_slice());
            let ghost kv = lats_view(kept_l@);
            proof {
                assert(l0.skip(j as int).drop_first() =~= l0.skip(j + 1));
                assert(l0.skip(j as int)[0] == l0[j as int]);
            }
            if !same {
                let stats = LatencyStats {
                    samples: e.1.samples.clone(),
                    p50_ms: e.1.p50_ms,
                    p99_ms: e.1.p99_ms,
                    last_update: e.1.last_update,
                };
                kept_l.push((OriginId(e.0.0.clone()), stats));
                proof {
                    assert(lats_view(kept_l@) =~= kv.push(l0[j as int]));
                    lemma_first_val_push_any(kv, l0[j as int].0, l0[j as int].1);
                }
            }
            j = j + 1;
        }
        proof {
            assert(p0.skip(p0.len() as int) =~= Seq::<(Seq<char>, u8)>::empty());
            assert(l0.skip(l0.len() as int) =~= Seq::<(Seq<char>, u64)>::empty());
        }
        self.priorities = kept;
        self.latency_stats = kept_l;
    }
}

pub proof fn lemma_first_val_update<V>(s: Seq<(Seq<char>, V)>, i: int, k: Seq<char>, v: V)
    requires
        0 <= i < s.len(),
        s[i].0 == k,
        forall|j: int| 0 <= j < i ==> s[j].0 != k,
    ensures
        first_val(s.update(i, (k, v)), k) == Some(v),
        forall|x: Seq<char>| x != k ==> first_val(#[trigger] s.update(i, (k, v)), x) == first_val(s, x),
    decreases s.len(),
{
    let u = s.update(i, (k, v));
    if i > 0 {
        assert(s[0].0 != k);
        assert(u[0] == s[0]);
        assert(u.drop_first() =~= s.drop_first().update(i - 1, (k, v)));
        lemma_first_val_update(s.drop_first(), i - 1, k, v);
        assert forall|x: Seq<char>| x != k implies first_val(#[trigger] s.update(i, (k, v)), x) == first_val(s, x) by {
            if s[0].0 != x {
                assert(first_val(u, x) == first_val(u.drop_first(), x));
                assert(first_val(s, x) == first_val(s.drop_first(), x));
                assert(first_val(s.drop_first().update(i - 1, (k, v)), x) == first_val(s.drop_first(), x));
            } else {
                assert(first_val(u, x) == Some(u[0].1));
                assert(first_val(s, x) == Some(s[0].1));
            }
        }
    } else {
        assert(u[0] == (k, v));
        assert(u.drop_first() =~= s.drop_first());
        assert forall|x: Seq<char>| x != k implies first_val(#[trigger] s.update(i, (k, v)), x) == first_val(s, x) by {
            assert(first_val(u, x) == first_val(u.drop_first(), x));
            assert(first_val(s, x) == first_val(s.drop_first(), x));
        }
    }
}

pub proof fn lemma_first_val_push<V>(s: Seq<(Seq<char>, V)>, k: Seq<char>, v: V)
    requires
        first_val(s, k) is None,
    ensures
        first_val(s.push((k, v)), k) == Some(v),
        forall|x: Seq<char>| x != k ==> first_val(#[trigger] s.push((k, v)), x) == first_val(s, x),
    decreases s.len(),
{
    if s.len() > 0 {
        assert(s.push((k, v))[0] == s[0]);
        assert(s.push((k, v)).drop_first() =~= s.drop_first().push((k, v)));
        lemma_first_val_push(s.drop_first(), k, v);
        assert forall|x: Seq<char>| x != k implies first_val(#[trigger] s.push((k, v)), x) == first_val(s, x) by {
            if s[0].0 != x {
                assert(first_val(s.push((k, v)), x) == first_val(s.push((k, v)).drop_first(), x));
                assert(first_val(s, x) == first_val(s.drop_first(), x));
                assert(first_val(s.drop_first().push((k, v)), x) == first_val(s.drop_first(), x));
            } else {
                assert(first_val(s.push((k, v)), x) == Some(s[0].1));
            }
        }
    } else {
        assert(s.push((k, v))[0] == (k, v));
        assert(s.push((k, v)).drop_first() =~= s);
        assert forall|x: Seq<char>| x != k implies first_val(#[trigger] s.push((k, v)), x) == first_val(s, x) by {
            assert(first_val(s.push((k, v)), x) == first_val(s.push((k, v)).drop_first(), x));
            assert(first_val(s, x) is None);
        }
    }
}

pub proof fn lemma_first_val_push_any<V>(s: Seq<(Seq<char>, V)>, k: Seq<char>, v: V)
    ensures
        forall|x: Seq<char>| #[trigger] first_val(s.push((k, v)), x) == match first_val(s, x) {
            Some(w) => Some(w),
            None => if x == k { Some(v) } else { None },
        },
    decreases s.len(),
{
    let p = s.push((k, v));
    if s.len() > 0 {
        assert(p[0] == s[0]);
        assert(p.drop_first() =~= s.drop_first().push((k, v)));
        lemma_first_val_push_any(s.drop_first(), k, v);
        assert forall|x: Seq<char>| #[trigger] first_val(s.push((k, v)), x) == match first_val(s, x) {
            Some(w) => Some(w),
            None => if x == k { Some(v) } else { None },
        } by {
            if s[0].0 != x {
                assert(first_val(p, x) == first_val(p.drop_first(), x));
                assert(first_val(s, x) == first_val(s.drop_first(), x));
            }
        }
    } else {
        assert(p[0] == (k, v));
        assert(p.drop_first() =~= s);
        assert forall|x: Seq<char>| #[trigger] first_val(s.push((k, v)), x) == match first_val(s, x) {
            Some(w) => Some(w),
            None => if x == k { Some(v) } else { None },
        } by {
            assert(first_val(s, x) is None);
            if x != k {
                assert(first_val(p, x) == first_val(p.drop_first(), x));
            }
        }
    }
}


impl Router {
    pub closed spec fn wf(&self) -> bool {
        forall|i: int| 0 <= i < self.latency_stats@.len() ==> #[trigger] self.latency_stats@[i].1.samples@.len() <= 100
    }

    pub closed spec fn samples(&self) -> Seq<(Seq<char>, Seq<u64>)> {
        samples_view(self.latency_stats@)
    }

    /// The ordering key of a stage: (priority, median latency), (priority, 0), or
    /// (failure count, with `u32::MAX` where none is recorded, priority).
    pub open spec fn stage_key(&self, stage: u8, h: HealthSnapshot, c: Seq<char>) -> (int, int) {
        if stage == 0 {
            (self.priority_of(c), self.latency_of(c))
        } else if stage == 1 {
            (self.priority_of(c), 0)
        } else {
            (match first_val(counts_view(h.failure_counts@), c) {
                Some(n) => n as int,
                None => u32::MAX as int,
            }, self.priority_of(c))
        }
    }

    /// The priority of an origin: as set, or 100.
    pub fn get_priority(&self, id: &OriginId) -> (r: u8)
        ensures
            r == self.priority_of(id@),
    {
        match self.find_priority(id) {
            Some(i) => self.priorities[i].1,
            None => 100,
        }
    }

    fn find_latency(&self, id: &OriginId) -> (r: Option<usize>)
        ensures
            match r {
                Some(i) => i < self.latency_stats@.len() && self.latency_stats@[i as int].0@ == id@ && first_val(self.lats(), id@) == Some(
                    self.latency_stats@[i as int].1.p50_ms,
                ) && first_val(self.samples(), id@) == Some(self.latency_stats@[i as int].1.samples@) && forall|j: int|
                    0 <= j < i ==> self.lats()[j].0 != id@,
                None => first_val(self.lats(), id@) is None && first_val(self.samples(), id@) is None,
            },
    {
        let ghost s = self.lats();
        let ghost t = self.samples();
        let mut i: usize = 0;
        proof {
            assert(s.skip(0) =~= s);
            assert(t.skip(0) =~= t);
        }
        while i < self.latency_stats.len()
            invariant
                i <= s.len(),
                s == self.lats(),
                t == self.samples(),
                s.len() == t.len(),
                first_val(s, id@) == first_val(s.skip(i as int), id@),
                first_val(t, id@) == first_val(t.skip(i as int), id@),
                forall|j: int| 0 <= j < i ==> s[j].0 != id@,
            decreases s.len() - i,
        {
            proof {
                assert(s.skip(i as int).drop_first() =~= s.skip(i + 1));
                assert(s.skip(i as int)[0] == s[i as int]);
                assert(t.skip(i as int).drop_first() =~= t.skip(i + 1));
                assert(t.skip(i as int)[0] == t[i as int]);
            }
            if chars_eq(
                crate::text::to_chars(self.latency_stats[i].0.0.as_str()).as_slice(),
                crate::text::to_chars(id.0.as_str()).as_slice(),
            ) {
                return Some(i);
            }
            i = i + 1;
        }
        None
    }

    /// The median latency recorded for an origin, or 0.
    pub fn median_latency(&self, id: &OriginId) -> (r: u64)
        ensures
            r == self.latency_of(id@),
    {
        match self.find_latency(id) {
            Some(i) => self.latency_stats[i].1.p50_ms,
            None => 0,
        }
    }

    /// Records a latency sample for an origin.
    pub fn record_latency(&mut self, id: &OriginId, latency_ms: u64)
        requires
            old(self).wf(),
        ensures
            final(self).wf(),
            final(self).prios() == old(self).prios(),
            first_val(final(self).samples(), id@) == Some(window((match first_val(old(self).samples(), id@) {
                Some(s) => s,
                None => Seq::empty(),
            }).push(latency_ms))),
            forall|k: Seq<char>| k != id@ ==> first_val(#[trigger] final(self).samples(), k) == first_val(old(self).samples(), k),
            forall|k: Seq<char>| k != id@ ==> first_val(#[trigger] final(self).lats(), k) == first_val(old(self).lats(), k),
            first_val(final(self).lats(), id@) == Some(median_of(first_val(final(self).samples(), id@)->0)),
            old(self).wf() ==> final(self).wf(),
    {
        let ghost before_l = self.lats();
        let ghost before_s = self.samples();
        let ghost idv = id@;
        match self.find_latency(id) {
            Some(i) => {
                let (oid, mut stats) = self.latency_stats.remove(i);
                proof {
                    assert(old(self).latency_stats@[i as int].1 == stats);
                }
                stats.record(latency_ms);
                let ghost new_p50 = stats.p50_ms;
                let ghost new_samples = stats.samples@;
                self.latency_stats.insert(i, (OriginId(id.0.clone()), stats));
                proof {
                    assert(self.lats() =~= before_l.update(i as int, (idv, new_p50)));
                    assert(self.samples() =~= before_s.update(i as int, (idv, new_samples)));
                    lemma_first_val_update(before_l, i as int, idv, new_p50);
                    assert forall|j: int| 0 <= j < i implies before_s[j].0 != idv by {
                        assert(before_s[j].0 == before_l[j].0);
                    }
                    lemma_first_val_update(before_s, i as int, idv, new_samples);
                }
            },
            None => {
                let mut stats = LatencyStats { samples: Vec::new(), p50_ms: 0, p99_ms: 0, last_update: None };
                proof {
                    assert(stats.samples@ =~= Seq::<u64>::empty());
                }
                stats.record(latency_ms);
                let ghost new_p50 = stats.p50_ms;
                let ghost new_samples = stats.samples@;
                self.latency_stats.push((OriginId(id.0.clone()), stats));
                proof {
                    assert(self.lats() =~= before_l.push((idv, new_p50)));
                    assert(self.samples() =~= before_s.push((idv, new_samples)));
                    lemma_first_val_push(before_l, idv, new_p50);
                    lemma_first_val_push(before_s, idv, new_samples);
                }
            },
        }
    }
}

impl Router {
    fn admit_exec(&self, stage: u8, health: &HealthSnapshot, c: &OriginId) -> (r: bool)
        ensures
            r == admitted(stage, *health, c@),
    {
        if stage == 0 {
            health.is_healthy(c)
        } else if stage == 1 {
            health.is_degraded(c)
        } else {
            true
        }
    }

    fn key_exec(&self, stage: u8, health: &HealthSnapshot, c: &OriginId) -> (r: (u64, u64))
        ensures
            (r.0 as int, r.1 as int) == self.stage_key(stage, *health, c@),
    {
        if stage == 0 {
            (self.get_priority(c) as u64, self.median_latency(c))
        } else if stage == 1 {
            (self.get_priority(c) as u64, 0)
        } else {
            let f: u64 = match health.failure_count(c) {
                Some(n) => n as u64,
                None => 0xFFFF_FFFF,
            };
            (f, self.get_priority(c) as u64)
        }
    }

    /// The first candidate with the least key among those a stage admits.
    fn select_stage(&self, candidates: &[OriginId], health: &HealthSnapshot, stage: u8) -> (r: Option<usize>)
        ensures
            match r {
                None => forall|j: int| 0 <= j < candidates@.len() ==> !admitted(stage, *health, #[trigger] ids_view(candidates@)[j]),
                Some(i) => first_min(
                    ids_view(candidates@),
                    |c: Seq<char>| admitted(stage, *health, c),
                    |c: Seq<char>| self.stage_key(stage, *health, c),
                    i as int,
                ),
            },
    {
        let ghost cs = ids_view(candidates@);
        let ghost ok = |c: Seq<char>| admitted(stage, *health, c);
        let ghost key = |c: Seq<char>| self.stage_key(stage, *health, c);
        let mut best: Option<usize> = None;
        let mut b0: u64 = 0;
        let mut b1: u64 = 0;
        let mut i: usize = 0;
        while i < candidates.len()
            invariant
                i <= candidates@.len(),
                cs == ids_view(candidates@),
                ok == (|c: Seq<char>| admitted(stage, *health, c)),
                key == (|c: Seq<char>| self.stage_key(stage, *health, c)),
                match best {
                    None => forall|j: int| 0 <= j < i ==> !ok(#[trigger] cs[j]),
                    Some(b) => {
                        &&& b < i
                        &&& ok(cs[b as int])
                        &&& key(cs[b as int]) == (b0 as int, b1 as int)
                        &&& forall|j: int| 0 <= j < i && ok(#[trigger] cs[j]) ==> lex_le(key(cs[b as int]), key(cs[j]))
                        &&& forall|j: int| 0 <= j < b && ok(#[trigger] cs[j]) ==> !lex_le(key(cs[j]), key(cs[b as int]))
                    },
                },
            decreases candidates@.len() - i,
        {
            let c = &candidates[i];
            proof {
                assert(cs[i as int] == c@);
            }
            if self.admit_exec(stage, health, c) {
                let (k0, k1) = self.key_exec(stage, health, c);
                let better = match best {
                    None => true,
                    Some(_) => k0 < b0 || (k0 == b0 && k1 < b1),
                };
                if better {
                    best = Some(i);
                    b0 = k0;
                    b1 = k1;
                }
            }
            i = i + 1;
        }
        best
    }

    /// The healthy candidate with the best priority, then the lowest median latency; the
    /// first such where several tie.
    pub fn select(&self, candidates: &[OriginId], health: &HealthSnapshot) -> (r: Option<OriginId>)
        ensures
            selects(r, ids_view(candidates@), |c: Seq<char>| admitted(0, *health, c), |c: Seq<char>| self.stage_key(0, *health, c)),
    {
        match self.select_stage(candidates, health, 0) {
            Some(i) => Some(OriginId(candidates[i].0.clone())),
            None => None,
        }
    }

    /// A healthy candidate as `select` picks it; else the degraded one with the best
    /// priority; else, of all candidates, the one with the fewest recorded failures (none
    /// recorded counting as the most), then the best priority.
    pub fn select_with_fallback(&self, candidates: &[OriginId], health: &HealthSnapshot) -> (r: Option<OriginId>)
        ensures
            ({
                let cs = ids_view(candidates@);
                let any_healthy = exists|j: int| 0 <= j < cs.len() && admitted(0, *health, #[trigger] cs[j]);
                let any_degraded = exists|j: int| 0 <= j < cs.len() && admitted(1, *health, #[trigger] cs[j]);
                &&& any_healthy ==> selects(r, cs, |c: Seq<char>| admitted(0, *health, c), |c: Seq<char>| self.stage_key(0, *health, c))
                &&& !any_healthy && any_degraded ==> selects(r, cs, |c: Seq<char>| admitted(1, *health, c), |c: Seq<char>| self.stage_key(1, *health, c))
                &&& !any_healthy && !any_degraded ==> selects(r, cs, |c: Seq<char>| admitted(2, *health, c), |c: Seq<char>| self.stage_key(2, *health, c))
            }),
    {
        match self.select_stage(candidates, health, 0) {
            Some(i) => return Some(OriginId(candidates[i].0.clone())),
            None => {},
        }
        match self.select_stage(candidates, health, 1) {
            Some(i) => return Some(OriginId(candidates[i].0.clone())),
            None => {},
        }
        match self.select_stage(candidates, health, 2) {
            Some(i) => Some(OriginId(candidates[i].0.clone())),
            None => None,
        }
    }

    /// Whether a fallback selection found neither a healthy nor a degraded candidate (the
    /// case in which every origin is reported unhealthy).
    pub fn all_unhealthy(&self, candidates: &[OriginId], health: &HealthSnapshot) -> (r: bool)
        ensures
            r == !exists|j: int| 0 <= j < candidates@.len() && (admitted(0, *health, #[trigger] ids_view(candidates@)[j]) || admitted(1, *health, ids_view(candidates@)[j])),
    {
        let a = self.select_stage(candidates, health, 0);
        let b = self.select_stage(candidates, health, 1);
        a.is_none() && b.is_none()
    }

    /// The event a fallback selection publishes: that all origins are unhealthy, with the
    /// number of candidates, where it found neither a healthy nor a degraded one; else none.
    pub fn fallback_event(&self, candidates: &[OriginId], health: &HealthSnapshot) -> (r: Option<crate::events::Event>)
        ensures
            r is Some <==> !exists|j: int| 0 <= j < candidates@.len() && (admitted(0, *health, #[trigger] ids_view(candidates@)[j]) || admitted(1, *health, ids_view(candidates@)[j])),
            r is Some ==> (r matches Some(crate::events::Event::AllOriginsUnhealthy { candidate_count: c }) && c == candidates@.len()),
    {
        if self.all_unhealthy(candidates, health) {
            Some(crate::events::Event::AllOriginsUnhealthy { candidate_count: candidates.len() })
        } else {
            None
        }
    }
}

impl Default for Router {
    fn default() -> (r: Self)
        ensures
            r.prios().len() == 0,
            r.lats().len() == 0,
    {
        Router::new()
    }
}

} // verus!

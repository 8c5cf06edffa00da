//! The registered origins: which are known, the watch handles held for each, and which
//! origin a path is routed to.
use vstd::prelude::*;

use crate::router::{admitted, first_val, window, ids_view, lemma_first_val_push, lemma_first_val_push_any, lemma_first_val_update, HealthSnapshot, Router};
use crate::text::{chars_eq, to_chars};
use crate::types::{OriginId, RealPath};

verus! {

pub open spec fn watch_view(v: Seq<(OriginId, usize)>) -> Seq<(Seq<char>, usize)> {
    v.map_values(|e: (OriginId, usize)| (e.0@, e.1))
}

/// The origins known to the file system, each once; the router that orders them; and
/// how many watch handles are held for each origin.
pub struct OriginRegistry {
    origins: Vec<OriginId>,
    router: Router,
    watch_handles: Vec<(OriginId, usize)>,
}

fn same_id(a: &OriginId, b: &OriginId) -> (r: bool)
    ensures
        r == (a@ == b@),
{
    chars_eq(to_chars(a.0.as_str()).as_slice(), to_chars(b.0.as_str()).as_slice())
}

fn copy_id(a: &OriginId) -> (r: OriginId)
    ensures
        r@ == a@,
{
    OriginId(a.0.clone())
}

impl OriginRegistry {
    /// The registered origins.
    pub closed spec fn ids(&self) -> Seq<Seq<char>> {
        ids_view(self.origins@)
    }

    pub open spec fn registered(&self, id: Seq<char>) -> bool {
        self.ids().contains(id)
    }

    pub closed spec fn watches(&self) -> Seq<(Seq<char>, usize)> {
        watch_view(self.watch_handles@)
    }

    /// How many watch handles are held for an origin.
    pub open spec fn watch_count(&self, id: Seq<char>) -> nat {
        match first_val(self.watches(), id) {
            Some(n) => n as nat,
            None => 0,
        }
    }

    /// The router's priorities and latencies.
    pub closed spec fn routing(&self) -> Router {
        self.router
    }

    /// Each origin is registered once, and the router's latency windows are bounded.
    pub closed spec fn wf(&self) -> bool {
        &&& self.ids().no_duplicates()
        &&& self.router.wf()
    }

    pub fn new() -> (r: Self)
        ensures
            r.wf(),
            forall|k: Seq<char>| !r.registered(k),
            forall|k: Seq<char>| r.watch_count(k) == 0,
            forall|k: Seq<char>| #[trigger] r.routing().priority_of(k) == 100,
            forall|k: Seq<char>| #[trigger] r.routing().latency_of(k) == 0,
            forall|k: Seq<char>| #[trigger] first_val(r.routing().samples(), k) is None,
    {
        let r = OriginRegistry { origins: Vec::new(), router: Router::new(), watch_handles: Vec::new() };
        proof {
            assert(r.ids() =~= Seq::<Seq<char>>::empty());
            assert(r.watches() =~= Seq::<(Seq<char>, usize)>::empty());
            assert(r.router.wf());
        }
        r
    }

    fn find_origin(&self, id: &OriginId) -> (r: Option<usize>)
        ensures
            match r {
                Some(i) => i < self.ids().len() && self.ids()[i as int] == id@,
                None => !self.registered(id@),
            },
    {
        let mut i: usize = 0;
        while i < self.origins.len()
            invariant
                i <= self.origins@.len(),
                forall|j: int| 0 <= j < i ==> self.ids()[j] != id@,
            decreases self.origins@.len() - i,
        {
            if same_id(&self.origins[i], id) {
                return Some(i);
            }
            i = i + 1;
        }
        proof {
            if self.registered(id@) {
                let j = choose|j: int| 0 <= j < self.ids().len() && self.ids()[j] == id@;
                assert(self.ids()[j] == id@);
            }
        }
        None
    }

    /// Registers an origin with a priority (lower is preferred); registering it again
    /// only sets the new priority.
    pub fn register(&mut self, id: OriginId, priority: u8)
        requires
            old(self).wf(),
        ensures
            final(self).wf(),
            forall|k: Seq<char>| #[trigger] final(self).registered(k) <==> (old(self).registered(k) || k == id@),
            final(self).routing().priority_of(id@) == priority,
            forall|k: Seq<char>| k != id@ ==> #[trigger] final(self).routing().priority_of(k) == old(self).routing().priority_of(k),
            forall|k: Seq<char>| #[trigger] final(self).watch_count(k) == old(self).watch_count(k),
    {
        let ghost before = self.ids();
        let ghost idv = id@;
        let key = copy_id(&id);
        self.router.set_priority(key, priority);
        match self.find_origin(&id) {
            Some(i) => {
                proof {
                    assert(before[i as int] == idv);
                    assert(before.contains(idv));
                }
            },
            None => {
                self.origins.push(id);
                proof {
                    assert(self.ids() =~= before.push(idv));
                    assert forall|a: int, b: int| 0 <= a < b < self.ids().len() implies self.ids()[a] != self.ids()[b] by {
                        if b == before.len() {
                            assert(before[a] == self.ids()[a]);
                            assert(before.contains(before[a]));
                        }
                    }
                }
            },
        }
        proof {
            assert forall|k: Seq<char>| #[trigger] self.registered(k) <==> (before.contains(k) || k == idv) by {
                if self.registered(k) && !before.contains(k) {
                    let j = choose|j: int| 0 <= j < self.ids().len() && self.ids()[j] == k;
                    if j < before.len() {
                        assert(before[j] == k);
                    }
                }
                if before.contains(k) {
                    let j = choose|j: int| 0 <= j < before.len() && before[j] == k;
                    assert(self.ids()[j] == k);
                }
                if k == idv && !before.contains(k) {
                    assert(self.ids()[before.len() as int] == k);
                }
            }
        }
    }

    /// Forgets an origin, its priority and latencies, and drops the watch handles held
    /// for it; returns how many were dropped.
    pub fn unregister(&mut self, id: &OriginId) -> (r: usize)
        requires
            old(self).wf(),
        ensures
            final(self).wf(),
            r == old(self).watch_count(id@),
            forall|k: Seq<char>| #[trigger] final(self).registered(k) <==> (old(self).registered(k) && k != id@),
            final(self).watch_count(id@) == 0,
            forall|k: Seq<char>| k != id@ ==> #[trigger] final(self).watch_count(k) == old(self).watch_count(k),
            final(self).routing().priority_of(id@) == 100,
            final(self).routing().latency_of(id@) == 0,
            forall|k: Seq<char>| k != id@ ==> #[trigger] final(self).routing().priority_of(k) == old(self).routing().priority_of(k),
            forall|k: Seq<char>| k != id@ ==> #[trigger] final(self).routing().latency_of(k) == old(self).routing().latency_of(k),
    {
        let ghost w0 = self.watches();
        let ghost ids0 = self.ids();
        let mut dropped: usize = 0;
        let mut found = false;
        let mut kept_w: Vec<(OriginId, usize)> = Vec::new();
        let mut i: usize = 0;
        proof {
            assert(w0.skip(0) =~= w0);
            assert(watch_view(kept_w@) =~= Seq::<(Seq<char>, usize)>::empty());
        }
        while i < self.watch_handles.len()
            invariant
                i <= w0.len(),
                w0 == self.watches(),
                forall|k: Seq<char>| k != id@ ==> first_val(w0, k) == match first_val(watch_view(kept_w@), k) {
                    Some(v) => Some(v),
                    None => first_val(w0.skip(i as int), k),
                },
                first_val(watch_view(kept_w@), id@) is None,
                found ==> first_val(w0, id@) == Some(dropped),
                !found ==> first_val(w0, id@) == first_val(w0.skip(i as int), id@) && dropped == 0,
            decreases w0.len() - i,
        {
            let e = &self.watch_handles[i];
            let same = same_id(&e.0, id);
            let ghost kv = watch_view(kept_w@);
            proof {
                assert(w0.skip(i as int).drop_first() =~= w0.skip(i + 1));
                assert(w0.skip(i as int)[0] == w0[i as int]);
            }
            if same {
                if !found {
                    dropped = e.1;
                    found = true;
                }
            } else {
                kept_w.push((copy_id(&e.0), e.1));
                proof {
                    assert(watch_view(kept_w@) =~= kv.push(w0[i as int]));
                    lemma_first_val_push_any(kv, w0[i as int].0, w0[i as int].1);
                }
            }
            i = i + 1;
        }
        proof {
            assert(w0.skip(w0.len() as int) =~= Seq::<(Seq<char>, usize)>::empty());
        }
        self.watch_handles = kept_w;
        let mut kept: Vec<OriginId> = Vec::new();
        let mut j: usize = 0;
        while j < self.origins.len()
            invariant
                j <= ids0.len(),
                ids0 == self.ids(),
                ids0.no_duplicates(),
                forall|k: Seq<char>| ids_view(kept@).contains(k) <==> (exists|t: int| 0 <= t < j && ids0[t] == k && k != id@),
                ids_view(kept@).no_duplicates(),
                forall|t: int| 0 <= t < ids_view(kept@).len() ==> exists|u: int| 0 <= u < j && ids0[u] == #[trigger] ids_view(kept@)[t],
            decreases ids0.len() - j,
        {
            let o = &self.origins[j];
            let ghost kv = ids_view(kept@);
            if !same_id(o, id) {
                kept.push(copy_id(o));
                proof {
                    assert(ids_view(kept@) =~= kv.push(ids0[j as int]));
                    assert forall|a: int, b: int| 0 <= a < b < ids_view(kept@).len() implies ids_view(kept@)[a] != ids_view(kept@)[b] by {
                        if b == kv.len() {
                            let u = choose|u: int| 0 <= u < j && ids0[u] == #[trigger] kv[a];
                            assert(ids0[u] != ids0[j as int]);
                        }
                    }
                    assert forall|t: int| 0 <= t < ids_view(kept@).len() implies exists|u: int| 0 <= u < j + 1 && ids0[u] == #[trigger] ids_view(kept@)[t] by {
                        if t == kv.len() {
                            assert(ids0[j as int] == ids_view(kept@)[t]);
                        } else {
                            let u = choose|u: int| 0 <= u < j && ids0[u] == #[trigger] kv[t];
                            assert(ids0[u] == ids_view(kept@)[t]);
                        }
                    }
                    assert forall|k: Seq<char>| ids_view(kept@).contains(k) <==> (exists|t: int| 0 <= t < j + 1 && ids0[t] == k && k != id@) by {
                        if ids_view(kept@).contains(k) {
                            let t = choose|t: int| 0 <= t < ids_view(kept@).len() && ids_view(kept@)[t] == k;
                            if t == kv.len() {
                                assert(ids0[j as int] == k);
                            } else {
                                assert(kv[t] == k);
                                assert(kv.contains(k));
                            }
                        }
                        if exists|t: int| 0 <= t < j + 1 && ids0[t] == k && k != id@ {
                            let t = choose|t: int| 0 <= t < j + 1 && ids0[t] == k && k != id@;
                            if t == j {
                                assert(ids_view(kept@)[kv.len() as int] == k);
                            } else {
                                assert(kv.contains(k));
                                let s = choose|s: int| 0 <= s < kv.len() && kv[s] == k;
                                assert(ids_view(kept@)[s] == k);
                            }
                        }
                    }
                }
            } else {
                proof {
                    assert forall|k: Seq<char>| ids_view(kept@).contains(k) <==> (exists|t: int| 0 <= t < j + 1 && ids0[t] == k && k != id@) by {
                        if exists|t: int| 0 <= t < j + 1 && ids0[t] == k && k != id@ {
                            let t = choose|t: int| 0 <= t < j + 1 && ids0[t] == k && k != id@;
                            assert(t != j);
                        }
                    }
                }
            }
            j = j + 1;
        }
        self.origins = kept;
        self.router.remove_priority(id);
        proof {
            assert forall|k: Seq<char>| #[trigger] self.registered(k) <==> (ids0.contains(k) && k != id@) by {
                if ids0.contains(k) && k != id@ {
                    let t = choose|t: int| 0 <= t < ids0.len() && ids0[t] == k;
                }
            }
        }
        dropped
    }

    /// Keeps one more watch handle for an origin.
    pub fn register_watch(&mut self, origin_id: &OriginId)
        requires
            old(self).wf(),
            old(self).watch_count(origin_id@) < usize::MAX,
        ensures
            final(self).wf(),
            final(self).watch_count(origin_id@) == old(self).watch_count(origin_id@) + 1,
            forall|k: Seq<char>| k != origin_id@ ==> #[trigger] final(self).watch_count(k) == old(self).watch_count(k),
            forall|k: Seq<char>| #[trigger] final(self).registered(k) == old(self).registered(k),
            final(self).routing() == old(self).routing(),
    {
        let ghost w0 = self.watches();
        let ghost idv = origin_id@;
        let mut i: usize = 0;
        proof {
            assert(w0.skip(0) =~= w0);
        }
        while i < self.watch_handles.len()
            invariant
                i <= w0.len(),
                w0 == self.watches(),
                w0 == old(self).watches(),
                self.origins@ == old(self).origins@,
                self.router == old(self).router,
                old(self).wf(),
                old(self).watch_count(origin_id@) < usize::MAX,
                idv == origin_id@,
                first_val(w0, idv) == first_val(w0.skip(i as int), idv),
                forall|j: int| 0 <= j < i ==> w0[j].0 != idv,
            decreases w0.len() - i,
        {
            proof {
                assert(w0.skip(i as int).drop_first() =~= w0.skip(i + 1));
                assert(w0.skip(i as int)[0] == w0[i as int]);
                assert(w0[i as int] == (self.watch_handles@[i as int].0@, self.watch_handles@[i as int].1));
            }
            if same_id(&self.watch_handles[i].0, origin_id) {
                let n = self.watch_handles[i].1;
                proof {
                    assert(first_val(w0, idv) == Some(n));
                }
                let key = copy_id(origin_id);
                self.watch_handles.set(i, (key, n + 1));
                proof {
                    assert(self.watches() =~= w0.update(i as int, (idv, (n + 1) as usize)));
                    lemma_first_val_update(w0, i as int, idv, (n + 1) as usize);
                }
                return;
            }
            i = i + 1;
        }
        proof {
            assert(w0.skip(w0.len() as int) =~= Seq::<(Seq<char>, usize)>::empty());
        }
        let key = copy_id(origin_id);
        self.watch_handles.push((key, 1));
        proof {
            assert(self.watches() =~= w0.push((idv, 1usize)));
            lemma_first_val_push(w0, idv, 1usize);
        }
    }

    /// The registered origin with this id, if any.
    pub fn get(&self, id: &OriginId) -> (r: Option<OriginId>)
        ensures
            r is Some <==> self.registered(id@),
            r is Some ==> r->0@ == id@,
    {
        match self.find_origin(id) {
            Some(i) => Some(copy_id(&self.origins[i])),
            None => None,
        }
    }

    /// All registered origins, each once.
    pub fn list(&self) -> (r: Vec<OriginId>)
        requires
            self.wf(),
        ensures
            ids_view(r@) == self.ids(),
            ids_view(r@).no_duplicates(),
            forall|k: Seq<char>| ids_view(r@).contains(k) <==> self.registered(k),
    {
        let mut out: Vec<OriginId> = Vec::new();
        let mut i: usize = 0;
        while i < self.origins.len()
            invariant
                i <= self.origins@.len(),
                ids_view(out@) == self.ids().subrange(0, i as int),
            decreases self.origins@.len() - i,
        {
            let ghost pre = ids_view(out@);
            out.push(copy_id(&self.origins[i]));
            proof {
                assert(self.ids()[i as int] == self.origins@[i as int]@);
                assert(ids_view(out@) =~= pre.push(self.ids()[i as int]));
            }
            i = i + 1;
            proof {
                assert(ids_view(out@) =~= self.ids().subrange(0, i as int));
            }
        }
        proof {
            assert(self.ids().subrange(0, self.ids().len() as int) =~= self.ids());
        }
        out
    }

    /// Records a read latency for an origin.
    pub fn record_latency(&mut self, id: &OriginId, latency_ms: u64)
        requires
            old(self).wf(),
        ensures
            final(self).wf(),
            forall|k: Seq<char>| #[trigger] final(self).registered(k) == old(self).registered(k),
            forall|k: Seq<char>| #[trigger] final(self).routing().priority_of(k) == old(self).routing().priority_of(k),
            first_val(final(self).routing().samples(), id@) == Some(window((match first_val(old(self).routing().samples(), id@) {
                Some(s) => s,
                None => Seq::empty(),
            }).push(latency_ms))),
            forall|k: Seq<char>| k != id@ ==> first_val(#[trigger] final(self).routing().samples(), k) == first_val(
                old(self).routing().samples(),
                k,
            ),
            forall|k: Seq<char>| k != id@ ==> #[trigger] final(self).routing().latency_of(k) == old(self).routing().latency_of(k),
            final(self).routing().latency_of(id@) == crate::router::median_of(
                first_val(final(self).routing().samples(), id@)->0,
            ),
    {
        self.router.record_latency(id, latency_ms);
    }

    /// The origins that can serve a path: only the one the path belongs to, where it is
    /// registered.
    fn candidates(&self, path: &RealPath) -> (r: Vec<OriginId>)
        ensures
            self.registered(path.origin_id@) ==> ids_view(r@) == seq![path.origin_id@] && r@.len() == 1,
            !self.registered(path.origin_id@) ==> r@.len() == 0,
    {
        let mut out: Vec<OriginId> = Vec::new();
        match self.find_origin(&path.origin_id) {
            Some(i) => {
                out.push(copy_id(&self.origins[i]));
                proof {
                    assert(ids_view(out@) =~= seq![path.origin_id@]);
                }
            },
            None => {},
        }
        out
    }

    /// The origin that serves a path: the path's own origin, where it is registered and
    /// healthy.
    pub fn route(&self, path: &RealPath, health: &HealthSnapshot) -> (r: Option<OriginId>)
        ensures
            r is Some <==> (self.registered(path.origin_id@) && admitted(0, *health, path.origin_id@)),
            r is Some ==> r->0@ == path.origin_id@,
    {
        let cands = self.candidates(path);
        if cands.len() == 0 {
            return None;
        }
        let r = self.router.select(&cands, health);
        proof {
            let cs = ids_view(cands@);
            assert(cs[0] == path.origin_id@);
            if r is Some {
                let c = r->0;
                let i = choose|i: int| crate::router::first_min(cs, |c: Seq<char>| admitted(0, *health, c), |c: Seq<char>| self.router.stage_key(0, *health, c), i) && c@ == cs[i];
                assert(i == 0);
            } else {
                assert(!admitted(0, *health, cs[0]));
            }
        }
        r
    }

    /// The origin that serves a path, falling back to a degraded or unhealthy one: the
    /// path's own origin wherever it is registered.
    pub fn route_with_fallback(&self, path: &RealPath, health: &HealthSnapshot) -> (r: Option<OriginId>)
        ensures
            r is Some <==> self.registered(path.origin_id@),
            r is Some ==> r->0@ == path.origin_id@,
    {
        let cands = self.candidates(path);
        if cands.len() == 0 {
            return None;
        }
        let r = self.router.select_with_fallback(&cands, health);
        proof {
            let cs = ids_view(cands@);
            assert(cs[0] == path.origin_id@);
            let ok0 = |c: Seq<char>| admitted(0, *health, c);
            let ok1 = |c: Seq<char>| admitted(1, *health, c);
            let ok2 = |c: Seq<char>| admitted(2, *health, c);
            let any_healthy = exists|j: int| 0 <= j < cs.len() && admitted(0, *health, #[trigger] cs[j]);
            let any_degraded = exists|j: int| 0 <= j < cs.len() && admitted(1, *health, #[trigger] cs[j]);
            if admitted(0, *health, cs[0]) {
                assert(any_healthy);
            } else if admitted(1, *health, cs[0]) {
                assert(!any_healthy);
                assert(any_degraded);
            } else {
                assert(!any_healthy);
                assert(!any_degraded);
                assert(ok2(cs[0]));
            }
            if r is Some {
                let c = r->0;
                {
                    if any_healthy {
                        let i = choose|i: int| crate::router::first_min(cs, ok0, |c: Seq<char>| self.router.stage_key(0, *health, c), i) && c@ == cs[i];
                        assert(i == 0);
                    } else if any_degraded {
                        let i = choose|i: int| crate::router::first_min(cs, ok1, |c: Seq<char>| self.router.stage_key(1, *health, c), i) && c@ == cs[i];
                        assert(i == 0);
                    } else {
                        let i = choose|i: int| crate::router::first_min(cs, ok2, |c: Seq<char>| self.router.stage_key(2, *health, c), i) && c@ == cs[i];
                        assert(i == 0);
                    }
                }
            }
        }
        r
    }

    /// Every healthy origin that can serve a path, by priority: the path's own origin
    /// where it is registered and healthy, else none.
    pub fn route_all(&self, path: &RealPath, health: &HealthSnapshot) -> (r: Vec<OriginId>)
        ensures
            (self.registered(path.origin_id@) && admitted(0, *health, path.origin_id@)) ==> ids_view(r@) == seq![path.origin_id@],
            !(self.registered(path.origin_id@) && admitted(0, *health, path.origin_id@)) ==> r@.len() == 0,
    {
        let cands = self.candidates(path);
        let mut out: Vec<OriginId> = Vec::new();
        if cands.len() > 0 && health.is_healthy(&cands[0]) {
            out.push(copy_id(&cands[0]));
            proof {
                assert(ids_view(out@) =~= seq![path.origin_id@]);
            }
        }
        proof {
            if cands@.len() > 0 {
                assert(ids_view(cands@)[0] == cands@[0]@);
            }
        }
        out
    }
}

} // verus!

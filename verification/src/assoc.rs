//! Association lists from character sequences to inode numbers: the path index of the
//! virtual tree (in insertion order) and the children of a directory (in name order).
use vstd::prelude::*;

use crate::text::{chars_eq, order_chars, Rel};

verus! {

pub open spec fn entries_view(v: Seq<(Vec<char>, u64)>) -> Seq<(Seq<char>, u64)> {
    Seq::new(v.len(), |i: int| (v[i].0@, v[i].1))
}

pub proof fn lemma_ev_update(v: Seq<(Vec<char>, u64)>, i: int, e: (Vec<char>, u64))
    requires
        0 <= i < v.len(),
    ensures
        entries_view(v.update(i, e)) == entries_view(v).update(i, (e.0@, e.1)),
{
    assert(entries_view(v.update(i, e)) =~= entries_view(v).update(i, (e.0@, e.1)));
}

pub proof fn lemma_ev_insert(v: Seq<(Vec<char>, u64)>, i: int, e: (Vec<char>, u64))
    requires
        0 <= i <= v.len(),
    ensures
        entries_view(v.insert(i, e)) == entries_view(v).insert(i, (e.0@, e.1)),
{
    assert(entries_view(v.insert(i, e)) =~= entries_view(v).insert(i, (e.0@, e.1)));
}

pub proof fn lemma_ev_remove(v: Seq<(Vec<char>, u64)>, i: int)
    requires
        0 <= i < v.len(),
    ensures
        entries_view(v.remove(i)) == entries_view(v).remove(i),
{
    assert(entries_view(v.remove(i)) =~= entries_view(v).remove(i));
}

pub proof fn lemma_ev_push(v: Seq<(Vec<char>, u64)>, e: (Vec<char>, u64))
    ensures
        entries_view(v.push(e)) == entries_view(v).push((e.0@, e.1)),
{
    assert(entries_view(v.push(e)) =~= entries_view(v).push((e.0@, e.1)));
}

pub open spec fn keys_unique(s: Seq<(Seq<char>, u64)>) -> bool {
    forall|i: int, j: int| 0 <= i < s.len() && 0 <= j < s.len() && i != j ==> s[i].0 != s[j].0
}

pub open spec fn sorted_by_key(s: Seq<(Seq<char>, u64)>) -> bool {
    forall|i: int, j: int| 0 <= i < j < s.len() ==> crate::text::seq_lt(s[i].0, s[j].0)
}

pub open spec fn to_map(s: Seq<(Seq<char>, u64)>) -> Map<Seq<char>, u64>
    decreases s.len(),
{
    if s.len() == 0 {
        Map::empty()
    } else {
        to_map(s.drop_last()).insert(s.last().0, s.last().1)
    }
}

pub open spec fn has_key(s: Seq<(Seq<char>, u64)>, k: Seq<char>) -> bool {
    exists|i: int| 0 <= i < s.len() && s[i].0 == k
}

/// With distinct keys, the map holds exactly the listed pairs.
pub proof fn lemma_to_map(s: Seq<(Seq<char>, u64)>)
    requires
        keys_unique(s),
    ensures
        forall|k: Seq<char>| #[trigger] to_map(s).contains_key(k) <==> has_key(s, k),
        forall|i: int| 0 <= i < s.len() ==> #[trigger] to_map(s)[s[i].0] == s[i].1,
    decreases s.len(),
{
    if s.len() > 0 {
        let t = s.drop_last();
        let last = s.last();
        assert(keys_unique(t));
        lemma_to_map(t);
        assert(to_map(s) == to_map(t).insert(last.0, last.1));
        assert forall|k: Seq<char>| #[trigger] to_map(s).contains_key(k) <==> has_key(s, k) by {
            if has_key(s, k) {
                let i = choose|i: int| 0 <= i < s.len() && s[i].0 == k;
                if i < t.len() {
                    assert(t[i].0 == k);
                    assert(has_key(t, k));
                    assert(to_map(t).contains_key(k));
                }
            }
            if to_map(s).contains_key(k) {
                if k == last.0 {
                    assert(s[s.len() - 1].0 == k);
                } else {
                    assert(to_map(t).contains_key(k));
                    assert(has_key(t, k));
                    let i = choose|i: int| 0 <= i < t.len() && t[i].0 == k;
                    assert(s[i].0 == k);
                }
            }
        }
        assert forall|i: int| 0 <= i < s.len() implies #[trigger] to_map(s)[s[i].0] == s[i].1 by {
            if i < s.len() - 1 {
                assert(t[i] == s[i]);
                assert(s[i].0 != s[s.len() - 1].0);
                assert(to_map(t)[t[i].0] == t[i].1);
            }
        }
    }
}

pub proof fn lemma_sorted_unique(s: Seq<(Seq<char>, u64)>)
    requires
        sorted_by_key(s),
    ensures
        keys_unique(s),
{
    assert forall|i: int, j: int| 0 <= i < s.len() && 0 <= j < s.len() && i != j implies s[i].0 != s[j].0 by {
        if i < j {
            assert(crate::text::seq_lt(s[i].0, s[j].0));
            if s[i].0 == s[j].0 {
                crate::text::lemma_seq_lt_irrefl(s[i].0);
            }
        } else {
            assert(crate::text::seq_lt(s[j].0, s[i].0));
            if s[i].0 == s[j].0 {
                crate::text::lemma_seq_lt_irrefl(s[i].0);
            }
        }
    }
}

/// Position of the pair with key `k`.
pub open spec fn key_pos(s: Seq<(Seq<char>, u64)>, k: Seq<char>) -> int {
    choose|i: int| 0 <= i < s.len() && s[i].0 == k
}

/// The pairs after binding `k` to `v`: in place when `k` is listed, at the end otherwise.
pub open spec fn seq_insert(s: Seq<(Seq<char>, u64)>, k: Seq<char>, v: u64) -> Seq<(Seq<char>, u64)> {
    if has_key(s, k) {
        s.update(key_pos(s, k), (k, v))
    } else {
        s.push((k, v))
    }
}

/// The pairs after dropping the one with key `k`, the others keeping their order.
pub open spec fn seq_remove(s: Seq<(Seq<char>, u64)>, k: Seq<char>) -> Seq<(Seq<char>, u64)> {
    if has_key(s, k) {
        s.remove(key_pos(s, k))
    } else {
        s
    }
}

pub proof fn lemma_seq_insert(s: Seq<(Seq<char>, u64)>, k: Seq<char>, v: u64)
    requires
        keys_unique(s),
    ensures
        keys_unique(seq_insert(s, k, v)),
        to_map(seq_insert(s, k, v)) == to_map(s).insert(k, v),
{
    lemma_to_map(s);
    let after = seq_insert(s, k, v);
    if has_key(s, k) {
        let i = key_pos(s, k);
        assert(s[i].0 == k);
        assert(keys_unique(after));
        lemma_to_map(after);
        assert(to_map(after) =~= to_map(s).insert(k, v)) by {
            assert forall|key: Seq<char>| #[trigger] to_map(after).contains_key(key) <==> to_map(s).insert(k, v).contains_key(key) by {
                if has_key(after, key) {
                    let j = choose|j: int| 0 <= j < after.len() && after[j].0 == key;
                    if j != i {
                        assert(s[j].0 == key);
                    }
                }
                if has_key(s, key) && key != k {
                    let j = choose|j: int| 0 <= j < s.len() && s[j].0 == key;
                    assert(after[j].0 == key);
                }
                if key == k {
                    assert(after[i].0 == key);
                }
            }
            assert forall|key: Seq<char>| #[trigger] to_map(after).contains_key(key) implies to_map(after)[key] == to_map(s).insert(k, v)[key] by {
                let j = choose|j: int| 0 <= j < after.len() && after[j].0 == key;
                assert(to_map(after)[after[j].0] == after[j].1);
                if j != i {
                    assert(s[j] == after[j]);
                    assert(to_map(s)[s[j].0] == s[j].1);
                }
            }
        }
    } else {
        assert(after.drop_last() =~= s);
        assert forall|a: int, b: int| 0 <= a < after.len() && 0 <= b < after.len() && a != b implies after[a].0 != after[b].0 by {
            if a == after.len() - 1 {
                assert(s[b].0 == after[b].0);
            } else if b == after.len() - 1 {
                assert(s[a].0 == after[a].0);
            }
        }
    }
}

pub proof fn lemma_seq_remove(s: Seq<(Seq<char>, u64)>, k: Seq<char>)
    requires
        keys_unique(s),
    ensures
        keys_unique(seq_remove(s, k)),
        to_map(seq_remove(s, k)) == to_map(s).remove(k),
{
    lemma_to_map(s);
    let after = seq_remove(s, k);
    if has_key(s, k) {
        let i = key_pos(s, k);
        assert(s[i].0 == k);
        assert(keys_unique(after));
        lemma_to_map(after);
        assert(to_map(after) =~= to_map(s).remove(k)) by {
            assert forall|key: Seq<char>| #[trigger] to_map(after).contains_key(key) <==> to_map(s).remove(k).contains_key(key) by {
                if has_key(after, key) {
                    let j = choose|j: int| 0 <= j < after.len() && after[j].0 == key;
                    if j < i {
                        assert(s[j].0 == key);
                    } else {
                        assert(s[j + 1].0 == key);
                    }
                }
                if has_key(s, key) && key != k {
                    let j = choose|j: int| 0 <= j < s.len() && s[j].0 == key;
                    if j < i {
                        assert(after[j].0 == key);
                    } else {
                        assert(after[j - 1].0 == key);
                    }
                }
            }
            assert forall|key: Seq<char>| #[trigger] to_map(after).contains_key(key) implies to_map(after)[key] == to_map(s).remove(k)[key] by {
                let j = choose|j: int| 0 <= j < after.len() && after[j].0 == key;
                assert(to_map(after)[after[j].0] == after[j].1);
                if j < i {
                    assert(to_map(s)[s[j].0] == s[j].1);
                } else {
                    assert(to_map(s)[s[j + 1].0] == s[j + 1].1);
                }
            }
        }
    } else {
        assert(to_map(s).remove(k) =~= to_map(s));
    }
}

/// Index of the entry with key `k`, scanning from the front.
fn find_key(v: &Vec<(Vec<char>, u64)>, k: &[char]) -> (r: Option<usize>)
    ensures
        match r {
            Some(i) => i < v@.len() && entries_view(v@)[i as int].0 == k@,
            None => !has_key(entries_view(v@), k@),
        },
{
    let mut i: usize = 0;
    while i < v.len()
        invariant
            i <= v@.len(),
            forall|j: int| 0 <= j < i ==> entries_view(v@)[j].0 != k@,
        decreases v@.len() - i,
    {
        if chars_eq(v[i].0.as_slice(), k) {
            return Some(i);
        }
        i = i + 1;
    }
    None
}

/// The path index: a map from path text to inode, kept in insertion order.
#[derive(Debug)]
pub struct PathIndex {
    entries: Vec<(Vec<char>, u64)>,
}

impl PathIndex {
    pub closed spec fn pairs(&self) -> Seq<(Seq<char>, u64)> {
        entries_view(self.entries@)
    }

    pub open spec fn wf(&self) -> bool {
        keys_unique(self.pairs())
    }

    pub open spec fn view(&self) -> Map<Seq<char>, u64> {
        to_map(self.pairs())
    }

    pub fn new() -> (r: Self)
        ensures
            r.wf(),
            r@ == Map::<Seq<char>, u64>::empty(),
            r.pairs().len() == 0,
    {
        PathIndex { entries: Vec::new() }
    }

    pub fn len(&self) -> (r: usize)
        ensures
            r == self.pairs().len(),
    {
        self.entries.len()
    }

    /// The `i`-th entry in iteration order.
    pub fn entry(&self, i: usize) -> (r: (&[char], u64))
        requires
            i < self.pairs().len(),
        ensures
            r.0@ == self.pairs()[i as int].0,
            r.1 == self.pairs()[i as int].1,
    {
        (self.entries[i].0.as_slice(), self.entries[i].1)
    }

    pub proof fn lemma_view(&self)
        requires
            self.wf(),
        ensures
            forall|k: Seq<char>| #[trigger] self@.contains_key(k) <==> has_key(self.pairs(), k),
            forall|i: int| 0 <= i < self.pairs().len() ==> #[trigger] self@[self.pairs()[i].0] == self.pairs()[i].1,
    {
        lemma_to_map(self.pairs());
    }

    pub fn get(&self, k: &[char]) -> (r: Option<u64>)
        requires
            self.wf(),
        ensures
            r == self@.get(k@),
    {
        proof {
            lemma_to_map(self.pairs());
        }
        match find_key(&self.entries, k) {
            Some(i) => {
                proof {
                    assert(self@[self.pairs()[i as int].0] == self.pairs()[i as int].1);
                }
                Some(self.entries[i].1)
            },
            None => None,
        }
    }

    pub fn contains(&self, k: &[char]) -> (r: bool)
        requires
            self.wf(),
        ensures
            r == self@.contains_key(k@),
    {
        proof {
            lemma_to_map(self.pairs());
        }
        find_key(&self.entries, k).is_some()
    }

    pub fn insert(&mut self, k: Vec<char>, v: u64)
        requires
            old(self).wf(),
        ensures
            final(self).wf(),
            final(self)@ == old(self)@.insert(k@, v),
            final(self).pairs() == seq_insert(old(self).pairs(), k@, v),
    {
        let ghost kv = k@;
        let ghost before = self.pairs();
        proof {
            lemma_seq_insert(before, kv, v);
        }
        match find_key(&self.entries, k.as_slice()) {
            Some(i) => {
                let ghost old_v = self.entries@;
                let e = (k, v);
                proof {
                    lemma_ev_update(old_v, i as int, e);
                    assert(has_key(before, kv));
                    let j = key_pos(before, kv);
                    assert(before[j].0 == kv);
                    assert(j == i);
                }
                self.entries.set(i, e);
            },
            None => {
                let ghost old_v = self.entries@;
                let e = (k, v);
                proof {
                    lemma_ev_push(old_v, e);
                }
                self.entries.push(e);
            },
        }
    }

    pub fn remove(&mut self, k: &[char]) -> (r: Option<u64>)
        requires
            old(self).wf(),
        ensures
            final(self).wf(),
            final(self)@ == old(self)@.remove(k@),
            final(self).pairs() == seq_remove(old(self).pairs(), k@),
            r == old(self)@.get(k@),
    {
        let ghost before = self.pairs();
        proof {
            lemma_seq_remove(before, k@);
            lemma_to_map(before);
        }
        match find_key(&self.entries, k) {
            Some(i) => {
                proof {
                    lemma_ev_remove(self.entries@, i as int);
                    assert(has_key(before, k@));
                    let j = key_pos(before, k@);
                    assert(before[j].0 == k@);
                    assert(j == i);
                    assert(to_map(before)[before[i as int].0] == before[i as int].1);
                }
                let e = self.entries.remove(i);
                Some(e.1)
            },
            None => None,
        }
    }
}

/// The children of a directory: names mapped to inodes, kept sorted by name.
#[derive(Debug)]
pub struct ChildMap {
    entries: Vec<(Vec<char>, u64)>,
}

impl ChildMap {
    pub closed spec fn pairs(&self) -> Seq<(Seq<char>, u64)> {
        entries_view(self.entries@)
    }

    pub closed spec fn wf(&self) -> bool {
        sorted_by_key(self.pairs())
    }

    pub open spec fn view(&self) -> Map<Seq<char>, u64> {
        to_map(self.pairs())
    }

    pub fn new() -> (r: Self)
        ensures
            r.wf(),
            r@ == Map::<Seq<char>, u64>::empty(),
            r.pairs().len() == 0,
    {
        ChildMap { entries: Vec::new() }
    }

    pub fn len(&self) -> (r: usize)
        ensures
            r == self.pairs().len(),
    {
        self.entries.len()
    }

    pub fn is_empty(&self) -> (r: bool)
        requires
            self.wf(),
        ensures
            r == (self@ == Map::<Seq<char>, u64>::empty()),
    {
        proof {
            self.lemma_view();
            if self.pairs().len() > 0 {
                assert(has_key(self.pairs(), self.pairs()[0].0));
                assert(self@.contains_key(self.pairs()[0].0));
            } else {
                assert(self@ =~= Map::<Seq<char>, u64>::empty());
            }
        }
        self.entries.len() == 0
    }

    pub fn entry(&self, i: usize) -> (r: (&[char], u64))
        requires
            i < self.pairs().len(),
        ensures
            r.0@ == self.pairs()[i as int].0,
            r.1 == self.pairs()[i as int].1,
    {
        (self.entries[i].0.as_slice(), self.entries[i].1)
    }

    pub proof fn lemma_view(&self)
        requires
            self.wf(),
        ensures
            sorted_by_key(self.pairs()),
            keys_unique(self.pairs()),
            forall|k: Seq<char>| #[trigger] self@.contains_key(k) <==> has_key(self.pairs(), k),
            forall|i: int| 0 <= i < self.pairs().len() ==> #[trigger] self@[self.pairs()[i].0] == self.pairs()[i].1,
    {
        lemma_sorted_unique(self.pairs());
        lemma_to_map(self.pairs());
    }

    pub fn get(&self, k: &[char]) -> (r: Option<u64>)
        requires
            self.wf(),
        ensures
            r == self@.get(k@),
    {
        proof {
            self.lemma_view();
        }
        match find_key(&self.entries, k) {
            Some(i) => {
                proof {
                    assert(self@[self.pairs()[i as int].0] == self.pairs()[i as int].1);
                }
                Some(self.entries[i].1)
            },
            None => None,
        }
    }

    /// Inserts or replaces the child `k`, keeping names in order.
    pub fn insert(&mut self, k: Vec<char>, v: u64)
        requires
            old(self).wf(),
        ensures
            final(self).wf(),
            final(self)@ == old(self)@.insert(k@, v),
    {
        proof {
            self.lemma_view();
        }
        let ghost kv = k@;
        let ghost before = self.pairs();
        let mut i: usize = 0;
        while i < self.entries.len()
            invariant
                self.pairs() == before,
                old(self).pairs() == before,
                k@ == kv,
                sorted_by_key(before),
                i <= before.len(),
                forall|j: int| 0 <= j < i ==> crate::text::seq_lt(before[j].0, kv),
            ensures
                self.pairs() == before,
                i <= before.len(),
                forall|j: int| 0 <= j < i ==> crate::text::seq_lt(before[j].0, kv),
                i < before.len() ==> crate::text::seq_lt(kv, before[i as int].0),
            decreases before.len() - i,
        {
            proof {
                assert(before[i as int].0 == self.entries@[i as int].0@);
            }
            let rel = order_chars(self.entries[i].0.as_slice(), k.as_slice());
            match rel {
                Rel::Less => {
                    proof {
                        assert(crate::text::seq_lt(before[i as int].0, kv));
                    }
                    i = i + 1;
                },
                Rel::Equal => {
                    let ghost old_v = self.entries@;
                    let e = (k, v);
                    proof {
                        lemma_ev_update(old_v, i as int, e);
                    }
                    self.entries.set(i, e);
                    proof {
                        let after = self.pairs();
                        assert(after == before.update(i as int, (kv, v)));
                        assert(sorted_by_key(after)) by {
                            assert forall|a: int, b: int| 0 <= a < b < after.len() implies crate::text::seq_lt(after[a].0, after[b].0) by {
                                assert(crate::text::seq_lt(before[a].0, before[b].0));
                            }
                        }
                        lemma_sorted_unique(after);
                        lemma_sorted_unique(before);
                        lemma_to_map(after);
                        lemma_to_map(before);
                        assert(to_map(after) =~= to_map(before).insert(kv, v)) by {
                            assert forall|key: Seq<char>| #[trigger] to_map(after).contains_key(key) <==> to_map(before).insert(kv, v).contains_key(key) by {
                                if has_key(after, key) {
                                    let j = choose|j: int| 0 <= j < after.len() && after[j].0 == key;
                                    if j != i {
                                        assert(before[j].0 == key);
                                    }
                                }
                                if has_key(before, key) && key != kv {
                                    let j = choose|j: int| 0 <= j < before.len() && before[j].0 == key;
                                    assert(after[j].0 == key);
                                }
                                if key == kv {
                                    assert(after[i as int].0 == key);
                                }
                            }
                            assert forall|key: Seq<char>| #[trigger] to_map(after).contains_key(key) implies to_map(after)[key] == to_map(before).insert(kv, v)[key] by {
                                let j = choose|j: int| 0 <= j < after.len() && after[j].0 == key;
                                assert(to_map(after)[after[j].0] == after[j].1);
                                if j != i {
                                    assert(before[j] == after[j]);
                                    assert(to_map(before)[before[j].0] == before[j].1);
                                }
                            }
                        }
                    }
                    return;
                },
                Rel::Greater => {
                    break;
                },
            }
        }
        // All entries before `i` are smaller than `k`; those from `i` on are greater.
        proof {
            assert forall|j: int| i <= j < before.len() implies crate::text::seq_lt(kv, before[j].0) by {
                if j == i {
                } else {
                    assert(crate::text::seq_lt(before[i as int].0, before[j].0));
                    crate::text::lemma_seq_lt_trans(kv, before[i as int].0, before[j].0);
                }
            }
        }
        let ghost old_v = self.entries@;
        let e = (k, v);
        proof {
            lemma_ev_insert(old_v, i as int, e);
        }
        self.entries.insert(i, e);
        proof {
            let after = self.pairs();
            assert(after == before.insert(i as int, (kv, v)));
            assert(sorted_by_key(after)) by {
                assert forall|a: int, b: int| 0 <= a < b < after.len() implies crate::text::seq_lt(after[a].0, after[b].0) by {
                    if b < i {
                        assert(crate::text::seq_lt(before[a].0, before[b].0));
                    } else if b == i {
                        assert(after[a] == before[a]);
                    } else if a < i {
                        assert(after[b] == before[b - 1]);
                        assert(crate::text::seq_lt(before[a].0, kv));
                        crate::text::lemma_seq_lt_trans(before[a].0, kv, before[b - 1].0);
                    } else if a == i {
                        assert(after[b] == before[b - 1]);
                    } else {
                        assert(crate::text::seq_lt(before[a - 1].0, before[b - 1].0));
                    }
                }
            }
            lemma_sorted_unique(after);
            lemma_sorted_unique(before);
            lemma_to_map(after);
            lemma_to_map(before);
            assert(!has_key(before, kv)) by {
                if has_key(before, kv) {
                    let j = choose|j: int| 0 <= j < before.len() && before[j].0 == kv;
                    if j < i {
                        crate::text::lemma_seq_lt_irrefl(kv);
                    } else {
                        crate::text::lemma_seq_lt_irrefl(kv);
                    }
                }
            }
            assert(to_map(after) =~= to_map(before).insert(kv, v)) by {
                assert forall|key: Seq<char>| #[trigger] to_map(after).contains_key(key) <==> to_map(before).insert(kv, v).contains_key(key) by {
                    if has_key(after, key) {
                        let j = choose|j: int| 0 <= j < after.len() && after[j].0 == key;
                        if j < i {
                            assert(before[j].0 == key);
                        } else if j > i {
                            assert(before[j - 1].0 == key);
                        }
                    }
                    if has_key(before, key) {
                        let j = choose|j: int| 0 <= j < before.len() && before[j].0 == key;
                        if j < i {
                            assert(after[j].0 == key);
                        } else {
                            assert(after[j + 1].0 == key);
                        }
                    }
                    if key == kv {
                        assert(after[i as int].0 == key);
                    }
                }
                assert forall|key: Seq<char>| #[trigger] to_map(after).contains_key(key) implies to_map(after)[key] == to_map(before).insert(kv, v)[key] by {
                    let j = choose|j: int| 0 <= j < after.len() && after[j].0 == key;
                    assert(to_map(after)[after[j].0] == after[j].1);
                    if j < i {
                        assert(to_map(before)[before[j].0] == before[j].1);
                    } else if j > i {
                        assert(to_map(before)[before[j - 1].0] == before[j - 1].1);
                    }
                }
            }
        }
    }

    /// Removes the child `k` if present.
    pub fn remove(&mut self, k: &[char]) -> (r: Option<u64>)
        requires
            old(self).wf(),
        ensures
            final(self).wf(),
            final(self)@ == old(self)@.remove(k@),
            r == old(self)@.get(k@),
    {
        proof {
            self.lemma_view();
        }
        match find_key(&self.entries, k) {
            Some(i) => {
                let ghost before = self.pairs();
                proof {
                    lemma_ev_remove(self.entries@, i as int);
                }
                let e = self.entries.remove(i);
                proof {
                    let after = self.pairs();
                    assert(after == before.remove(i as int));
                    assert(sorted_by_key(after)) by {
                        assert forall|a: int, b: int| 0 <= a < b < after.len() implies crate::text::seq_lt(after[a].0, after[b].0) by {
                            if b < i {
                                assert(crate::text::seq_lt(before[a].0, before[b].0));
                            } else if a < i {
                                assert(crate::text::seq_lt(before[a].0, before[b + 1].0));
                            } else {
                                assert(crate::text::seq_lt(before[a + 1].0, before[b + 1].0));
                            }
                        }
                    }
                    lemma_sorted_unique(after);
                    lemma_to_map(after);
                    assert(to_map(after) =~= to_map(before).remove(k@)) by {
                        assert forall|key: Seq<char>| #[trigger] to_map(after).contains_key(key) <==> to_map(before).remove(k@).contains_key(key) by {
                            if has_key(after, key) {
                                let j = choose|j: int| 0 <= j < after.len() && after[j].0 == key;
                                if j < i {
                                    assert(before[j].0 == key);
                                } else {
                                    assert(before[j + 1].0 == key);
                                }
                            }
                            if has_key(before, key) && key != k@ {
                                let j = choose|j: int| 0 <= j < before.len() && before[j].0 == key;
                                if j < i {
                                    assert(after[j].0 == key);
                                } else {
                                    assert(after[j - 1].0 == key);
                                }
                            }
                        }
                        assert forall|key: Seq<char>| #[trigger] to_map(after).contains_key(key) implies to_map(after)[key] == to_map(before).remove(k@)[key] by {
                            let j = choose|j: int| 0 <= j < after.len() && after[j].0 == key;
                            assert(to_map(after)[after[j].0] == after[j].1);
                            if j < i {
                                assert(to_map(before)[before[j].0] == before[j].1);
                            } else {
                                assert(to_map(before)[before[j + 1].0] == before[j + 1].1);
                            }
                        }
                    }
                    assert(to_map(before)[before[i as int].0] == before[i as int].1);
                }
                Some(e.1)
            },
            None => {
                proof {
                    assert(self@.remove(k@) =~= self@);
                }
                None
            },
        }
    }
}

} // verus!

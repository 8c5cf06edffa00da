//! Reading search queries: the `term~distance` form of a fuzzy query, and the plan of a
//! fuzzy query over several fields built from free text.
use vstd::prelude::*;

use crate::numtext::{parse_u32, parse_u32_spec};
use crate::text::{from_chars, to_chars};

verus! {

/// `char::is_whitespace`: the characters with the Unicode `White_Space` property.
pub open spec fn is_ws(c: char) -> bool {
    ||| c == '\t' || c == '\n' || c == '\u{0B}' || c == '\u{0C}' || c == '\r' || c == ' '
    ||| c == '\u{85}' || c == '\u{A0}' || c == '\u{1680}'
    ||| ('\u{2000}' <= c && c <= '\u{200A}')
    ||| c == '\u{2028}' || c == '\u{2029}' || c == '\u{202F}' || c == '\u{205F}' || c == '\u{3000}'
}

fn is_ws_exec(c: char) -> (r: bool)
    ensures
        r == is_ws(c),
{
    c == '\t' || c == '\n' || c == '\u{0B}' || c == '\u{0C}' || c == '\r' || c == ' ' || c == '\u{85}' || c == '\u{A0}'
        || c == '\u{1680}' || ('\u{2000}' <= c && c <= '\u{200A}') || c == '\u{2028}' || c == '\u{2029}' || c == '\u{202F}'
        || c == '\u{205F}' || c == '\u{3000}'
}

/// The number of leading whitespace characters.
pub open spec fn lead_ws(s: Seq<char>) -> nat
    decreases s.len(),
{
    if s.len() > 0 && is_ws(s[0]) {
        1 + lead_ws(s.drop_first())
    } else {
        0
    }
}

/// The number of trailing whitespace characters.
pub open spec fn trail_ws(s: Seq<char>) -> nat
    decreases s.len(),
{
    if s.len() > 0 && is_ws(s.last()) {
        1 + trail_ws(s.drop_last())
    } else {
        0
    }
}

/// `str::trim`: without leading and trailing whitespace.
pub open spec fn trim_spec(s: Seq<char>) -> Seq<char> {
    let t = s.skip(lead_ws(s) as int);
    t.subrange(0, t.len() - trail_ws(t))
}

proof fn lemma_lead_ws(s: Seq<char>, i: int)
    requires
        0 <= i <= s.len(),
        forall|j: int| 0 <= j < i ==> is_ws(#[trigger] s[j]),
    ensures
        i == s.len() || !is_ws(s[i]) ==> lead_ws(s) == i,
        lead_ws(s) >= i,
        lead_ws(s) <= s.len(),
    decreases i,
{
    if i > 0 {
        let t = s.drop_first();
        assert forall|j: int| 0 <= j < i - 1 implies is_ws(#[trigger] t[j]) by {
            assert(t[j] == s[j + 1]);
        }
        lemma_lead_ws(t, i - 1);
        if i < s.len() {
            assert(t[i - 1] == s[i]);
        }
    } else {
        lemma_lead_bound(s);
    }
}

proof fn lemma_lead_bound(s: Seq<char>)
    ensures
        lead_ws(s) <= s.len(),
    decreases s.len(),
{
    if s.len() > 0 {
        lemma_lead_bound(s.drop_first());
    }
}

proof fn lemma_trail_ws(s: Seq<char>, k: int)
    requires
        0 <= k <= s.len(),
        forall|j: int| s.len() - k <= j < s.len() ==> is_ws(#[trigger] s[j]),
    ensures
        k == s.len() || !is_ws(s[s.len() - 1 - k]) ==> trail_ws(s) == k,
        trail_ws(s) <= s.len(),
    decreases k,
{
    if k > 0 {
        let t = s.drop_last();
        assert forall|j: int| t.len() - (k - 1) <= j < t.len() implies is_ws(#[trigger] t[j]) by {
            assert(t[j] == s[j]);
        }
        lemma_trail_ws(t, k - 1);
        if k < s.len() {
            assert(t[t.len() - 1 - (k - 1)] == s[s.len() - 1 - k]);
        }
    } else {
        lemma_trail_bound(s);
    }
}

proof fn lemma_trail_bound(s: Seq<char>)
    ensures
        trail_ws(s) <= s.len(),
    decreases s.len(),
{
    if s.len() > 0 {
        lemma_trail_bound(s.drop_last());
    }
}

/// `str::trim` on characters.
pub fn trim_ws(s: &[char]) -> (r: Vec<char>)
    ensures
        r@ == trim_spec(s@),
{
    let mut a: usize = 0;
    while a < s.len() && is_ws_exec(s[a])
        invariant
            a <= s@.len(),
            forall|j: int| 0 <= j < a ==> is_ws(#[trigger] s@[j]),
        decreases s@.len() - a,
    {
        a = a + 1;
    }
    proof {
        lemma_lead_ws(s@, a as int);
    }
    let ghost t = s@.skip(a as int);
    let mut k: usize = 0;
    while k < s.len() - a && is_ws_exec(s[s.len() - 1 - k])
        invariant
            a <= s@.len(),
            t == s@.skip(a as int),
            k <= s@.len() - a,
            forall|j: int| t.len() - k <= j < t.len() ==> is_ws(#[trigger] t[j]),
        decreases s@.len() - a - k,
    {
        proof {
            assert(t[t.len() - 1 - k] == s@[s@.len() - 1 - k]);
        }
        k = k + 1;
    }
    proof {
        if k < s@.len() - a {
            assert(t[t.len() - 1 - k] == s@[s@.len() - 1 - k]);
        }
        lemma_trail_ws(t, k as int);
    }
    let mut out: Vec<char> = Vec::new();
    let mut i: usize = a;
    while i < s.len() - k
        invariant
            a <= i <= s@.len() - k,
            k <= s@.len() - a,
            out@ == s@.subrange(a as int, i as int),
        decreases s@.len() - k - i,
    {
        out.push(s[i]);
        i = i + 1;
        proof {
            assert(out@ =~= s@.subrange(a as int, i as int));
        }
    }
    proof {
        assert(out@ =~= t.subrange(0, t.len() - trail_ws(t)));
    }
    out
}

/// The position of the last occurrence of `c`.
pub open spec fn last_index_of(s: Seq<char>, c: char) -> Option<int>
    decreases s.len(),
{
    if s.len() == 0 {
        None
    } else if s.last() == c {
        Some(s.len() - 1)
    } else {
        last_index_of(s.drop_last(), c)
    }
}

fn rfind_char(s: &[char], c: char) -> (r: Option<usize>)
    ensures
        match r {
            Some(i) => i < s@.len() && last_index_of(s@, c) == Some(i as int),
            None => last_index_of(s@, c) is None,
        },
{
    let mut k: usize = s.len();
    proof {
        assert(s@.subrange(0, k as int) =~= s@);
    }
    while k > 0
        invariant
            k <= s@.len(),
            last_index_of(s@, c) == last_index_of(s@.subrange(0, k as int), c),
        decreases k,
    {
        let ghost p = s@.subrange(0, k as int);
        proof {
            assert(p.last() == s@[k - 1]);
            assert(p.drop_last() =~= s@.subrange(0, k - 1));
        }
        if s[k - 1] == c {
            return Some(k - 1);
        }
        k = k - 1;
    }
    None
}

fn contains_char(s: &[char], c: char) -> (r: bool)
    ensures
        r == s@.contains(c),
{
    let mut i: usize = 0;
    while i < s.len()
        invariant
            i <= s@.len(),
            forall|j: int| 0 <= j < i ==> s@[j] != c,
        decreases s@.len() - i,
    {
        if s[i] == c {
            return true;
        }
        i = i + 1;
    }
    false
}

/// What `str::to_lowercase` gives: the Unicode lower-case mapping of the text (by character,
/// except that a capital sigma becomes a final sigma at the end of a word).
pub uninterp spec fn unicode_lowercase(s: Seq<char>) -> Seq<char>;

/// `str::to_lowercase`: its result is a function of the text alone.
#[verifier::external_body]
fn to_lowercase(s: &str) -> (r: String)
    ensures
        r@ == unicode_lowercase(s@),
{
    s.to_lowercase()
}

/// A fuzzy query of the form `term~distance`, as read from a trimmed query: a term that
/// is not empty and holds neither `:` nor a space, before the last `~`, and a distance of
/// at most 2 after it; the term lower-cased.
pub open spec fn fuzzy_query_spec(q: Seq<char>) -> Option<(Seq<char>, u8)> {
    let t = trim_spec(q);
    match last_index_of(t, '~') {
        None => None,
        Some(p) => {
            let term = t.subrange(0, p);
            let dist = t.subrange(p + 1, t.len() as int);
            if term.len() > 0 && !term.contains(':') && !term.contains(' ') && parse_u32_spec(dist) is Some
                && parse_u32_spec(dist)->0 <= 2 {
                Some((unicode_lowercase(term), parse_u32_spec(dist)->0 as u8))
            } else {
                None
            }
        },
    }
}

/// Reads a query as `term~distance` where it has that form (the distance read as the
/// number `str::parse` gives, which for the distances accepted agrees with reading it
/// as a byte).
pub fn parse_fuzzy_query(query: &str) -> (r: Option<(String, u8)>)
    ensures
        match fuzzy_query_spec(query@) {
            None => r is None,
            Some((term, d)) => r is Some && (r->0).0@ == term && (r->0).1 == d,
        },
{
    let cs = to_chars(query);
    let t = trim_ws(cs.as_slice());
    match rfind_char(t.as_slice(), '~') {
        None => None,
        Some(p) => {
            let mut term: Vec<char> = Vec::new();
            let mut i: usize = 0;
            while i < p
                invariant
                    p < t@.len(),
                    i <= p,
                    term@ == t@.subrange(0, i as int),
                decreases p - i,
            {
                term.push(t[i]);
                i = i + 1;
                proof {
                    assert(term@ =~= t@.subrange(0, i as int));
                }
            }
            let mut dist: Vec<char> = Vec::new();
            assert(p < t.len());
            let mut j: usize = p + 1;
            while j < t.len()
                invariant
                    p < t@.len(),
                    p + 1 <= j <= t@.len(),
                    dist@ == t@.subrange(p + 1, j as int),
                decreases t@.len() - j,
            {
                dist.push(t[j]);
                j = j + 1;
                proof {
                    assert(dist@ =~= t@.subrange(p + 1, j as int));
                }
            }
            if term.len() == 0 || contains_char(term.as_slice(), ':') || contains_char(term.as_slice(), ' ') {
                return None;
            }
            match parse_u32(dist.as_slice()) {
                Some(d) => {
                    if d <= 2 {
                        let text = from_chars(term.as_slice());
                        Some((to_lowercase(text.as_str()), d as u8))
                    } else {
                        None
                    }
                },
                None => None,
            }
        },
    }
}

/// Splitting state after reading a prefix: finished words and the one in progress.
pub open spec fn ws_state(s: Seq<char>) -> (Seq<Seq<char>>, Seq<char>)
    decreases s.len(),
{
    if s.len() == 0 {
        (Seq::empty(), Seq::empty())
    } else {
        let (acc, cur) = ws_state(s.drop_last());
        if is_ws(s.last()) {
            (if cur.len() > 0 { acc.push(cur) } else { acc }, Seq::empty())
        } else {
            (acc, cur.push(s.last()))
        }
    }
}

/// `str::split_whitespace`: the non-empty runs of non-whitespace characters, in order.
pub open spec fn split_ws(s: Seq<char>) -> Seq<Seq<char>> {
    let (acc, cur) = ws_state(s);
    if cur.len() > 0 { acc.push(cur) } else { acc }
}

fn split_whitespace(s: &[char]) -> (r: Vec<Vec<char>>)
    ensures
        r@.len() == split_ws(s@).len(),
        forall|i: int| 0 <= i < r@.len() ==> #[trigger] r@[i]@ == split_ws(s@)[i],
{
    let mut acc: Vec<Vec<char>> = Vec::new();
    let mut cur: Vec<char> = Vec::new();
    let mut i: usize = 0;
    while i < s.len()
        invariant
            i <= s@.len(),
            acc@.len() == ws_state(s@.subrange(0, i as int)).0.len(),
            forall|j: int| 0 <= j < acc@.len() ==> #[trigger] acc@[j]@ == ws_state(s@.subrange(0, i as int)).0[j],
            cur@ == ws_state(s@.subrange(0, i as int)).1,
        decreases s@.len() - i,
    {
        proof {
            assert(s@.subrange(0, i + 1).drop_last() =~= s@.subrange(0, i as int));
        }
        if is_ws_exec(s[i]) {
            if cur.len() > 0 {
                acc.push(cur);
                cur = Vec::new();
            }
            proof {
                assert(cur@ =~= Seq::<char>::empty());
            }
        } else {
            cur.push(s[i]);
        }
        i = i + 1;
    }
    proof {
        assert(s@.subrange(0, s@.len() as int) =~= s@);
    }
    if cur.len() > 0 {
        acc.push(cur);
    }
    acc
}

/// One word of a fuzzy query: it should match, within the distance, in any of the fields.
pub struct FuzzyClause {
    pub term: String,
    pub fields: Vec<u32>,
    pub distance: u8,
}

/// A fuzzy query: every document where there are no words, else every clause must match.
pub enum FuzzyQuery {
    All,
    Must(Vec<FuzzyClause>),
}

/// Builds fuzzy queries over a list of fields (numbered as the index schema numbers them).
pub struct SearchQueryBuilder {
    pub fields: Vec<u32>,
    pub default_fuzziness: u8,
}

fn copy_fields(v: &Vec<u32>) -> (r: Vec<u32>)
    ensures
        r@ == v@,
{
    let mut out: Vec<u32> = Vec::new();
    let mut i: usize = 0;
    while i < v.len()
        invariant
            i <= v@.len(),
            out@ == v@.subrange(0, i as int),
        decreases v@.len() - i,
    {
        out.push(v[i]);
        i = i + 1;
        proof {
            assert(out@ =~= v@.subrange(0, i as int));
        }
    }
    proof {
        assert(v@.subrange(0, v@.len() as int) =~= v@);
    }
    out
}

impl SearchQueryBuilder {
    /// A builder over these fields with a fuzziness of 1.
    pub fn new(fields: Vec<u32>) -> (r: Self)
        ensures
            r.fields@ == fields@,
            r.default_fuzziness == 1,
    {
        SearchQueryBuilder { fields, default_fuzziness: 1 }
    }

    pub fn with_fuzziness(self, fuzziness: u8) -> (r: Self)
        ensures
            r.fields@ == self.fields@,
            r.default_fuzziness == fuzziness,
    {
        SearchQueryBuilder { fields: self.fields, default_fuzziness: fuzziness }
    }

    /// The query for some free text: every document where the text has no words; else, for
    /// each word in order, its lower-cased text to be matched within the fuzziness in any of
    /// the fields.
    pub fn build_fuzzy(&self, query_text: &str) -> (r: FuzzyQuery)
        ensures
            split_ws(query_text@).len() == 0 ==> r is All,
            split_ws(query_text@).len() > 0 ==> (r matches FuzzyQuery::Must(cs) && cs@.len() == split_ws(query_text@).len()
                && forall|i: int| 0 <= i < cs@.len() ==> {
                &&& (#[trigger] cs@[i]).term@ == unicode_lowercase(split_ws(query_text@)[i])
                &&& cs@[i].fields@ == self.fields@
                &&& cs@[i].distance == self.default_fuzziness
            }),
    {
        let cs = to_chars(query_text);
        let words = split_whitespace(cs.as_slice());
        if words.len() == 0 {
            return FuzzyQuery::All;
        }
        let mut clauses: Vec<FuzzyClause> = Vec::new();
        let mut i: usize = 0;
        while i < words.len()
            invariant
                cs@ == query_text@,
                words@.len() == split_ws(cs@).len(),
                forall|j: int| 0 <= j < words@.len() ==> #[trigger] words@[j]@ == split_ws(cs@)[j],
                i <= words@.len(),
                clauses@.len() == i,
                forall|j: int| 0 <= j < i ==> {
                    &&& (#[trigger] clauses@[j]).term@ == unicode_lowercase(split_ws(cs@)[j])
                    &&& clauses@[j].fields@ == self.fields@
                    &&& clauses@[j].distance == self.default_fuzziness
                },
            decreases words@.len() - i,
        {
            let text = from_chars(words[i].as_slice());
            let term = to_lowercase(text.as_str());
            clauses.push(FuzzyClause { term, fields: copy_fields(&self.fields), distance: self.default_fuzziness });
            i = i + 1;
        }
        FuzzyQuery::Must(clauses)
    }
}

} // verus!

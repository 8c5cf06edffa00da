//! Path text helpers for the virtual tree.
use vstd::prelude::*;

verus! {

/// What `std::path::Path::parent` gives for a path, as text.
pub uninterp spec fn std_path_parent(p: Seq<char>) -> Option<Seq<char>>;

/// What `std::path::Path::file_name` gives for a path, as text.
pub uninterp spec fn std_path_file_name(p: Seq<char>) -> Option<Seq<char>>;

/// `Path::parent` on the text of a path; the parent of a `str` path is a prefix of it, so
/// the lossless text is returned.
#[verifier::external_body]
pub(crate) fn path_parent(p: &str) -> (r: Option<String>)
    ensures
        match r {
            Some(s) => std_path_parent(p@) == Some(s@),
            None => std_path_parent(p@) is None,
        },
{
    std::path::Path::new(p).parent().map(|q| q.to_string_lossy().into_owned())
}

/// `Path::file_name` on the text of a path.
#[verifier::external_body]
pub(crate) fn path_file_name(p: &str) -> (r: Option<String>)
    ensures
        match r {
            Some(s) => std_path_file_name(p@) == Some(s@),
            None => std_path_file_name(p@) is None,
        },
{
    std::path::Path::new(p).file_name().map(|q| q.to_string_lossy().into_owned())
}

pub open spec fn slash_seq() -> Seq<char> {
    seq!['/']
}

/// The parent of a path, or `/` when it has none.
pub open spec fn parent_or_root(p: Seq<char>) -> Seq<char> {
    match std_path_parent(p) {
        Some(q) => q,
        None => slash_seq(),
    }
}

/// The parent of a path, with an empty or missing parent read as `/`.
pub open spec fn parent_or_root_nonempty(p: Seq<char>) -> Seq<char> {
    match std_path_parent(p) {
        Some(q) => if q.len() == 0 { slash_seq() } else { q },
        None => slash_seq(),
    }
}

/// The last component of a path, or the empty name when it has none.
pub open spec fn name_or_empty(p: Seq<char>) -> Seq<char> {
    match std_path_file_name(p) {
        Some(q) => q,
        None => Seq::empty(),
    }
}

pub fn parent_or_root_exec(p: &str) -> (r: Vec<char>)
    ensures
        r@ == parent_or_root(p@),
{
    match path_parent(p) {
        Some(s) => crate::text::to_chars(s.as_str()),
        None => {
            let mut v = Vec::new();
            v.push('/');
            proof { assert(v@ =~= slash_seq()); }
            v
        },
    }
}

pub fn parent_or_root_nonempty_exec(p: &str) -> (r: Vec<char>)
    ensures
        r@ == parent_or_root_nonempty(p@),
{
    let mut root = Vec::new();
    root.push('/');
    proof { assert(root@ =~= slash_seq()); }
    match path_parent(p) {
        Some(s) => {
            let cs = crate::text::to_chars(s.as_str());
            if cs.len() == 0 {
                root
            } else {
                cs
            }
        },
        None => root,
    }
}

pub fn name_or_empty_exec(p: &str) -> (r: Vec<char>)
    ensures
        r@ == name_or_empty(p@),
{
    match path_file_name(p) {
        Some(s) => crate::text::to_chars(s.as_str()),
        None => {
            let v = Vec::new();
            proof { assert(v@ =~= Seq::<char>::empty()); }
            v
        },
    }
}

/// Splitting state after reading a prefix: finished components and the one in progress.
pub open spec fn comp_state(s: Seq<char>) -> (Seq<Seq<char>>, Seq<char>)
    decreases s.len(),
{
    if s.len() == 0 {
        (Seq::empty(), Seq::empty())
    } else {
        let (acc, cur) = comp_state(s.drop_last());
        if s.last() == '/' {
            (if cur.len() > 0 { acc.push(cur) } else { acc }, Seq::empty())
        } else {
            (acc, cur.push(s.last()))
        }
    }
}

/// The non-empty `/`-separated components of a path, in order.
pub open spec fn path_components(s: Seq<char>) -> Seq<Seq<char>> {
    let (acc, cur) = comp_state(s);
    if cur.len() > 0 { acc.push(cur) } else { acc }
}

pub fn split_components(s: &[char]) -> (r: Vec<Vec<char>>)
    ensures
        r@.len() == path_components(s@).len(),
        forall|i: int| 0 <= i < r@.len() ==> #[trigger] r@[i]@ == path_components(s@)[i],
{
    let mut acc: Vec<Vec<char>> = Vec::new();
    let mut cur: Vec<char> = Vec::new();
    let mut i: usize = 0;
    while i < s.len()
        invariant
            i <= s@.len(),
            acc@.len() == comp_state(s@.subrange(0, i as int)).0.len(),
            forall|j: int| 0 <= j < acc@.len() ==> #[trigger] acc@[j]@ == comp_state(s@.subrange(0, i as int)).0[j],
            cur@ == comp_state(s@.subrange(0, i as int)).1,
        decreases s@.len() - i,
    {
        proof {
            assert(s@.subrange(0, i + 1).drop_last() =~= s@.subrange(0, i as int));
        }
        if s[i] == '/' {
            if cur.len() > 0 {
                acc.push(cur);
                cur = Vec::new();
            }
            proof {
                assert(cur@ =~= Seq::<char>::empty());
            }
        } else {
            cur.push(s[i]);
        }
        i = i + 1;
    }
    proof {
        assert(s@.subrange(0, s@.len() as int) =~= s@);
    }
    if cur.len() > 0 {
        acc.push(cur);
    }
    acc
}

/// The path `/c0/c1/.../cj` built from the first `j + 1` components.
pub open spec fn dir_prefix(comps: Seq<Seq<char>>, j: int) -> Seq<char>
    decreases j,
{
    if j <= 0 {
        slash_seq() + comps[0]
    } else {
        dir_prefix(comps, j - 1) + slash_seq() + comps[j]
    }
}

} // verus!

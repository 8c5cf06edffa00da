//! The `.search` directory: which inodes belong to it, how result entries are named,
//! where their symlinks point, and which directory entries a listing hands out.
use vstd::prelude::*;

use crate::pathutil::{path_components, split_components};
use crate::text::{chars_eq, from_chars, push_char, to_chars, append_str};
use crate::numtext::{decimal, push_decimal};
use crate::types::{FileId, VirtualPath};

verus! {

/// Inode of the `.search` directory itself.
pub const SEARCH_DIR_INODE: u64 = 0xFFFF_FFFF_0000_0001;

/// First inode handed to search results; result `i` of a listing gets `SEARCH_RESULT_BASE + i`.
pub const SEARCH_RESULT_BASE: u64 = 0xFFFF_FFFF_1000_0000;

/// Longest query, in characters, that is looked up.
pub const MAX_QUERY_LENGTH: usize = 256;

/// The name under which the search directory appears at the mount root.
pub open spec fn search_dir_name() -> Seq<char> {
    seq!['.', 's', 'e', 'a', 'r', 'c', 'h']
}

/// Whether an inode belongs to the search tree: the directory itself or any result.
pub open spec fn is_search_inode_spec(inode: u64) -> bool {
    inode == SEARCH_DIR_INODE || inode >= SEARCH_RESULT_BASE
}

/// One match of a query, as the index reports it (its relevance score is left out:
/// nothing here orders by it).
pub struct SearchHit {
    pub file_id: FileId,
    pub virtual_path: VirtualPath,
    pub artist: Option<String>,
    pub album: Option<String>,
    pub title: Option<String>,
}

/// `n` zero digits.
pub open spec fn zeros(n: nat) -> Seq<char> {
    Seq::new(n, |_i: int| '0')
}

/// Digits left-padded with zeros to at least three characters (`{:03}`).
pub open spec fn pad3(d: Seq<char>) -> Seq<char> {
    if d.len() >= 3 { d } else { zeros((3 - d.len()) as nat) + d }
}

pub open spec fn unknown_text() -> Seq<char> {
    seq!['U', 'n', 'k', 'n', 'o', 'w', 'n']
}

/// A tag's text, or `Unknown` where the tag is absent.
pub open spec fn or_unknown(o: Option<String>) -> Seq<char> {
    match o {
        Some(s) => s@,
        None => unknown_text(),
    }
}

/// The text after the last `.`; the whole text where there is none.
pub open spec fn after_last_dot(s: Seq<char>) -> Seq<char>
    decreases s.len(),
{
    if s.len() == 0 {
        s
    } else if s.last() == '.' {
        Seq::empty()
    } else {
        after_last_dot(s.drop_last()).push(s.last())
    }
}

/// The file name of result `index` in a query listing: its 1-based position padded to
/// three digits, artist, title and the extension of the matched file.
pub open spec fn result_name(hit: SearchHit, index: nat) -> Seq<char> {
    pad3(decimal(index + 1)) + seq!['.', ' '] + or_unknown(hit.artist) + seq![' ', '-', ' ']
        + or_unknown(hit.title) + seq!['.'] + after_last_dot(hit.virtual_path.0@)
}

fn push_or_unknown(out: &mut String, o: &Option<String>)
    ensures
        final(out)@ == old(out)@ + or_unknown(*o),
{
    match o {
        Some(s) => append_str(out, s.as_str()),
        None => {
            let u: Vec<char> = vec!['U', 'n', 'k', 'n', 'o', 'w', 'n'];
            let mut i: usize = 0;
            while i < u.len()
                invariant
                    u@ == unknown_text(),
                    i <= u@.len(),
                    out@ == old(out)@ + u@.subrange(0, i as int),
                decreases u@.len() - i,
            {
                push_char(out, u[i]);
                i = i + 1;
                proof {
                    assert(old(out)@ + u@.subrange(0, i as int) =~= (old(out)@ + u@.subrange(0, i - 1)).push(u@[i - 1]));
                }
            }
            proof {
                assert(u@.subrange(0, u@.len() as int) =~= u@);
            }
        },
    }
}

fn extension_chars(s: &[char]) -> (r: Vec<char>)
    ensures
        r@ == after_last_dot(s@),
{
    let mut cur: Vec<char> = Vec::new();
    let mut i: usize = 0;
    while i < s.len()
        invariant
            i <= s@.len(),
            cur@ == after_last_dot(s@.subrange(0, i as int)),
        decreases s@.len() - i,
    {
        proof {
            assert(s@.subrange(0, i + 1).drop_last() =~= s@.subrange(0, i as int));
        }
        if s[i] == '.' {
            cur = Vec::new();
            proof {
                assert(cur@ =~= Seq::<char>::empty());
            }
        } else {
            cur.push(s[i]);
        }
        i = i + 1;
    }
    proof {
        assert(s@.subrange(0, s@.len() as int) =~= s@);
    }
    cur
}

/// The name under which result `index` of a listing appears.
pub fn result_filename(hit: &SearchHit, index: usize) -> (r: String)
    requires
        index < usize::MAX,
    ensures
        r@ == result_name(*hit, index as nat),
{
    let mut digits = String::new();
    proof {
        assert(digits@ =~= Seq::<char>::empty());
    }
    push_decimal(&mut digits, (index + 1) as u64);
    proof {
        assert(digits@ =~= decimal((index + 1) as nat));
    }
    let d = to_chars(digits.as_str());
    let mut out = String::new();
    proof {
        assert(out@ =~= Seq::<char>::empty());
    }
    let mut k: usize = d.len();
    while k < 3
        invariant
            d@ == decimal((index + 1) as nat),
            d@.len() <= k <= 3 || (k == d@.len() && k >= 3),
            out@ == zeros((k - d@.len()) as nat),
        decreases 3 - k,
    {
        push_char(&mut out, '0');
        k = k + 1;
        proof {
            assert(out@ =~= zeros((k - d@.len()) as nat));
        }
    }
    let mut i: usize = 0;
    while i < d.len()
        invariant
            d@ == decimal((index + 1) as nat),
            i <= d@.len(),
            out@ == pad3(d@).subrange(0, (pad3(d@).len() - d@.len()) + i),
            pad3(d@).len() >= d@.len(),
            pad3(d@).subrange(pad3(d@).len() - d@.len(), pad3(d@).len() as int) == d@,
        decreases d@.len() - i,
    {
        push_char(&mut out, d[i]);
        i = i + 1;
        proof {
            assert(out@ =~= pad3(d@).subrange(0, (pad3(d@).len() - d@.len()) + i));
        }
    }
    proof {
        assert(out@ =~= pad3(d@));
    }
    push_char(&mut out, '.');
    push_char(&mut out, ' ');
    push_or_unknown(&mut out, &hit.artist);
    push_char(&mut out, ' ');
    push_char(&mut out, '-');
    push_char(&mut out, ' ');
    push_or_unknown(&mut out, &hit.title);
    push_char(&mut out, '.');
    let vp = to_chars(hit.virtual_path.0.as_str());
    let ext = extension_chars(&vp);
    let mut j: usize = 0;
    let ghost pre = out@;
    while j < ext.len()
        invariant
            j <= ext@.len(),
            out@ == pre + ext@.subrange(0, j as int),
        decreases ext@.len() - j,
    {
        push_char(&mut out, ext[j]);
        j = j + 1;
        proof {
            assert(pre + ext@.subrange(0, j as int) =~= (pre + ext@.subrange(0, j - 1)).push(ext@[j - 1]));
        }
    }
    proof {
        assert(ext@.subrange(0, ext@.len() as int) =~= ext@);
        assert(out@ =~= result_name(*hit, index as nat));
    }
    out
}

/// A path component that names an entry: neither `.` nor `..`.
pub open spec fn is_normal_comp(c: Seq<char>) -> bool {
    c != seq!['.'] && c != seq!['.', '.']
}

/// The components that name entries, in order.
pub open spec fn keep_normals(cs: Seq<Seq<char>>) -> Seq<Seq<char>>
    decreases cs.len(),
{
    if cs.len() == 0 {
        cs
    } else if is_normal_comp(cs.last()) {
        keep_normals(cs.drop_last()).push(cs.last())
    } else {
        keep_normals(cs.drop_last())
    }
}

/// Components joined with `/`.
pub open spec fn join_slash(cs: Seq<Seq<char>>) -> Seq<char>
    decreases cs.len(),
{
    if cs.len() == 0 {
        Seq::empty()
    } else {
        join_slash(cs.drop_last()) + (if cs.len() > 1 { seq!['/'] } else { Seq::empty() }) + cs.last()
    }
}

/// A virtual path with `.` and `..` components and repeated slashes dropped: a leading `/`
/// where it had one, then the remaining components joined with `/`.
pub open spec fn normalized_target(s: Seq<char>) -> Seq<char> {
    (if s.len() > 0 && s[0] == '/' { seq!['/'] } else { Seq::empty() }) + join_slash(keep_normals(path_components(s)))
}

/// Whether `..` occurs anywhere in a text.
pub open spec fn has_dotdot(t: Seq<char>) -> bool {
    exists|i: int| 0 <= i && i + 1 < t.len() && #[trigger] t[i] == '.' && t[i + 1] == '.'
}

/// Where the symlink of a result points: the mount point followed by the normalized
/// virtual path, unless `..` still occurs in it.
pub open spec fn symlink_target(mount: Seq<char>, virtual_path: Seq<char>) -> Option<Seq<char>> {
    if has_dotdot(normalized_target(virtual_path)) {
        None
    } else {
        Some(mount + normalized_target(virtual_path))
    }
}

fn is_normal_exec(c: &Vec<char>) -> (r: bool)
    ensures
        r == is_normal_comp(c@),
{
    let dot = c.len() == 1 && c[0] == '.';
    let dotdot = c.len() == 2 && c[0] == '.' && c[1] == '.';
    proof {
        if c@.len() == 1 && !dot {
            assert(c@ != seq!['.']) by {
                if c@ == seq!['.'] {
                    assert(c@[0] == '.');
                }
            }
        }
        if c@.len() == 2 && !dotdot {
            assert(c@ != seq!['.', '.']) by {
                if c@ == seq!['.', '.'] {
                    assert(c@[0] == '.' && c@[1] == '.');
                }
            }
        }
        if dot {
            assert(c@ =~= seq!['.']);
        }
        if dotdot {
            assert(c@ =~= seq!['.', '.']);
        }
    }
    !dot && !dotdot
}

fn normalize_target(s: &[char]) -> (r: Vec<char>)
    ensures
        r@ == normalized_target(s@),
{
    let comps = split_components(s);
    let mut out: Vec<char> = Vec::new();
    if s.len() > 0 && s[0] == '/' {
        out.push('/');
    }
    let ghost root = out@;
    proof {
        assert(root == (if s@.len() > 0 && s@[0] == '/' { seq!['/'] } else { Seq::<char>::empty() }));
    }
    let ghost all = path_components(s@);
    let mut kept: usize = 0;
    let mut i: usize = 0;
    proof {
        assert(all.subrange(0, 0) =~= Seq::<Seq<char>>::empty());
        assert(out@ =~= root + join_slash(keep_normals(all.subrange(0, 0))));
    }
    while i < comps.len()
        invariant
            all == path_components(s@),
            comps@.len() == all.len(),
            forall|j: int| 0 <= j < comps@.len() ==> #[trigger] comps@[j]@ == all[j],
            i <= comps@.len(),
            kept as int == keep_normals(all.subrange(0, i as int)).len(),
            kept <= i,
            out@ == root + join_slash(keep_normals(all.subrange(0, i as int))),
        decreases comps@.len() - i,
    {
        let ghost pre = all.subrange(0, i as int);
        let ghost ks = keep_normals(pre);
        proof {
            assert(all.subrange(0, i + 1).drop_last() =~= pre);
            assert(all.subrange(0, i + 1).last() == all[i as int]);
        }
        let c = &comps[i];
        if is_normal_exec(c) {
            proof {
                assert(keep_normals(all.subrange(0, i + 1)) == ks.push(all[i as int]));
                assert(ks.push(all[i as int]).drop_last() =~= ks);
            }
            let ghost before = out@;
            if kept > 0 {
                out.push('/');
            }
            let mut k: usize = 0;
            let ghost mid = out@;
            while k < c.len()
                invariant
                    k <= c@.len(),
                    out@ == mid + c@.subrange(0, k as int),
                decreases c@.len() - k,
            {
                out.push(c[k]);
                k = k + 1;
                proof {
                    assert(mid + c@.subrange(0, k as int) =~= (mid + c@.subrange(0, k - 1)).push(c@[k - 1]));
                }
            }
            proof {
                assert(c@.subrange(0, c@.len() as int) =~= c@);
                assert(join_slash(ks.push(all[i as int])) == join_slash(ks) + (if ks.len() + 1 > 1 { seq!['/'] } else { Seq::<char>::empty() }) + all[i as int]);
                assert(out@ =~= root + join_slash(keep_normals(all.subrange(0, i + 1))));
            }
            kept = kept + 1;
        } else {
            proof {
                assert(keep_normals(all.subrange(0, i + 1)) == ks);
            }
        }
        i = i + 1;
    }
    proof {
        assert(all.subrange(0, all.len() as int) =~= all);
    }
    out
}

fn contains_dotdot(t: &[char]) -> (r: bool)
    ensures
        r == has_dotdot(t@),
{
    let mut i: usize = 0;
    while i < t.len() && i + 1 < t.len()
        invariant
            i <= t@.len(),
            forall|j: int| 0 <= j < i && j + 1 < t@.len() ==> !(#[trigger] t@[j] == '.' && t@[j + 1] == '.'),
        decreases t@.len() - i,
    {
        if t[i] == '.' && t[i + 1] == '.' {
            return true;
        }
        i = i + 1;
    }
    false
}

#[derive(Clone, Copy, Debug, PartialEq, Eq, Structural)]
pub enum EntryKind {
    Directory,
    Symlink,
}

/// One directory entry offered to the kernel: its inode, the offset at which a later
/// listing resumes after it, its kind and its name.
pub struct SearchEntry {
    pub inode: u64,
    pub offset: i64,
    pub kind: EntryKind,
    pub name: String,
}

pub open spec fn entry_view(e: SearchEntry) -> (u64, i64, EntryKind, Seq<char>) {
    (e.inode, e.offset, e.kind, e.name@)
}

pub open spec fn entries_view(v: Seq<SearchEntry>) -> Seq<(u64, i64, EntryKind, Seq<char>)> {
    v.map_values(|e: SearchEntry| entry_view(e))
}

/// The listing of `.search` itself.
pub open spec fn root_listing() -> Seq<(u64, i64, EntryKind, Seq<char>)> {
    seq![(SEARCH_DIR_INODE, 1i64, EntryKind::Directory, seq!['.']), (1u64, 2i64, EntryKind::Directory, seq!['.', '.'])]
}

/// The listing of a query directory: `.`, `..`, then one symlink per hit.
pub open spec fn query_listing(hits: Seq<SearchHit>) -> Seq<(u64, i64, EntryKind, Seq<char>)> {
    seq![
        ((SEARCH_DIR_INODE + 1) as u64, 1i64, EntryKind::Directory, seq!['.']),
        (SEARCH_DIR_INODE, 2i64, EntryKind::Directory, seq!['.', '.']),
    ] + Seq::new(
        hits.len(),
        |i: int| ((SEARCH_RESULT_BASE + i) as u64, (3 + i) as i64, EntryKind::Symlink, result_name(hits[i], i as nat)),
    )
}

/// The entries from position `k` on.
pub open spec fn skip_from<A>(s: Seq<A>, k: int) -> Seq<A> {
    if k >= s.len() { Seq::empty() } else { s.subrange(k, s.len() as int) }
}

/// Why a lookup in the search tree is answered with an error.
#[derive(Clone, Copy, Debug, PartialEq, Eq, Structural)]
pub enum SearchReplyError {
    /// No such entry (`ENOENT`).
    NotFound,
    /// The entry exists but its target is refused (`EINVAL`).
    Invalid,
}

/// The attributes the search tree reports for an inode.
#[derive(Clone, Copy, Debug, PartialEq, Eq, Structural)]
pub struct EntryAttr {
    pub ino: u64,
    pub size: u64,
    pub kind: EntryKind,
    pub perm: u16,
    pub nlink: u32,
    pub uid: u32,
    pub gid: u32,
    pub blksize: u32,
}

/// Seconds for which the kernel may keep the attributes of `.search` itself.
pub const SEARCH_DIR_TTL_SECS: u64 = 60;

/// Seconds for which the kernel may keep the attributes of a query directory or result.
pub const RESULT_TTL_SECS: u64 = 1;

/// Length reported for every result symlink.
pub const RESULT_LINK_SIZE: u64 = 256;

fn push_entry(out: &mut Vec<SearchEntry>, inode: u64, offset: i64, kind: EntryKind, name: String)
    ensures
        entries_view(final(out)@) == entries_view(old(out)@).push((inode, offset, kind, name@)),
{
    let ghost pre = out@;
    out.push(SearchEntry { inode, offset, kind, name });
    proof {
        assert(entries_view(out@) =~= entries_view(pre).push((inode, offset, kind, name@)));
    }
}

fn dot_name() -> (r: String)
    ensures
        r@ == seq!['.'],
{
    let mut s = String::new();
    push_char(&mut s, '.');
    proof {
        assert(s@ =~= seq!['.']);
    }
    s
}

fn dotdot_name() -> (r: String)
    ensures
        r@ == seq!['.', '.'],
{
    let mut s = String::new();
    push_char(&mut s, '.');
    push_char(&mut s, '.');
    proof {
        assert(s@ =~= seq!['.', '.']);
    }
    s
}

/// The query as looked up: its first `MAX_QUERY_LENGTH` characters where it is longer.
pub open spec fn query_key_spec(q: Seq<char>) -> Seq<char> {
    if q.len() <= MAX_QUERY_LENGTH {
        q
    } else {
        q.take(MAX_QUERY_LENGTH as int)
    }
}

/// The query as looked up: longer queries are cut to their first `MAX_QUERY_LENGTH`
/// characters.
pub fn query_key(query: &str) -> (r: String)
    ensures
        r@ == query_key_spec(query@),
        r@.len() <= MAX_QUERY_LENGTH,
{
    let cs = to_chars(query);
    if cs.len() <= MAX_QUERY_LENGTH {
        return from_chars(&cs);
    }
    let mut out: Vec<char> = Vec::new();
    let mut i: usize = 0;
    while i < MAX_QUERY_LENGTH
        invariant
            cs@ == query@,
            MAX_QUERY_LENGTH < cs@.len(),
            i <= MAX_QUERY_LENGTH,
            out@ == cs@.take(i as int),
        decreases MAX_QUERY_LENGTH - i,
    {
        out.push(cs[i]);
        i = i + 1;
        proof {
            assert(out@ =~= cs@.take(i as int));
        }
    }
    from_chars(&out)
}

/// Most hits a query asks the index for.
pub const MAX_SEARCH_RESULTS: usize = 1000;

/// What a query asks of the index: the query cut to `MAX_QUERY_LENGTH` characters, which is
/// also the key its hits are cached under, and at most `MAX_SEARCH_RESULTS` hits.
pub fn search_request(query: &str) -> (r: (String, usize))
    ensures
        r.0@ == query_key_spec(query@),
        r.1 == MAX_SEARCH_RESULTS,
{
    (query_key(query), MAX_SEARCH_RESULTS)
}

/// What the search front-end keeps of its own: where the file system is mounted and
/// who owns the entries it lists.
pub struct SearchOps {
    pub mount_point: String,
    pub uid: u32,
    pub gid: u32,
}

impl SearchOps {
    pub fn new(mount_point: &str, uid: u32, gid: u32) -> (r: Self)
        ensures
            r.mount_point@ == mount_point@,
            r.uid == uid,
            r.gid == gid,
    {
        let cs = to_chars(mount_point);
        SearchOps { mount_point: from_chars(&cs), uid, gid }
    }

    pub fn is_search_dir_name(name: &str) -> (r: bool)
        ensures
            r == (name@ == search_dir_name()),
    {
        let cs = to_chars(name);
        let target: Vec<char> = vec!['.', 's', 'e', 'a', 'r', 'c', 'h'];
        proof {
            assert(target@ =~= search_dir_name());
        }
        chars_eq(&cs, &target)
    }

    pub fn is_search_inode(inode: u64) -> (r: bool)
        ensures
            r == is_search_inode_spec(inode),
    {
        inode == SEARCH_DIR_INODE || inode >= SEARCH_RESULT_BASE
    }

    pub fn search_dir_inode() -> (r: u64)
        ensures
            r == SEARCH_DIR_INODE,
    {
        SEARCH_DIR_INODE
    }

    /// Attributes of a directory of the search tree: read-only, two links.
    pub fn dir_attr(&self, inode: u64) -> (r: EntryAttr)
        ensures
            r == (EntryAttr { ino: inode, size: 0, kind: EntryKind::Directory, perm: 0o555, nlink: 2,
                uid: self.uid, gid: self.gid, blksize: 512 }),
    {
        EntryAttr { ino: inode, size: 0, kind: EntryKind::Directory, perm: 0o555, nlink: 2, uid: self.uid, gid: self.gid, blksize: 512 }
    }

    /// Attributes of a result symlink of the given length.
    pub fn symlink_attr(&self, inode: u64, target_len: u64) -> (r: EntryAttr)
        ensures
            r == (EntryAttr { ino: inode, size: target_len, kind: EntryKind::Symlink, perm: 0o777, nlink: 1,
                uid: self.uid, gid: self.gid, blksize: 512 }),
    {
        EntryAttr { ino: inode, size: target_len, kind: EntryKind::Symlink, perm: 0o777, nlink: 1, uid: self.uid, gid: self.gid, blksize: 512 }
    }

    /// Looking up `.search`: its attributes, valid for a minute.
    pub fn lookup_search_dir(&self) -> (r: (u64, EntryAttr))
        ensures
            r.0 == SEARCH_DIR_TTL_SECS,
            r.1 == self.dir_attr_spec(SEARCH_DIR_INODE),
    {
        (SEARCH_DIR_TTL_SECS, self.dir_attr(SEARCH_DIR_INODE))
    }

    /// The attributes of `.search`, valid for a minute.
    pub fn getattr_search_dir(&self) -> (r: (u64, EntryAttr))
        ensures
            r.0 == SEARCH_DIR_TTL_SECS,
            r.1 == self.dir_attr_spec(SEARCH_DIR_INODE),
    {
        (SEARCH_DIR_TTL_SECS, self.dir_attr(SEARCH_DIR_INODE))
    }

    /// The attributes of a result symlink, valid for a second.
    pub fn getattr_result(&self, inode: u64) -> (r: (u64, EntryAttr))
        ensures
            r.0 == RESULT_TTL_SECS,
            r.1 == self.symlink_attr_spec(inode, RESULT_LINK_SIZE),
    {
        (RESULT_TTL_SECS, self.symlink_attr(inode, RESULT_LINK_SIZE))
    }

    /// Looking up a query directory given the query's hits: it exists only where the
    /// query matched something.
    pub fn lookup_query_dir(&self, hits: &[SearchHit], inode: u64) -> (r: Result<(u64, EntryAttr), SearchReplyError>)
        ensures
            hits@.len() == 0 ==> r == Err::<(u64, EntryAttr), SearchReplyError>(SearchReplyError::NotFound),
            hits@.len() > 0 ==> r == Ok::<(u64, EntryAttr), SearchReplyError>((RESULT_TTL_SECS, self.dir_attr_spec(inode))),
    {
        if hits.len() == 0 {
            return Err(SearchReplyError::NotFound);
        }
        Ok((RESULT_TTL_SECS, self.dir_attr(inode)))
    }

    /// Looking up a result inode: known results are symlinks, valid for a second.
    pub fn lookup_result(&self, inode: u64, known: bool) -> (r: Result<(u64, EntryAttr), SearchReplyError>)
        ensures
            !known ==> r == Err::<(u64, EntryAttr), SearchReplyError>(SearchReplyError::NotFound),
            known ==> r == Ok::<(u64, EntryAttr), SearchReplyError>((RESULT_TTL_SECS, self.symlink_attr_spec(inode, RESULT_LINK_SIZE))),
    {
        if !known {
            return Err(SearchReplyError::NotFound);
        }
        Ok((RESULT_TTL_SECS, self.symlink_attr(inode, RESULT_LINK_SIZE)))
    }

    pub open spec fn dir_attr_spec(&self, inode: u64) -> EntryAttr {
        EntryAttr { ino: inode, size: 0, kind: EntryKind::Directory, perm: 0o555, nlink: 2, uid: self.uid, gid: self.gid, blksize: 512 }
    }

    pub open spec fn symlink_attr_spec(&self, inode: u64, target_len: u64) -> EntryAttr {
        EntryAttr { ino: inode, size: target_len, kind: EntryKind::Symlink, perm: 0o777, nlink: 1, uid: self.uid, gid: self.gid, blksize: 512 }
    }

    /// The entries of `.search` from position `offset` on (a negative offset, read as
    /// an unsigned position, skips them all).
    pub fn readdir_search_root(&self, offset: i64) -> (r: Vec<SearchEntry>)
        ensures
            entries_view(r@) == skip_from(root_listing(), (offset as usize) as int),
    {
        let skip: usize = offset as usize;
        let mut out: Vec<SearchEntry> = Vec::new();
        proof {
            assert(entries_view(out@) =~= Seq::<(u64, i64, EntryKind, Seq<char>)>::empty());
        }
        if skip == 0 {
            push_entry(&mut out, SEARCH_DIR_INODE, 1, EntryKind::Directory, dot_name());
        }
        if skip <= 1 {
            push_entry(&mut out, 1, 2, EntryKind::Directory, dotdot_name());
        }
        proof {
            assert(entries_view(out@) =~= skip_from(root_listing(), skip as int));
        }
        out
    }

    /// The entries of a query directory from position `offset` on, given the query's
    /// hits: `.`, `..`, then result `i` as a symlink with inode `SEARCH_RESULT_BASE + i`.
    pub fn readdir_query(&self, hits: &[SearchHit], offset: i64) -> (r: Vec<SearchEntry>)
        requires
            hits@.len() <= 0xEFFF_FFFF,
        ensures
            entries_view(r@) == skip_from(query_listing(hits@), (offset as usize) as int),
    {
        let skip: usize = offset as usize;
        let ghost full = query_listing(hits@);
        let mut out: Vec<SearchEntry> = Vec::new();
        proof {
            assert(entries_view(out@) =~= Seq::<(u64, i64, EntryKind, Seq<char>)>::empty());
        }
        if skip == 0 {
            push_entry(&mut out, SEARCH_DIR_INODE + 1, 1, EntryKind::Directory, dot_name());
        }
        if skip <= 1 {
            push_entry(&mut out, SEARCH_DIR_INODE, 2, EntryKind::Directory, dotdot_name());
        }
        proof {
            assert(entries_view(out@) =~= skip_from(full.subrange(0, 2), skip as int));
        }
        let mut i: usize = 0;
        while i < hits.len()
            invariant
                full == query_listing(hits@),
                hits@.len() <= 0xEFFF_FFFF,
                i <= hits@.len(),
                entries_view(out@) == skip_from(full.subrange(0, 2 + i), skip as int),
            decreases hits@.len() - i,
        {
            let ghost pre = full.subrange(0, 2 + i);
            proof {
                assert(full.subrange(0, 2 + i + 1) =~= pre.push(full[2 + i]));
                assert(full[2 + i] == ((SEARCH_RESULT_BASE + i) as u64, (3 + i) as i64, EntryKind::Symlink, result_name(hits@[i as int], i as nat)));
            }
            if 2 + i >= skip {
                let name = result_filename(&hits[i], i);
                push_entry(&mut out, SEARCH_RESULT_BASE + i as u64, (3 + i) as i64, EntryKind::Symlink, name);
                proof {
                    assert(skip_from(pre.push(full[2 + i]), skip as int) =~= skip_from(pre, skip as int).push(full[2 + i]));
                }
            } else {
                proof {
                    assert(skip_from(pre.push(full[2 + i]), skip as int) =~= skip_from(pre, skip as int));
                }
            }
            i = i + 1;
        }
        proof {
            assert(full.subrange(0, 2 + hits@.len() as int) =~= full);
        }
        out
    }

    /// Where result `index` of a query's hits points: `NotFound` past the last hit,
    /// `Invalid` where its path still holds `..` after normalization.
    pub fn readlink(&self, hits: &[SearchHit], index: usize) -> (r: Result<String, SearchReplyError>)
        ensures
            index >= hits@.len() ==> r == Err::<String, SearchReplyError>(SearchReplyError::NotFound),
            index < hits@.len() ==> match symlink_target(self.mount_point@, hits@[index as int].virtual_path.0@) {
                None => r == Err::<String, SearchReplyError>(SearchReplyError::Invalid),
                Some(t) => r is Ok && r->Ok_0@ == t,
            },
    {
        if index >= hits.len() {
            return Err(SearchReplyError::NotFound);
        }
        match self.safe_symlink_target(hits[index].virtual_path.0.as_str()) {
            Some(t) => Ok(t),
            None => Err(SearchReplyError::Invalid),
        }
    }

    /// The target of a result symlink: the mount point and the matched file's virtual
    /// path with `.`, `..` and empty components dropped; `None` where `..` remains.
    pub fn safe_symlink_target(&self, virtual_path: &str) -> (r: Option<String>)
        ensures
            match symlink_target(self.mount_point@, virtual_path@) {
                None => r is None,
                Some(t) => r is Some && r->0@ == t,
            },
    {
        let vp = to_chars(virtual_path);
        let norm = normalize_target(&vp);
        if contains_dotdot(&norm) {
            return None;
        }
        let mut out = to_chars(self.mount_point.as_str());
        let ghost m = out@;
        let mut k: usize = 0;
        while k < norm.len()
            invariant
                k <= norm@.len(),
                out@ == m + norm@.subrange(0, k as int),
            decreases norm@.len() - k,
        {
            out.push(norm[k]);
            k = k + 1;
            proof {
                assert(m + norm@.subrange(0, k as int) =~= (m + norm@.subrange(0, k - 1)).push(norm@[k - 1]));
            }
        }
        proof {
            assert(norm@.subrange(0, norm@.len() as int) =~= norm@);
        }
        Some(from_chars(&out))
    }
}

} // verus!

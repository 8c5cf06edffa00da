//! The mathematical model of the virtual tree and the effect of each operation on it.
use vstd::prelude::*;

use crate::assoc::{seq_insert, seq_remove, to_map};
use crate::pathutil::{dir_prefix, name_or_empty, parent_or_root, parent_or_root_nonempty, path_components, slash_seq};
use crate::text::seq_starts_with;
use crate::types::FileId;

verus! {

/// Inode number of the root directory.
pub const ROOT_INODE: u64 = 1;

/// A node as the model sees it: a directory with its named children, or a file.
pub enum NodeView {
    Dir { inode: u64, parent: u64, name: Seq<char>, children: Map<Seq<char>, u64> },
    File { inode: u64, name: Seq<char>, file_id: FileId, size: u64, mtime: std::time::SystemTime },
}

/// Why a directory could not be created or an entry renamed.
#[derive(Debug, Clone, Copy, PartialEq, Eq, Structural)]
pub enum RenameError {
    SourceNotFound,
    TargetExists,
    ParentNotFound,
    IsDirectory,
    NotDirectory,
}

/// Why a directory could not be removed.
#[derive(Debug, Clone, Copy, PartialEq, Eq, Structural)]
pub enum RemoveError {
    NotFound,
    NotEmpty,
    NotDirectory,
}

/// The tree: nodes by inode, the path index in its own order, and the next inode to hand out.
pub struct TreeModel {
    pub nodes: Map<u64, NodeView>,
    pub paths: Seq<(Seq<char>, u64)>,
    pub next: u64,
}

/// The path index as a map.
pub open spec fn pmap(m: TreeModel) -> Map<Seq<char>, u64> {
    to_map(m.paths)
}

pub open spec fn dir_at(m: TreeModel, ino: u64) -> bool {
    m.nodes.contains_key(ino) && m.nodes[ino] is Dir
}

pub open spec fn file_at(m: TreeModel, ino: u64) -> bool {
    m.nodes.contains_key(ino) && m.nodes[ino] is File
}

/// The inode counter after one allocation (it wraps like an atomic `fetch_add`).
pub open spec fn next_after(n: u64) -> u64 {
    if n == u64::MAX {
        0
    } else {
        (n + 1) as u64
    }
}

pub open spec fn bump(m: TreeModel) -> TreeModel {
    TreeModel { next: next_after(m.next), ..m }
}

pub open spec fn put_node(m: TreeModel, ino: u64, n: NodeView) -> TreeModel {
    TreeModel { nodes: m.nodes.insert(ino, n), ..m }
}

pub open spec fn drop_node(m: TreeModel, ino: u64) -> TreeModel {
    TreeModel { nodes: m.nodes.remove(ino), ..m }
}

pub open spec fn bind_path(m: TreeModel, p: Seq<char>, ino: u64) -> TreeModel {
    TreeModel { paths: seq_insert(m.paths, p, ino), ..m }
}

pub open spec fn unbind_path(m: TreeModel, p: Seq<char>) -> TreeModel {
    TreeModel { paths: seq_remove(m.paths, p), ..m }
}

pub open spec fn empty_dir(ino: u64, parent: u64, name: Seq<char>) -> NodeView {
    NodeView::Dir { inode: ino, parent, name, children: Map::empty() }
}

/// Records `name -> child` in directory `dir`; a no-op where `dir` is not a directory.
pub open spec fn with_child(m: TreeModel, dir: u64, name: Seq<char>, child: u64) -> TreeModel {
    if m.nodes.contains_key(dir) {
        match m.nodes[dir] {
            NodeView::Dir { inode, parent, name: n, children } => put_node(
                m,
                dir,
                NodeView::Dir { inode, parent, name: n, children: children.insert(name, child) },
            ),
            NodeView::File { .. } => m,
        }
    } else {
        m
    }
}

/// Drops the child `name` of directory `dir`; a no-op where `dir` is not a directory.
pub open spec fn without_child(m: TreeModel, dir: u64, name: Seq<char>) -> TreeModel {
    if m.nodes.contains_key(dir) {
        match m.nodes[dir] {
            NodeView::Dir { inode, parent, name: n, children } => put_node(
                m,
                dir,
                NodeView::Dir { inode, parent, name: n, children: children.remove(name) },
            ),
            NodeView::File { .. } => m,
        }
    } else {
        m
    }
}

/// Drops `name` from the directory that the path `dir_path` names, if the index has it.
pub open spec fn unlink_from(m: TreeModel, dir_path: Seq<char>, name: Seq<char>) -> TreeModel {
    if pmap(m).contains_key(dir_path) {
        without_child(m, pmap(m)[dir_path], name)
    } else {
        m
    }
}

/// The tree that `new` builds: the root directory alone, indexed as `/`.
/// The inode counter is above the root and above every inode in use, so the inode it hands
/// out next is unused.
pub open spec fn counter_fresh(m: TreeModel) -> bool {
    ROOT_INODE < m.next && forall|k: u64| #[trigger] m.nodes.contains_key(k) ==> k < m.next
}

pub open spec fn initial_model() -> TreeModel {
    TreeModel {
        nodes: Map::empty().insert(ROOT_INODE, empty_dir(ROOT_INODE, ROOT_INODE, Seq::empty())),
        paths: seq![(slash_seq(), ROOT_INODE)],
        next: 2,
    }
}

/// `mkdir`: a new empty directory at `p`, under the directory that its parent path names.
pub open spec fn mkdir_spec(m: TreeModel, p: Seq<char>) -> (TreeModel, Result<u64, RenameError>) {
    let pp = parent_or_root_nonempty(p);
    if pmap(m).contains_key(p) {
        (m, Err(RenameError::TargetExists))
    } else if !pmap(m).contains_key(pp) || !dir_at(m, pmap(m)[pp]) {
        (m, Err(RenameError::ParentNotFound))
    } else {
        let parent = pmap(m)[pp];
        let ino = m.next;
        let name = name_or_empty(p);
        let m1 = bind_path(put_node(bump(m), ino, empty_dir(ino, parent, name)), p, ino);
        (with_child(m1, parent, name, ino), Ok(ino))
    }
}

/// Walks the directories `/c0`, `/c0/c1`, ... for components `j .. limit`, creating each
/// one that the index lacks under the one before; gives the tree and the last inode.
pub open spec fn ensure_from(m: TreeModel, comps: Seq<Seq<char>>, j: int, cur: u64, limit: int) -> (TreeModel, u64)
    decreases limit - j,
{
    if j >= limit || j < 0 {
        (m, cur)
    } else {
        let vp = dir_prefix(comps, j);
        if pmap(m).contains_key(vp) {
            ensure_from(m, comps, j + 1, pmap(m)[vp], limit)
        } else {
            let ino = m.next;
            let m1 = bind_path(put_node(bump(m), ino, empty_dir(ino, cur, comps[j])), vp, ino);
            ensure_from(with_child(m1, cur, comps[j], ino), comps, j + 1, ino, limit)
        }
    }
}

/// The directories above a path, created where missing; gives the parent's inode.
pub open spec fn ensure_parents_spec(m: TreeModel, p: Seq<char>) -> (TreeModel, u64) {
    let comps = path_components(p);
    if comps.len() <= 1 {
        (m, ROOT_INODE)
    } else {
        ensure_from(m, comps, 0, ROOT_INODE, comps.len() - 1)
    }
}

/// `insert_file`: the parents made to exist, then a new file node at the path.
pub open spec fn insert_file_spec(
    m: TreeModel,
    p: Seq<char>,
    id: FileId,
    size: u64,
    mtime: std::time::SystemTime,
) -> (TreeModel, u64) {
    let (m1, parent) = ensure_parents_spec(m, p);
    let ino = m1.next;
    let name = name_or_empty(p);
    let node = NodeView::File { inode: ino, name, file_id: id, size, mtime };
    let m2 = bind_path(put_node(bump(m1), ino, node), p, ino);
    (with_child(m2, parent, name, ino), ino)
}

/// `remove_file`: the path leaves the index and its node leaves the tree; a file is also
/// unlinked from its parent and its id returned.
pub open spec fn remove_file_spec(m: TreeModel, p: Seq<char>) -> (TreeModel, Option<FileId>) {
    if !pmap(m).contains_key(p) {
        (m, None)
    } else {
        let ino = pmap(m)[p];
        let m1 = drop_node(unbind_path(m, p), ino);
        if file_at(m, ino) {
            match m.nodes[ino] {
                NodeView::File { name, file_id, .. } => (unlink_from(m1, parent_or_root(p), name), Some(file_id)),
                NodeView::Dir { .. } => (m1, None),
            }
        } else {
            (m1, None)
        }
    }
}

/// `mkdir_p`: every directory along the path, created where missing.
pub open spec fn mkdir_p_spec(m: TreeModel, p: Seq<char>) -> (TreeModel, Result<u64, RenameError>) {
    if pmap(m).contains_key(p) {
        if dir_at(m, pmap(m)[p]) {
            (m, Ok(pmap(m)[p]))
        } else {
            (m, Err(RenameError::TargetExists))
        }
    } else {
        let comps = path_components(p);
        let (m1, ino) = ensure_from(m, comps, 0, ROOT_INODE, comps.len() as int);
        (m1, Ok(ino))
    }
}

/// Renames the file node `ino`; a no-op where it is not a file.
pub open spec fn rename_file_node(m: TreeModel, ino: u64, name: Seq<char>) -> TreeModel {
    if m.nodes.contains_key(ino) {
        match m.nodes[ino] {
            NodeView::File { inode, file_id, size, mtime, .. } => put_node(
                m,
                ino,
                NodeView::File { inode, name, file_id, size, mtime },
            ),
            NodeView::Dir { .. } => m,
        }
    } else {
        m
    }
}

/// Renames the directory node `ino` and moves it under `parent`; a no-op where it is not a
/// directory.
pub open spec fn move_dir_node(m: TreeModel, ino: u64, name: Seq<char>, parent: u64) -> TreeModel {
    if m.nodes.contains_key(ino) {
        match m.nodes[ino] {
            NodeView::Dir { inode, children, .. } => put_node(
                m,
                ino,
                NodeView::Dir { inode, parent, name, children },
            ),
            NodeView::File { .. } => m,
        }
    } else {
        m
    }
}

/// The checks that a rename makes of its target: gives the new parent directory's inode,
/// or the error.
pub open spec fn target_parent(m: TreeModel, new_p: Seq<char>) -> Result<u64, RenameError> {
    let npp = parent_or_root_nonempty(new_p);
    if !pmap(m).contains_key(npp) || !dir_at(m, pmap(m)[npp]) {
        Err(RenameError::ParentNotFound)
    } else {
        Ok(pmap(m)[npp])
    }
}

/// `rename_file`: the file keeps its inode and takes the new path and name.
pub open spec fn rename_file_spec(m: TreeModel, old_p: Seq<char>, new_p: Seq<char>) -> (TreeModel, Result<(), RenameError>) {
    if !pmap(m).contains_key(old_p) {
        (m, Err(RenameError::SourceNotFound))
    } else if pmap(m).contains_key(new_p) {
        (m, Err(RenameError::TargetExists))
    } else if !m.nodes.contains_key(pmap(m)[old_p]) {
        (m, Err(RenameError::SourceNotFound))
    } else if dir_at(m, pmap(m)[old_p]) {
        (m, Err(RenameError::IsDirectory))
    } else {
        match target_parent(m, new_p) {
            Err(e) => (m, Err(e)),
            Ok(np) => {
                let ino = pmap(m)[old_p];
                let new_name = name_or_empty(new_p);
                let m1 = unlink_from(unbind_path(m, old_p), parent_or_root(old_p), name_or_empty(old_p));
                let m2 = with_child(rename_file_node(m1, ino, new_name), np, new_name, ino);
                (bind_path(m2, new_p, ino), Ok(()))
            },
        }
    }
}

/// The index pairs whose path text starts with `pre`, in index order.
pub open spec fn prefixed(ps: Seq<(Seq<char>, u64)>, pre: Seq<char>) -> Seq<(Seq<char>, u64)>
    decreases ps.len(),
{
    if ps.len() == 0 {
        Seq::empty()
    } else if seq_starts_with(ps.last().0, pre) {
        prefixed(ps.drop_last(), pre).push(ps.last())
    } else {
        prefixed(ps.drop_last(), pre)
    }
}

pub proof fn lemma_prefixed_starts(ps: Seq<(Seq<char>, u64)>, pre: Seq<char>)
    ensures
        forall|i: int| 0 <= i < prefixed(ps, pre).len() ==> seq_starts_with(#[trigger] prefixed(ps, pre)[i].0, pre),
    decreases ps.len(),
{
    if ps.len() > 0 {
        lemma_prefixed_starts(ps.drop_last(), pre);
        let prev = prefixed(ps.drop_last(), pre);
        assert forall|i: int| 0 <= i < prefixed(ps, pre).len() implies seq_starts_with(#[trigger] prefixed(ps, pre)[i].0, pre) by {
            if i < prev.len() {
                assert(prefixed(ps, pre)[i] == prev[i]);
            }
        }
    }
}

/// Moves each pair of `todo` in turn from its path to `new_pre` followed by what comes after
/// the first `n` characters of that path.
pub open spec fn rebase_all(ps: Seq<(Seq<char>, u64)>, todo: Seq<(Seq<char>, u64)>, n: nat, new_pre: Seq<char>) -> Seq<(Seq<char>, u64)>
    decreases todo.len(),
{
    if todo.len() == 0 {
        ps
    } else {
        let (p, ino) = todo[0];
        rebase_all(seq_insert(seq_remove(ps, p), new_pre + p.skip(n as int), ino), todo.drop_first(), n, new_pre)
    }
}

/// `rename_directory`: every indexed path starting with the old text is moved under the new
/// one, and the directory node is renamed and relinked; gives how many paths moved.
pub open spec fn rename_directory_spec(m: TreeModel, old_p: Seq<char>, new_p: Seq<char>) -> (TreeModel, Result<u64, RenameError>) {
    if !pmap(m).contains_key(old_p) {
        (m, Err(RenameError::SourceNotFound))
    } else if !dir_at(m, pmap(m)[old_p]) {
        (m, Err(RenameError::NotDirectory))
    } else if pmap(m).contains_key(new_p) {
        (m, Err(RenameError::TargetExists))
    } else {
        match target_parent(m, new_p) {
            Err(e) => (m, Err(e)),
            Ok(np) => {
                let ino = pmap(m)[old_p];
                let todo = prefixed(m.paths, old_p);
                let new_name = name_or_empty(new_p);
                let m1 = TreeModel { paths: rebase_all(m.paths, todo, old_p.len(), new_p), ..m };
                let m2 = unlink_from(m1, parent_or_root(old_p), name_or_empty(old_p));
                let m3 = with_child(move_dir_node(m2, ino, new_name, np), np, new_name, ino);
                (m3, Ok(todo.len() as u64))
            },
        }
    }
}

/// The text `/.trash`.
pub open spec fn trash_seq() -> Seq<char> {
    seq!['/', '.', 't', 'r', 'a', 's', 'h']
}

/// The name `.trash`.
pub open spec fn trash_name() -> Seq<char> {
    seq!['.', 't', 'r', 'a', 's', 'h']
}

/// `ensure_trash_dir`: the directory `/.trash` under the root, created when missing.
pub open spec fn ensure_trash_spec(m: TreeModel) -> (TreeModel, u64) {
    if pmap(m).contains_key(trash_seq()) {
        (m, pmap(m)[trash_seq()])
    } else {
        let ino = m.next;
        let m1 = bind_path(put_node(bump(m), ino, empty_dir(ino, ROOT_INODE, trash_name())), trash_seq(), ino);
        (with_child(m1, ROOT_INODE, trash_name(), ino), ino)
    }
}

/// `remove_directory`: an empty directory leaves its parent, the index and the tree.
pub open spec fn remove_directory_spec(m: TreeModel, p: Seq<char>) -> (TreeModel, Result<(), RemoveError>) {
    if !pmap(m).contains_key(p) || !m.nodes.contains_key(pmap(m)[p]) {
        (m, Err(RemoveError::NotFound))
    } else {
        let ino = pmap(m)[p];
        match m.nodes[ino] {
            NodeView::File { .. } => (m, Err(RemoveError::NotDirectory)),
            NodeView::Dir { children, .. } => if children != Map::<Seq<char>, u64>::empty() {
                (m, Err(RemoveError::NotEmpty))
            } else {
                let m1 = unlink_from(m, parent_or_root(p), name_or_empty(p));
                (drop_node(unbind_path(m1, p), ino), Ok(()))
            },
        }
    }
}

/// Removes each pair of `todo` in turn, path and node, collecting the ids of the file nodes
/// as they are met.
pub open spec fn remove_all(m: TreeModel, todo: Seq<(Seq<char>, u64)>, acc: Seq<FileId>) -> (TreeModel, Seq<FileId>)
    decreases todo.len(),
{
    if todo.len() == 0 {
        (m, acc)
    } else {
        let (p, ino) = todo[0];
        let acc2 = if file_at(m, ino) {
            match m.nodes[ino] {
                NodeView::File { file_id, .. } => acc.push(file_id),
                NodeView::Dir { .. } => acc,
            }
        } else {
            acc
        };
        remove_all(drop_node(unbind_path(m, p), ino), todo.drop_first(), acc2)
    }
}

/// `remove_directory_recursive`: every indexed path starting with the directory's text is
/// removed with its node; gives the ids of the files among them.
pub open spec fn remove_directory_recursive_spec(m: TreeModel, p: Seq<char>) -> (TreeModel, Result<Seq<FileId>, RemoveError>) {
    if !pmap(m).contains_key(p) {
        (m, Err(RemoveError::NotFound))
    } else if !dir_at(m, pmap(m)[p]) {
        (m, Err(RemoveError::NotDirectory))
    } else {
        let (m1, ids) = remove_all(m, prefixed(m.paths, p), Seq::empty());
        (unlink_from(m1, parent_or_root(p), name_or_empty(p)), Ok(ids))
    }
}

/// The first indexed path, in index order, that gives `ino`.
pub open spec fn first_path_of(ps: Seq<(Seq<char>, u64)>, ino: u64) -> Option<Seq<char>>
    decreases ps.len(),
{
    if ps.len() == 0 {
        None
    } else if ps[0].1 == ino {
        Some(ps[0].0)
    } else {
        first_path_of(ps.drop_first(), ino)
    }
}

/// The parent of a node found through the index: the inode that the parent text of its
/// first indexed path gives.
pub open spec fn parent_by_path_spec(m: TreeModel, ino: u64) -> Option<u64> {
    match first_path_of(m.paths, ino) {
        None => None,
        Some(p) => match crate::pathutil::std_path_parent(p) {
            None => None,
            Some(q) => pmap(m).get(q),
        },
    }
}

/// `get_parent`: a directory records its parent; a file's is found through the index.
pub open spec fn get_parent_spec(m: TreeModel, ino: u64) -> Option<u64> {
    if !m.nodes.contains_key(ino) {
        None
    } else {
        match m.nodes[ino] {
            NodeView::Dir { parent, .. } => Some(parent),
            NodeView::File { .. } => parent_by_path_spec(m, ino),
        }
    }
}

/// The children of a directory node; none for a file.
pub open spec fn children_of(n: NodeView) -> Map<Seq<char>, u64> {
    match n {
        NodeView::Dir { children, .. } => children,
        NodeView::File { .. } => Map::empty(),
    }
}

/// `l` lists `children` by name in strictly increasing order, each entry with its inode and
/// whether that inode is a directory of `m`.
pub open spec fn is_listing(m: TreeModel, children: Map<Seq<char>, u64>, l: Seq<(Seq<char>, u64, bool)>) -> bool {
    &&& forall|i: int| 0 <= i < l.len() ==> #[trigger] children.contains_key(l[i].0) && children[l[i].0] == l[i].1 && l[i].2 == dir_at(m, l[i].1)
    &&& forall|i: int, j: int| 0 <= i < j < l.len() ==> crate::text::seq_lt(l[i].0, l[j].0)
    &&& forall|k: Seq<char>| #[trigger] children.contains_key(k) ==> exists|i: int| 0 <= i < l.len() && l[i].0 == k
}

/// Whether `k` is a directory node (`dir`) or a file node (`!dir`).
pub open spec fn is_kind(nodes: Map<u64, NodeView>, k: u64, dir: bool) -> bool {
    nodes.contains_key(k) && if dir {
        nodes[k] is Dir
    } else {
        nodes[k] is File
    }
}

/// The number of nodes of one kind.
pub open spec fn kind_count(nodes: Map<u64, NodeView>, dir: bool) -> nat {
    nodes.dom().filter(|k: u64| is_kind(nodes, k, dir)).len()
}

/// How many of the inodes listed in `ks` are of one kind.
pub open spec fn count_listed(nodes: Map<u64, NodeView>, ks: Seq<u64>, dir: bool) -> nat
    decreases ks.len(),
{
    if ks.len() == 0 {
        0
    } else {
        count_listed(nodes, ks.drop_last(), dir) + if is_kind(nodes, ks.last(), dir) {
            1nat
        } else {
            0nat
        }
    }
}

pub proof fn lemma_count_listed(nodes: Map<u64, NodeView>, ks: Seq<u64>, dir: bool)
    requires
        ks.no_duplicates(),
    ensures
        count_listed(nodes, ks, dir) == ks.to_set().filter(|k: u64| is_kind(nodes, k, dir)).len(),
    decreases ks.len(),
{
    broadcast use vstd::set::group_set_axioms, vstd::seq_lib::seq_to_set_is_finite;
    let f = |k: u64| is_kind(nodes, k, dir);
    if ks.len() == 0 {
        assert(ks.to_set().filter(f) =~= Set::<u64>::empty());
    } else {
        let init = ks.drop_last();
        let x = ks.last();
        assert(init.no_duplicates()) by {
            assert forall|i: int, j: int| 0 <= i < init.len() && 0 <= j < init.len() && i != j implies init[i] != init[j] by {
                assert(ks[i] != ks[j]);
            }
        }
        lemma_count_listed(nodes, init, dir);
        assert forall|a: u64| ks.to_set().contains(a) <==> #[trigger] init.to_set().insert(x).contains(a) by {
            if ks.contains(a) {
                let i = choose|i: int| 0 <= i < ks.len() && ks[i] == a;
                if i < init.len() {
                    assert(init[i] == a);
                }
            }
            if init.contains(a) {
                let i = choose|i: int| 0 <= i < init.len() && init[i] == a;
                assert(ks[i] == a);
            }
            if a == x {
                assert(ks[ks.len() - 1] == x);
            }
        }
        assert(ks.to_set() =~= init.to_set().insert(x));
        assert(!init.to_set().contains(x)) by {
            if init.to_set().contains(x) {
                let i = choose|i: int| 0 <= i < init.len() && init[i] == x;
                assert(ks[i] == ks[ks.len() - 1]);
            }
        }
        init.to_set().lemma_len_filter(f);
        if f(x) {
            assert(ks.to_set().filter(f) =~= init.to_set().filter(f).insert(x));
        } else {
            assert(ks.to_set().filter(f) =~= init.to_set().filter(f));
        }
    }
}

/// A node with its children forgotten.
pub open spec fn cleared(n: NodeView) -> NodeView {
    match n {
        NodeView::Dir { inode, parent, name, .. } => NodeView::Dir { inode, parent, name, children: Map::empty() },
        NodeView::File { .. } => n,
    }
}

/// `force_refresh`: the root alone is kept, with no children, indexed as `/` if it was.
pub open spec fn force_refresh_spec(m: TreeModel) -> TreeModel {
    TreeModel {
        nodes: if m.nodes.contains_key(ROOT_INODE) {
            Map::empty().insert(ROOT_INODE, cleared(m.nodes[ROOT_INODE]))
        } else {
            Map::empty()
        },
        paths: if pmap(m).contains_key(slash_seq()) {
            seq![(slash_seq(), pmap(m)[slash_seq()])]
        } else {
            Seq::empty()
        },
        next: m.next,
    }
}

} // verus!

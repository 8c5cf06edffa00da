//! Properties of the virtual tree that hold across its operations.
use vstd::prelude::*;

use crate::assoc::{has_key, keys_unique, lemma_seq_insert, lemma_seq_remove, lemma_to_map, to_map};
use crate::text::seq_starts_with;
use crate::pathutil::{dir_prefix, name_or_empty, path_components};
use crate::tree_model::{
    bind_path, drop_node, rebase_all, rename_directory_spec, ensure_from, file_at, lemma_prefixed_starts, prefixed, remove_all, remove_directory_recursive_spec, ensure_parents_spec, ensure_trash_spec, insert_file_spec, mkdir_p_spec, mkdir_spec, pmap,
    remove_directory_spec, remove_file_spec, rename_file_spec, trash_seq, unbind_path, NodeView, TreeModel, ROOT_INODE,
};
use crate::types::FileId;

verus! {

/// The model of a well-formed tree: no path is indexed twice.
pub open spec fn model_wf(m: TreeModel) -> bool {
    keys_unique(m.paths)
}

proof fn lemma_bind(m: TreeModel, p: Seq<char>, ino: u64)
    requires
        model_wf(m),
    ensures
        model_wf(bind_path(m, p, ino)),
        pmap(bind_path(m, p, ino)) == pmap(m).insert(p, ino),
{
    lemma_seq_insert(m.paths, p, ino);
}

proof fn lemma_unbind(m: TreeModel, p: Seq<char>)
    requires
        model_wf(m),
    ensures
        model_wf(unbind_path(m, p)),
        pmap(unbind_path(m, p)) == pmap(m).remove(p),
{
    lemma_seq_remove(m.paths, p);
}

/// Walking the directories of a path keeps every indexed path and indexes each directory walked.
proof fn lemma_ensure_from(m: TreeModel, comps: Seq<Seq<char>>, j: int, cur: u64, limit: int)
    requires
        model_wf(m),
    ensures
        model_wf(ensure_from(m, comps, j, cur, limit).0),
        forall|k: Seq<char>| #[trigger] pmap(m).contains_key(k) ==> pmap(ensure_from(m, comps, j, cur, limit).0).contains_key(k)
            && pmap(ensure_from(m, comps, j, cur, limit).0)[k] == pmap(m)[k],
        forall|i: int| 0 <= j <= i < limit ==> #[trigger] pmap(ensure_from(m, comps, j, cur, limit).0).contains_key(dir_prefix(comps, i)),
        0 <= j < limit ==> pmap(ensure_from(m, comps, j, cur, limit).0)[dir_prefix(comps, limit - 1)] == ensure_from(m, comps, j, cur, limit).1,
    decreases limit - j,
{
    if j >= limit || j < 0 {
    } else {
        let vp = dir_prefix(comps, j);
        let res = ensure_from(m, comps, j, cur, limit).0;
        if pmap(m).contains_key(vp) {
            lemma_ensure_from(m, comps, j + 1, pmap(m)[vp], limit);
            assert forall|i: int| 0 <= j <= i < limit implies #[trigger] pmap(res).contains_key(dir_prefix(comps, i)) by {
                if i == j {
                    assert(pmap(m).contains_key(dir_prefix(comps, i)));
                }
            }
        } else {
            let ino = m.next;
            let m0 = crate::tree_model::put_node(crate::tree_model::bump(m), ino, crate::tree_model::empty_dir(ino, cur, comps[j]));
            lemma_bind(m0, vp, ino);
            let m1 = bind_path(m0, vp, ino);
            let m2 = crate::tree_model::with_child(m1, cur, comps[j], ino);
            assert(pmap(m2) == pmap(m1));
            lemma_ensure_from(m2, comps, j + 1, ino, limit);
            assert forall|k: Seq<char>| #[trigger] pmap(m).contains_key(k) implies pmap(res).contains_key(k) && pmap(res)[k] == pmap(m)[k] by {
                assert(pmap(m2).contains_key(k));
            }
            assert forall|i: int| 0 <= j <= i < limit implies #[trigger] pmap(res).contains_key(dir_prefix(comps, i)) by {
                if i == j {
                    assert(pmap(m2).contains_key(dir_prefix(comps, i)));
                }
            }
        }
    }
}

/// After `insert_file`, the index gives the file's path to a file node holding the given id,
/// size and time, named by the path's last component.
pub proof fn law_insert_then_lookup(m: TreeModel, p: Seq<char>, id: FileId, size: u64, mtime: std::time::SystemTime)
    requires
        model_wf(m),
    ensures
        ({
            let (m2, ino) = insert_file_spec(m, p, id, size, mtime);
            &&& model_wf(m2)
            &&& pmap(m2).contains_key(p)
            &&& pmap(m2)[p] == ino
            &&& m2.nodes.contains_key(ino)
            &&& m2.nodes[ino] == (NodeView::File { inode: ino, name: name_or_empty(p), file_id: id, size, mtime })
        }),
{
    let comps = path_components(p);
    let (m1, parent) = ensure_parents_spec(m, p);
    if comps.len() > 1 {
        lemma_ensure_from(m, comps, 0, ROOT_INODE, comps.len() - 1);
    }
    let ino = m1.next;
    let name = name_or_empty(p);
    let node = NodeView::File { inode: ino, name, file_id: id, size, mtime };
    let m0 = crate::tree_model::put_node(crate::tree_model::bump(m1), ino, node);
    lemma_bind(m0, p, ino);
}

/// After `insert_file`, every directory above the file is indexed.
pub proof fn law_insert_creates_parents(m: TreeModel, p: Seq<char>, id: FileId, size: u64, mtime: std::time::SystemTime, i: int)
    requires
        model_wf(m),
        0 <= i < path_components(p).len() - 1,
    ensures
        pmap(insert_file_spec(m, p, id, size, mtime).0).contains_key(dir_prefix(path_components(p), i)),
{
    let comps = path_components(p);
    let (m1, parent) = ensure_parents_spec(m, p);
    lemma_ensure_from(m, comps, 0, ROOT_INODE, comps.len() - 1);
    assert(pmap(m1).contains_key(dir_prefix(comps, i)));
    let ino = m1.next;
    let name = name_or_empty(p);
    let node = NodeView::File { inode: ino, name, file_id: id, size, mtime };
    let m0 = crate::tree_model::put_node(crate::tree_model::bump(m1), ino, node);
    lemma_bind(m0, p, ino);
}

/// Removing a file just inserted gives back its id and leaves its path unindexed.
pub proof fn law_remove_after_insert(m: TreeModel, p: Seq<char>, id: FileId, size: u64, mtime: std::time::SystemTime)
    requires
        model_wf(m),
    ensures
        ({
            let m2 = insert_file_spec(m, p, id, size, mtime).0;
            let (m3, r) = remove_file_spec(m2, p);
            &&& r == Some(id)
            &&& !pmap(m3).contains_key(p)
            &&& model_wf(m3)
        }),
{
    law_insert_then_lookup(m, p, id, size, mtime);
    let (m2, ino) = insert_file_spec(m, p, id, size, mtime);
    lemma_unbind(m2, p);
}

/// A created directory gets a fresh inode above the root, is indexed at its path as an
/// empty directory under its parent's inode, and the parent lists it by name; every tree
/// keeps its inode counter fresh (`VirtualTree::lemma_model_wf`).
pub proof fn law_mkdir_creates(m: TreeModel, p: Seq<char>)
    requires
        model_wf(m),
        crate::tree_model::counter_fresh(m),
        mkdir_spec(m, p).1 is Ok,
    ensures
        ({
            let (m2, r) = mkdir_spec(m, p);
            let ino = r->Ok_0;
            let parent = pmap(m)[crate::pathutil::parent_or_root_nonempty(p)];
            &&& model_wf(m2)
            &&& ino == m.next
            &&& crate::tree_model::ROOT_INODE < ino
            &&& !m.nodes.contains_key(ino)
            &&& pmap(m2) == pmap(m).insert(p, ino)
            &&& m2.nodes[ino] == crate::tree_model::empty_dir(ino, parent, name_or_empty(p))
            &&& m2.nodes[parent] is Dir
            &&& crate::tree_model::children_of(m2.nodes[parent]).contains_key(name_or_empty(p))
            &&& crate::tree_model::children_of(m2.nodes[parent])[name_or_empty(p)] == ino
        }),
{
    let ino = m.next;
    let name = name_or_empty(p);
    let parent = pmap(m)[crate::pathutil::parent_or_root_nonempty(p)];
    let m0 = crate::tree_model::put_node(crate::tree_model::bump(m), ino, crate::tree_model::empty_dir(ino, parent, name));
    lemma_bind(m0, p, ino);
    assert(parent != ino);
}

/// A refused `mkdir`, `rename_file` or `remove_directory` changes nothing.
pub proof fn law_refusal_changes_nothing(m: TreeModel, p: Seq<char>, q: Seq<char>)
    ensures
        mkdir_spec(m, p).1 is Err ==> mkdir_spec(m, p).0 == m,
        rename_file_spec(m, p, q).1 is Err ==> rename_file_spec(m, p, q).0 == m,
        crate::tree_model::rename_directory_spec(m, p, q).1 is Err ==> crate::tree_model::rename_directory_spec(m, p, q).0 == m,
        remove_directory_spec(m, p).1 is Err ==> remove_directory_spec(m, p).0 == m,
        crate::tree_model::remove_directory_recursive_spec(m, p).1 is Err ==> crate::tree_model::remove_directory_recursive_spec(m, p).0 == m,
        mkdir_p_spec(m, p).1 is Err ==> mkdir_p_spec(m, p).0 == m,
{
}

/// A renamed file keeps its inode and id, is indexed at the new path and no longer at the old.
pub proof fn law_rename_file_moves(m: TreeModel, p: Seq<char>, q: Seq<char>)
    requires
        model_wf(m),
        rename_file_spec(m, p, q).1 is Ok,
    ensures
        ({
            let m2 = rename_file_spec(m, p, q).0;
            let ino = pmap(m)[p];
            &&& model_wf(m2)
            &&& pmap(m2) == pmap(m).remove(p).insert(q, ino)
            &&& m2.nodes.contains_key(ino)
            &&& m2.nodes[ino] is File
            &&& (match (m.nodes[ino], m2.nodes[ino]) {
                (NodeView::File { file_id: a, size: s1, .. }, NodeView::File { file_id: b, name, size: s2, .. }) => a == b && s1 == s2
                    && name == name_or_empty(q),
                _ => false,
            })
        }),
{
    let ino = pmap(m)[p];
    lemma_unbind(m, p);
    let m1 = crate::tree_model::unlink_from(unbind_path(m, p), crate::pathutil::parent_or_root(p), name_or_empty(p));
    let m2 = crate::tree_model::with_child(
        crate::tree_model::rename_file_node(m1, ino, name_or_empty(q)),
        pmap(m)[crate::pathutil::parent_or_root_nonempty(q)],
        name_or_empty(q),
        ino,
    );
    lemma_bind(m2, q, ino);
}

/// `ensure_trash_dir` is idempotent: a second call gives the same inode and changes nothing.
pub proof fn law_trash_idempotent(m: TreeModel)
    requires
        model_wf(m),
    ensures
        ({
            let (m1, a) = ensure_trash_spec(m);
            ensure_trash_spec(m1) == (m1, a)
        }),
{
    if !pmap(m).contains_key(trash_seq()) {
        let ino = m.next;
        let m0 = crate::tree_model::put_node(
            crate::tree_model::bump(m),
            ino,
            crate::tree_model::empty_dir(ino, ROOT_INODE, crate::tree_model::trash_name()),
        );
        lemma_bind(m0, trash_seq(), ino);
    }
}

/// After `mkdir_p` succeeds on a path not yet indexed, every directory along it is indexed and
/// the inode returned is the one indexed for the last of them.
pub proof fn law_mkdir_p_creates_all(m: TreeModel, p: Seq<char>, i: int)
    requires
        model_wf(m),
        !pmap(m).contains_key(p),
        0 <= i < path_components(p).len(),
    ensures
        pmap(mkdir_p_spec(m, p).0).contains_key(dir_prefix(path_components(p), i)),
        mkdir_p_spec(m, p).1 == Ok::<u64, crate::tree_model::RenameError>(
            pmap(mkdir_p_spec(m, p).0)[dir_prefix(path_components(p), path_components(p).len() - 1)],
        ),
{
    let comps = path_components(p);
    lemma_ensure_from(m, comps, 0, ROOT_INODE, comps.len() as int);
}

/// A removed empty directory leaves the index and the tree.
pub proof fn law_remove_directory_removes(m: TreeModel, p: Seq<char>)
    requires
        model_wf(m),
        remove_directory_spec(m, p).1 is Ok,
    ensures
        ({
            let m2 = remove_directory_spec(m, p).0;
            &&& model_wf(m2)
            &&& pmap(m2) == pmap(m).remove(p)
            &&& !m2.nodes.contains_key(pmap(m)[p])
        }),
{
    let m1 = crate::tree_model::unlink_from(m, crate::pathutil::parent_or_root(p), name_or_empty(p));
    lemma_unbind(m1, p);
}

/// The pairs picked by `prefixed` are pairs of the index, every pair whose path has the
/// prefix is picked, and picked paths are distinct where the index's are.
pub proof fn lemma_prefixed_members(ps: Seq<(Seq<char>, u64)>, pre: Seq<char>)
    ensures
        forall|i: int| #![trigger prefixed(ps, pre)[i]] 0 <= i < prefixed(ps, pre).len() ==> exists|j: int| 0 <= j < ps.len() && ps[j] == prefixed(ps, pre)[i],
        forall|j: int| #![trigger ps[j]] 0 <= j < ps.len() && seq_starts_with(ps[j].0, pre) ==> exists|i: int| 0 <= i < prefixed(ps, pre).len() && prefixed(ps, pre)[i] == ps[j],
        keys_unique(ps) ==> keys_unique(prefixed(ps, pre)),
    decreases ps.len(),
{
    if ps.len() > 0 {
        let init = ps.drop_last();
        lemma_prefixed_members(init, pre);
        let sub = prefixed(init, pre);
        let cur = prefixed(ps, pre);
        assert forall|i: int| #![trigger cur[i]] 0 <= i < cur.len() implies exists|j: int| 0 <= j < ps.len() && ps[j] == cur[i] by {
            if i < sub.len() {
                assert(cur[i] == sub[i]);
                let j = choose|j: int| 0 <= j < init.len() && init[j] == sub[i];
                assert(ps[j] == init[j]);
            } else {
                assert(ps[ps.len() - 1] == cur[i]);
            }
        }
        assert forall|j: int| #![trigger ps[j]] 0 <= j < ps.len() && seq_starts_with(ps[j].0, pre) implies exists|i: int| 0 <= i < cur.len() && cur[i] == ps[j] by {
            if j < init.len() {
                assert(init[j] == ps[j]);
                let i = choose|i: int| 0 <= i < sub.len() && sub[i] == init[j];
                assert(cur[i] == sub[i]);
            } else {
                assert(cur[cur.len() - 1] == ps[j]);
            }
        }
        if keys_unique(ps) {
            assert(keys_unique(init)) by {
                assert forall|a: int, b: int| 0 <= a < init.len() && 0 <= b < init.len() && a != b implies init[a].0 != init[b].0 by {
                    assert(ps[a] == init[a] && ps[b] == init[b]);
                }
            }
            assert forall|a: int, b: int| 0 <= a < cur.len() && 0 <= b < cur.len() && a != b implies cur[a].0 != cur[b].0 by {
                if a < sub.len() && b < sub.len() {
                    assert(cur[a] == sub[a] && cur[b] == sub[b]);
                } else if a < sub.len() {
                    assert(cur[a] == sub[a]);
                    let j = choose|j: int| 0 <= j < init.len() && init[j] == sub[a];
                    assert(ps[j] == init[j]);
                    assert(cur[b] == ps[ps.len() - 1]);
                } else {
                    assert(cur[b] == sub[b]);
                    let j = choose|j: int| 0 <= j < init.len() && init[j] == sub[b];
                    assert(ps[j] == init[j]);
                    assert(cur[a] == ps[ps.len() - 1]);
                }
            }
        }
    }
}

/// The paths that a list of pairs holds.
pub open spec fn key_set(todo: Seq<(Seq<char>, u64)>) -> Set<Seq<char>> {
    Set::new(|k: Seq<char>| has_key(todo, k))
}

proof fn lemma_remove_all_paths(m: TreeModel, todo: Seq<(Seq<char>, u64)>, acc: Seq<FileId>)
    requires
        model_wf(m),
    ensures
        model_wf(remove_all(m, todo, acc).0),
        pmap(remove_all(m, todo, acc).0) == pmap(m).remove_keys(key_set(todo)),
    decreases todo.len(),
{
    if todo.len() == 0 {
        assert(pmap(m).remove_keys(key_set(todo)) =~= pmap(m));
    } else {
        let (p, ino) = todo[0];
        let acc2 = if file_at(m, ino) {
            match m.nodes[ino] {
                NodeView::File { file_id, .. } => acc.push(file_id),
                NodeView::Dir { .. } => acc,
            }
        } else {
            acc
        };
        lemma_unbind(m, p);
        let m1 = drop_node(unbind_path(m, p), ino);
        lemma_remove_all_paths(m1, todo.drop_first(), acc2);
        assert forall|k: Seq<char>| key_set(todo).contains(k) <==> #[trigger] key_set(todo.drop_first()).insert(p).contains(k) by {
            if has_key(todo, k) {
                let i = choose|i: int| 0 <= i < todo.len() && todo[i].0 == k;
                if i > 0 {
                    assert(todo.drop_first()[i - 1].0 == k);
                }
            }
            if has_key(todo.drop_first(), k) {
                let i = choose|i: int| 0 <= i < todo.drop_first().len() && todo.drop_first()[i].0 == k;
                assert(todo[i + 1].0 == k);
            }
            if k == p {
                assert(todo[0].0 == k);
            }
        }
        assert(key_set(todo) =~= key_set(todo.drop_first()).insert(p));
        assert(remove_all(m, todo, acc) == remove_all(m1, todo.drop_first(), acc2));
        assert(pmap(m1) == pmap(m).remove(p));
        assert(pmap(m).remove(p).remove_keys(key_set(todo.drop_first())) =~= pmap(m).remove_keys(key_set(todo)));
    }
}

/// After `remove_directory_recursive` succeeds, the index holds exactly the paths it held
/// before that do not start with the directory's text.
pub proof fn law_remove_recursive_paths(m: TreeModel, p: Seq<char>, q: Seq<char>)
    requires
        model_wf(m),
        remove_directory_recursive_spec(m, p).1 is Ok,
    ensures
        ({
            let m2 = remove_directory_recursive_spec(m, p).0;
            &&& model_wf(m2)
            &&& pmap(m2).contains_key(q) <==> (pmap(m).contains_key(q) && !seq_starts_with(q, p))
            &&& pmap(m2).contains_key(q) ==> pmap(m2)[q] == pmap(m)[q]
        }),
{
    let todo = prefixed(m.paths, p);
    lemma_remove_all_paths(m, todo, Seq::empty());
    lemma_prefixed_members(m.paths, p);
    lemma_prefixed_starts(m.paths, p);
    lemma_to_map(m.paths);
    if has_key(todo, q) {
        let i = choose|i: int| 0 <= i < todo.len() && todo[i].0 == q;
        assert(seq_starts_with(todo[i].0, p));
    }
    if pmap(m).contains_key(q) && seq_starts_with(q, p) {
        let j = choose|j: int| 0 <= j < m.paths.len() && m.paths[j].0 == q;
        assert(seq_starts_with(m.paths[j].0, p));
        let i = choose|i: int| 0 <= i < todo.len() && todo[i] == m.paths[j];
        assert(todo[i].0 == q);
    }
}

/// The text a path takes when its first `n` characters are replaced by `new_pre`.
pub open spec fn rebased(p: Seq<char>, n: nat, new_pre: Seq<char>) -> Seq<char> {
    new_pre + p.skip(n as int)
}

proof fn lemma_rebase(ps: Seq<(Seq<char>, u64)>, todo: Seq<(Seq<char>, u64)>, n: nat, new_pre: Seq<char>)
    requires
        keys_unique(ps),
        keys_unique(todo),
        forall|i: int| 0 <= i < todo.len() ==> #[trigger] to_map(ps).contains_key(todo[i].0) && to_map(ps)[todo[i].0] == todo[i].1,
        forall|i: int| 0 <= i < todo.len() ==> !to_map(ps).contains_key(#[trigger] rebased(todo[i].0, n, new_pre)),
        forall|i: int, j: int| 0 <= i < todo.len() && 0 <= j < todo.len() && i != j ==> #[trigger] rebased(todo[i].0, n, new_pre) != #[trigger] rebased(todo[j].0, n, new_pre),
    ensures
        keys_unique(rebase_all(ps, todo, n, new_pre)),
        forall|k: Seq<char>| to_map(ps).contains_key(k) && !has_key(todo, k) ==> #[trigger] to_map(rebase_all(ps, todo, n, new_pre)).contains_key(k)
            && to_map(rebase_all(ps, todo, n, new_pre))[k] == to_map(ps)[k],
        forall|i: int| 0 <= i < todo.len() ==> #[trigger] to_map(rebase_all(ps, todo, n, new_pre)).contains_key(rebased(todo[i].0, n, new_pre))
            && to_map(rebase_all(ps, todo, n, new_pre))[rebased(todo[i].0, n, new_pre)] == todo[i].1,
        forall|k: Seq<char>| #[trigger] to_map(rebase_all(ps, todo, n, new_pre)).contains_key(k) ==> (to_map(ps).contains_key(k) && !has_key(todo, k))
            || exists|i: int| 0 <= i < todo.len() && k == rebased(todo[i].0, n, new_pre),
    decreases todo.len(),
{
    if todo.len() > 0 {
        let (q0, v0) = todo[0];
        let k0 = rebased(q0, n, new_pre);
        let ps0 = crate::assoc::seq_remove(ps, q0);
        lemma_seq_remove(ps, q0);
        lemma_seq_insert(ps0, k0, v0);
        let ps1 = crate::assoc::seq_insert(ps0, k0, v0);
        let t1 = todo.drop_first();
        assert(to_map(ps1) == to_map(ps).remove(q0).insert(k0, v0));
        assert(to_map(ps).contains_key(todo[0].0));
        assert(!to_map(ps).contains_key(rebased(todo[0].0, n, new_pre)));
        assert(keys_unique(t1)) by {
            assert forall|a: int, b: int| 0 <= a < t1.len() && 0 <= b < t1.len() && a != b implies t1[a].0 != t1[b].0 by {
                assert(todo[a + 1].0 != todo[b + 1].0);
            }
        }
        assert forall|i: int| 0 <= i < t1.len() implies #[trigger] to_map(ps1).contains_key(t1[i].0) && to_map(ps1)[t1[i].0] == t1[i].1 by {
            assert(t1[i] == todo[i + 1]);
            assert(to_map(ps).contains_key(todo[i + 1].0));
            assert(todo[i + 1].0 != todo[0].0);
        }
        assert forall|i: int| 0 <= i < t1.len() implies !to_map(ps1).contains_key(#[trigger] rebased(t1[i].0, n, new_pre)) by {
            assert(t1[i] == todo[i + 1]);
            assert(!to_map(ps).contains_key(rebased(todo[i + 1].0, n, new_pre)));
            assert(rebased(todo[i + 1].0, n, new_pre) != rebased(todo[0].0, n, new_pre));
        }
        assert forall|i: int, j: int| 0 <= i < t1.len() && 0 <= j < t1.len() && i != j implies #[trigger] rebased(t1[i].0, n, new_pre) != #[trigger] rebased(t1[j].0, n, new_pre) by {
            assert(t1[i] == todo[i + 1] && t1[j] == todo[j + 1]);
            assert(rebased(todo[i + 1].0, n, new_pre) != rebased(todo[j + 1].0, n, new_pre));
        }
        lemma_rebase(ps1, t1, n, new_pre);
        let res = to_map(rebase_all(ps, todo, n, new_pre));
        assert(rebase_all(ps, todo, n, new_pre) == rebase_all(ps1, t1, n, new_pre));
        assert(!has_key(t1, k0)) by {
            if has_key(t1, k0) {
                let i = choose|i: int| 0 <= i < t1.len() && t1[i].0 == k0;
                assert(t1[i] == todo[i + 1]);
                assert(to_map(ps).contains_key(todo[i + 1].0));
            }
        }
        assert forall|k: Seq<char>| to_map(ps).contains_key(k) && !has_key(todo, k) implies #[trigger] res.contains_key(k) && res[k] == to_map(ps)[k] by {
            assert(k != q0) by {
                if k == q0 {
                    assert(todo[0].0 == k);
                }
            }
            if has_key(t1, k) {
                let i = choose|i: int| 0 <= i < t1.len() && t1[i].0 == k;
                assert(todo[i + 1].0 == k);
            }
        }
        assert forall|i: int| 0 <= i < todo.len() implies #[trigger] res.contains_key(rebased(todo[i].0, n, new_pre)) && res[rebased(todo[i].0, n, new_pre)] == todo[i].1 by {
            if i > 0 {
                assert(t1[i - 1] == todo[i]);
            }
        }
        assert forall|k: Seq<char>| #[trigger] res.contains_key(k) implies (to_map(ps).contains_key(k) && !has_key(todo, k)) || exists|i: int| 0 <= i < todo.len() && k == rebased(todo[i].0, n, new_pre) by {
            if to_map(ps1).contains_key(k) && !has_key(t1, k) {
                if k == k0 {
                    assert(k == rebased(todo[0].0, n, new_pre));
                } else {
                    assert(k != q0);
                    if has_key(todo, k) {
                        let i = choose|i: int| 0 <= i < todo.len() && todo[i].0 == k;
                        if i > 0 {
                            assert(t1[i - 1].0 == k);
                        }
                    }
                }
            } else {
                let i = choose|i: int| 0 <= i < t1.len() && k == rebased(t1[i].0, n, new_pre);
                assert(t1[i] == todo[i + 1]);
            }
        }
    }
}

/// A renamed directory keeps its inode and is indexed at the new path; every path that
/// started with the old text is indexed at the new text followed by the rest, with the same
/// inode; every other path keeps its inode; the number returned counts the moved paths.
/// This holds where no moved path lands on a path already indexed.
pub proof fn law_rename_directory_moves(m: TreeModel, old_p: Seq<char>, new_p: Seq<char>)
    requires
        model_wf(m),
        rename_directory_spec(m, old_p, new_p).1 is Ok,
        forall|q: Seq<char>| #[trigger] pmap(m).contains_key(q) && seq_starts_with(q, old_p) ==> !pmap(m).contains_key(rebased(q, old_p.len(), new_p)),
    ensures
        ({
            let (m2, r) = rename_directory_spec(m, old_p, new_p);
            let ino = pmap(m)[old_p];
            &&& model_wf(m2)
            &&& r == Ok::<u64, crate::tree_model::RenameError>(prefixed(m.paths, old_p).len() as u64)
            &&& pmap(m2).contains_key(new_p) && pmap(m2)[new_p] == ino
            &&& forall|q: Seq<char>| #[trigger] pmap(m).contains_key(q) && !seq_starts_with(q, old_p) ==> pmap(m2).contains_key(q)
                && pmap(m2)[q] == pmap(m)[q]
            &&& forall|q: Seq<char>| #[trigger] pmap(m).contains_key(q) && seq_starts_with(q, old_p) ==> pmap(m2).contains_key(
                rebased(q, old_p.len(), new_p),
            ) && pmap(m2)[rebased(q, old_p.len(), new_p)] == pmap(m)[q]
            &&& forall|q: Seq<char>| #[trigger] pmap(m2).contains_key(q) ==> (pmap(m).contains_key(q) && !seq_starts_with(q, old_p))
                || exists|q0: Seq<char>| pmap(m).contains_key(q0) && seq_starts_with(q0, old_p) && q == rebased(q0, old_p.len(), new_p)
            &&& m2.nodes.contains_key(ino)
            &&& (match m2.nodes[ino] {
                NodeView::Dir { name, parent, .. } => name == name_or_empty(new_p) && parent == pmap(m)[crate::pathutil::parent_or_root_nonempty(new_p)],
                NodeView::File { .. } => false,
            })
        }),
{
    let ps = m.paths;
    let n = old_p.len();
    let todo = prefixed(ps, old_p);
    lemma_prefixed_members(ps, old_p);
    lemma_prefixed_starts(ps, old_p);
    lemma_to_map(ps);
    assert forall|i: int| 0 <= i < todo.len() implies #[trigger] to_map(ps).contains_key(todo[i].0) && to_map(ps)[todo[i].0] == todo[i].1 by {
        let j = choose|j: int| 0 <= j < ps.len() && ps[j] == todo[i];
        assert(has_key(ps, ps[j].0));
    }
    assert forall|i: int| 0 <= i < todo.len() implies !to_map(ps).contains_key(#[trigger] rebased(todo[i].0, n, new_p)) by {
        assert(to_map(ps).contains_key(todo[i].0));
        assert(seq_starts_with(todo[i].0, old_p));
    }
    assert forall|i: int, j: int| 0 <= i < todo.len() && 0 <= j < todo.len() && i != j implies #[trigger] rebased(todo[i].0, n, new_p) != #[trigger] rebased(todo[j].0, n, new_p) by {
        let a = todo[i].0;
        let b = todo[j].0;
        assert(seq_starts_with(a, old_p) && seq_starts_with(b, old_p));
        assert(a != b);
        if rebased(a, n, new_p) == rebased(b, n, new_p) {
            assert(a.skip(n as int) =~= rebased(a, n, new_p).skip(new_p.len() as int));
            assert(b.skip(n as int) =~= rebased(b, n, new_p).skip(new_p.len() as int));
            assert(a =~= a.subrange(0, n as int) + a.skip(n as int));
            assert(b =~= b.subrange(0, n as int) + b.skip(n as int));
        }
    }
    lemma_rebase(ps, todo, n, new_p);
    let ino = pmap(m)[old_p];
    let np = pmap(m)[crate::pathutil::parent_or_root_nonempty(new_p)];
    let new_name = name_or_empty(new_p);
    let m1 = TreeModel { paths: rebase_all(ps, todo, n, new_p), ..m };
    let res = to_map(m1.paths);
    let (m2, r) = rename_directory_spec(m, old_p, new_p);
    assert(pmap(m2) == res);
    // the directory itself is among the moved paths
    assert(has_key(ps, old_p));
    let j0 = choose|j: int| 0 <= j < ps.len() && ps[j].0 == old_p;
    assert(seq_starts_with(ps[j0].0, old_p)) by {
        assert(old_p.subrange(0, old_p.len() as int) =~= old_p);
    }
    let i0 = choose|i: int| 0 <= i < todo.len() && todo[i] == ps[j0];
    assert(rebased(todo[i0].0, n, new_p) =~= new_p);
    assert forall|q: Seq<char>| #[trigger] pmap(m).contains_key(q) && !seq_starts_with(q, old_p) implies pmap(m2).contains_key(q) && pmap(m2)[q] == pmap(m)[q] by {
        if has_key(todo, q) {
            let i = choose|i: int| 0 <= i < todo.len() && todo[i].0 == q;
            assert(seq_starts_with(todo[i].0, old_p));
        }
    }
    assert forall|q: Seq<char>| #[trigger] pmap(m).contains_key(q) && seq_starts_with(q, old_p) implies pmap(m2).contains_key(rebased(q, n, new_p))
        && pmap(m2)[rebased(q, n, new_p)] == pmap(m)[q] by {
        let j = choose|j: int| 0 <= j < ps.len() && ps[j].0 == q;
        assert(seq_starts_with(ps[j].0, old_p));
        let i = choose|i: int| 0 <= i < todo.len() && todo[i] == ps[j];
        assert(todo[i].0 == q);
    }
    assert forall|q: Seq<char>| #[trigger] pmap(m2).contains_key(q) implies (pmap(m).contains_key(q) && !seq_starts_with(q, old_p))
        || exists|q0: Seq<char>| pmap(m).contains_key(q0) && seq_starts_with(q0, old_p) && q == rebased(q0, n, new_p) by {
        if res.contains_key(q) && !(to_map(ps).contains_key(q) && !has_key(todo, q)) {
            let i = choose|i: int| 0 <= i < todo.len() && q == rebased(todo[i].0, n, new_p);
            assert(to_map(ps).contains_key(todo[i].0));
            assert(seq_starts_with(todo[i].0, old_p));
        } else if res.contains_key(q) {
            if seq_starts_with(q, old_p) {
                let j = choose|j: int| 0 <= j < ps.len() && ps[j].0 == q;
                assert(seq_starts_with(ps[j].0, old_p));
                let i = choose|i: int| 0 <= i < todo.len() && todo[i] == ps[j];
                assert(todo[i].0 == q);
            }
        }
    }
}

} // verus!

//! The in-memory directory tree that the file system serves.
use vstd::prelude::*;

use std::collections::HashMap;
use vstd::std_specs::iter::IteratorSpec;
use std::time::{Duration, SystemTime};

use crate::assoc::{entries_view, lemma_ev_push, ChildMap, PathIndex};
use crate::pathutil::{dir_prefix, path_parent, name_or_empty_exec, parent_or_root_exec, parent_or_root_nonempty_exec, path_components, split_components};
use crate::text::{extend_chars, extend_chars_from, from_chars, seq_starts_with, starts_with, to_chars};
use crate::tree_model::{
    bind_path, drop_node, empty_dir, ensure_from, ensure_parents_spec, initial_model, insert_file_spec, mkdir_p_spec, mkdir_spec,
    next_after, pmap, rename_file_node, move_dir_node, target_parent, rename_file_spec, prefixed, rebase_all, lemma_prefixed_starts,
    rename_directory_spec, trash_seq, trash_name, ensure_trash_spec, remove_directory_spec, remove_all,
    remove_directory_recursive_spec, RemoveError, children_of, is_listing, get_parent_spec, parent_by_path_spec, first_path_of,
    force_refresh_spec, kind_count, count_listed, lemma_count_listed, put_node, remove_file_spec, unbind_path, unlink_from, with_child, without_child, dir_at, NodeView, RenameError,
    TreeModel, ROOT_INODE, counter_fresh,
};
use crate::types::{FileId, FileMeta, VirtualPath};

verus! {

broadcast use vstd::std_specs::hash::group_hash_axioms;

/// `SystemTime::now`: the current time, of which nothing is claimed.
#[verifier::external_body]
fn now() -> SystemTime {
    SystemTime::now()
}

/// A directory: its parent and its children by name.
#[derive(Debug)]
pub struct DirNode {
    pub inode: u64,
    pub parent: u64,
    pub name: String,
    pub children: ChildMap,
    pub mtime: SystemTime,
}

/// A file: the catalogue id it stands for, its size and its modification time.
#[derive(Debug)]
pub struct FileNode {
    pub inode: u64,
    pub name: String,
    pub file_id: FileId,
    pub size: u64,
    pub mtime: SystemTime,
}

#[derive(Debug)]
pub enum VirtualNode {
    Directory(DirNode),
    File(FileNode),
}

impl View for VirtualNode {
    type V = NodeView;

    open spec fn view(&self) -> NodeView {
        match self {
            VirtualNode::Directory(d) => NodeView::Dir {
                inode: d.inode,
                parent: d.parent,
                name: d.name@,
                children: d.children@,
            },
            VirtualNode::File(f) => NodeView::File {
                inode: f.inode,
                name: f.name@,
                file_id: f.file_id,
                size: f.size,
                mtime: f.mtime,
            },
        }
    }
}

impl VirtualNode {
    pub open spec fn wf(&self) -> bool {
        match self {
            VirtualNode::Directory(d) => d.children.wf(),
            VirtualNode::File(_) => true,
        }
    }

    pub fn inode(&self) -> (r: u64)
        ensures
            r == (match self@ {
                NodeView::Dir { inode, .. } => inode,
                NodeView::File { inode, .. } => inode,
            }),
    {
        match self {
            VirtualNode::Directory(d) => d.inode,
            VirtualNode::File(f) => f.inode,
        }
    }

    pub fn name(&self) -> (r: &str)
        ensures
            r@ == (match self@ {
                NodeView::Dir { name, .. } => name,
                NodeView::File { name, .. } => name,
            }),
    {
        match self {
            VirtualNode::Directory(d) => d.name.as_str(),
            VirtualNode::File(f) => f.name.as_str(),
        }
    }

    pub fn is_dir(&self) -> (r: bool)
        ensures
            r == (self@ is Dir),
    {
        match self {
            VirtualNode::Directory(_) => true,
            VirtualNode::File(_) => false,
        }
    }
}

/// When the tree counts as stale.
#[derive(Debug, Clone)]
pub struct RefreshPolicy {
    pub ttl: Duration,
    pub refresh_on_access: bool,
    pub background_interval: Option<Duration>,
}

/// The span of `secs` seconds.
pub uninterp spec fn secs_duration(secs: u64) -> Duration;

/// `Duration::from_secs`: the span of that many seconds, a function of the count alone.
#[verifier::external_body]
fn duration_from_secs(secs: u64) -> (r: Duration)
    ensures
        r == secs_duration(secs),
{
    Duration::from_secs(secs)
}

impl Default for RefreshPolicy {
    /// A five-minute time to live, no refresh on access, no background refresh.
    fn default() -> (r: Self)
        ensures
            r.ttl == secs_duration(300),
            !r.refresh_on_access,
            r.background_interval is None,
    {
        RefreshPolicy { ttl: duration_from_secs(300), refresh_on_access: false, background_interval: None }
    }
}

/// The virtual directory tree: nodes by inode and an index from path text to inode.
pub struct VirtualTree {
    nodes: HashMap<u64, VirtualNode>,
    paths: PathIndex,
    next_inode: u64,
    last_refresh: SystemTime,
    refresh_policy: RefreshPolicy,
}

impl VirtualTree {
    pub closed spec fn model(&self) -> TreeModel {
        TreeModel {
            nodes: self.nodes@.map_values(|n: VirtualNode| n@),
            paths: self.paths.pairs(),
            next: self.next_inode,
        }
    }

    pub closed spec fn wf(&self) -> bool {
        &&& self.paths.wf()
        &&& forall|k: u64| #[trigger] self.nodes@.contains_key(k) ==> self.nodes@[k].wf()
        &&& ROOT_INODE < self.next_inode
        &&& forall|k: u64| #[trigger] self.nodes@.contains_key(k) ==> k < self.next_inode
    }

    /// Whether `n` more inodes can be handed out before the counter reaches its end.
    pub open spec fn room(&self, n: int) -> bool {
        self.model().next + n < u64::MAX
    }

    /// The inode that the next new node gets.
    pub fn next_inode(&self) -> (r: u64)
        ensures
            r == self.model().next,
    {
        self.next_inode
    }

    /// A well-formed tree has a well-formed model.
    pub proof fn lemma_model_wf(&self)
        requires
            self.wf(),
        ensures
            crate::tree_laws::model_wf(self.model()),
            counter_fresh(self.model()),
    {
    }

    pub closed spec fn policy(&self) -> RefreshPolicy {
        self.refresh_policy
    }

    fn alloc_inode(&mut self) -> (r: u64)
        requires
            old(self).wf(),
            old(self).next_inode < u64::MAX,
        ensures
            final(self).wf(),
            ROOT_INODE < r,
            !old(self).nodes@.contains_key(r),
            r == old(self).next_inode,
            final(self).next_inode == r + 1,
            final(self).next_inode == next_after(old(self).next_inode),
            final(self).nodes == old(self).nodes,
            final(self).paths == old(self).paths,
            final(self).last_refresh == old(self).last_refresh,
            final(self).refresh_policy == old(self).refresh_policy,
    {
        let r = self.next_inode;
        self.next_inode = if r == u64::MAX { 0 } else { r + 1 };
        r
    }

    fn put_node(&mut self, ino: u64, n: VirtualNode)
        requires
            old(self).wf(),
            n.wf(),
            ino < old(self).next_inode,
        ensures
            final(self).wf(),
            final(self).model() == put_node(old(self).model(), ino, n@),
            final(self).policy() == old(self).policy(),
    {
        let ghost before = self.model();
        let ghost nv = n@;
        self.nodes.insert(ino, n);
        proof {
            assert(self.model().nodes =~= before.nodes.insert(ino, nv));
        }
    }

    fn drop_node(&mut self, ino: u64) -> (r: Option<VirtualNode>)
        requires
            old(self).wf(),
        ensures
            final(self).wf(),
            final(self).model() == drop_node(old(self).model(), ino),
            final(self).policy() == old(self).policy(),
            match r {
                Some(n) => old(self).model().nodes.contains_key(ino) && n@ == old(self).model().nodes[ino] && n.wf(),
                None => !old(self).model().nodes.contains_key(ino),
            },
    {
        let ghost before = self.model();
        let r = self.nodes.remove(&ino);
        proof {
            assert(self.model().nodes =~= before.nodes.remove(ino));
        }
        r
    }

    fn bind_path(&mut self, p: Vec<char>, ino: u64)
        requires
            old(self).wf(),
        ensures
            final(self).wf(),
            final(self).model() == bind_path(old(self).model(), p@, ino),
            final(self).policy() == old(self).policy(),
    {
        self.paths.insert(p, ino);
    }

    fn unbind_path(&mut self, p: &[char])
        requires
            old(self).wf(),
        ensures
            final(self).wf(),
            final(self).model() == unbind_path(old(self).model(), p@),
            final(self).policy() == old(self).policy(),
    {
        self.paths.remove(p);
    }

    fn find_path(&self, p: &[char]) -> (r: Option<u64>)
        requires
            self.wf(),
        ensures
            r == pmap(self.model()).get(p@),
    {
        self.paths.get(p)
    }

    fn has_path(&self, p: &[char]) -> (r: bool)
        requires
            self.wf(),
        ensures
            r == pmap(self.model()).contains_key(p@),
    {
        self.paths.contains(p)
    }

    fn is_dir_at(&self, ino: u64) -> (r: bool)
        ensures
            r == dir_at(self.model(), ino),
    {
        match self.nodes.get(&ino) {
            Some(VirtualNode::Directory(_)) => true,
            _ => false,
        }
    }

    fn add_child(&mut self, dir: u64, name: Vec<char>, child: u64)
        requires
            old(self).wf(),
        ensures
            final(self).wf(),
            final(self).model() == with_child(old(self).model(), dir, name@, child),
            final(self).policy() == old(self).policy(),
    {
        let ghost before = self.model();
        let ghost nm = name@;
        match self.drop_node(dir) {
            Some(VirtualNode::Directory(mut d)) => {
                d.children.insert(name, child);
                self.put_node(dir, VirtualNode::Directory(d));
                proof {
                    assert(self.model().nodes =~= with_child(before, dir, nm, child).nodes);
                }
            },
            Some(other) => {
                self.put_node(dir, other);
                proof {
                    assert(self.model().nodes =~= before.nodes);
                }
            },
            None => {
                proof {
                    assert(self.model().nodes =~= before.nodes);
                }
            },
        }
    }

    fn remove_child(&mut self, dir: u64, name: &[char])
        requires
            old(self).wf(),
        ensures
            final(self).wf(),
            final(self).model() == without_child(old(self).model(), dir, name@),
            final(self).policy() == old(self).policy(),
    {
        let ghost before = self.model();
        match self.drop_node(dir) {
            Some(VirtualNode::Directory(mut d)) => {
                d.children.remove(name);
                self.put_node(dir, VirtualNode::Directory(d));
                proof {
                    assert(self.model().nodes =~= without_child(before, dir, name@).nodes);
                }
            },
            Some(other) => {
                self.put_node(dir, other);
                proof {
                    assert(self.model().nodes =~= before.nodes);
                }
            },
            None => {
                proof {
                    assert(self.model().nodes =~= before.nodes);
                }
            },
        }
    }

    /// Unlinks `name` from the directory that the path `dir_path` names, if indexed.
    fn unlink_from(&mut self, dir_path: &[char], name: &[char])
        requires
            old(self).wf(),
        ensures
            final(self).wf(),
            final(self).model() == unlink_from(old(self).model(), dir_path@, name@),
            final(self).policy() == old(self).policy(),
    {
        match self.find_path(dir_path) {
            Some(parent) => self.remove_child(parent, name),
            None => {},
        }
    }

    fn new_dir(ino: u64, parent: u64, name: &[char]) -> (r: VirtualNode)
        ensures
            r@ == empty_dir(ino, parent, name@),
            r.wf(),
    {
        let children = ChildMap::new();
        VirtualNode::Directory(DirNode { inode: ino, parent, name: from_chars(name), children, mtime: now() })
    }

    /// A tree holding the root directory alone, with the default refresh policy.
    pub fn new() -> (r: Self)
        ensures
            r.wf(),
            r.model() == initial_model(),
    {
        Self::with_policy(RefreshPolicy::default())
    }

    /// A tree holding the root directory alone.
    pub fn with_policy(policy: RefreshPolicy) -> (r: Self)
        ensures
            r.wf(),
            r.model() == initial_model(),
            r.policy() == policy,
    {
        let mut tree = VirtualTree {
            nodes: HashMap::new(),
            paths: PathIndex::new(),
            next_inode: 2,
            last_refresh: now(),
            refresh_policy: policy,
        };
        let empty: Vec<char> = Vec::new();
        let root = Self::new_dir(ROOT_INODE, ROOT_INODE, empty.as_slice());
        tree.put_node(ROOT_INODE, root);
        let mut slash: Vec<char> = Vec::new();
        slash.push('/');
        proof {
            assert(slash@ =~= crate::pathutil::slash_seq());
        }
        tree.bind_path(slash, ROOT_INODE);
        proof {
            let m = tree.model();
            assert(m.nodes =~= initial_model().nodes);
            assert(m.paths =~= initial_model().paths);
        }
        tree
    }

    /// The node with this inode.
    pub fn get(&self, inode: u64) -> (r: Option<&VirtualNode>)
        ensures
            match r {
                Some(n) => self.model().nodes.contains_key(inode) && n@ == self.model().nodes[inode],
                None => !self.model().nodes.contains_key(inode),
            },
    {
        self.nodes.get(&inode)
    }

    /// The node that the index gives for this path.
    pub fn get_by_path(&self, path: &VirtualPath) -> (r: Option<&VirtualNode>)
        requires
            self.wf(),
        ensures
            match r {
                Some(n) => pmap(self.model()).contains_key(path@) && self.model().nodes.contains_key(
                    pmap(self.model())[path@],
                ) && n@ == self.model().nodes[pmap(self.model())[path@]],
                None => !pmap(self.model()).contains_key(path@) || !self.model().nodes.contains_key(
                    pmap(self.model())[path@],
                ),
            },
    {
        let p = to_chars(path.as_str());
        match self.find_path(p.as_slice()) {
            Some(ino) => self.nodes.get(&ino),
            None => None,
        }
    }

    /// The child `name` of directory `parent_inode`.
    pub fn lookup(&self, parent_inode: u64, name: &str) -> (r: Option<u64>)
        requires
            self.wf(),
        ensures
            r == (if dir_at(self.model(), parent_inode) {
                match self.model().nodes[parent_inode] {
                    NodeView::Dir { children, .. } => children.get(name@),
                    NodeView::File { .. } => None,
                }
            } else {
                None
            }),
    {
        match self.nodes.get(&parent_inode) {
            Some(VirtualNode::Directory(dir)) => {
                let n = to_chars(name);
                dir.children.get(n.as_slice())
            },
            _ => None,
        }
    }

    /// Creates the directory `path` under its existing parent directory.
    pub fn mkdir(&mut self, path: &VirtualPath) -> (r: Result<u64, RenameError>)
        requires
            old(self).wf(),
            old(self).room(1),
        ensures
            final(self).wf(),
            r is Ok ==> ROOT_INODE < r->Ok_0 && !old(self).model().nodes.contains_key(r->Ok_0),
            final(self).model().next <= old(self).model().next + 1,
            (final(self).model(), r) == mkdir_spec(old(self).model(), path@),
            final(self).policy() == old(self).policy(),
    {
        let p = to_chars(path.as_str());
        if self.has_path(p.as_slice()) {
            return Err(RenameError::TargetExists);
        }
        let pp = parent_or_root_nonempty_exec(path.as_str());
        let parent = match self.find_path(pp.as_slice()) {
            Some(i) => i,
            None => return Err(RenameError::ParentNotFound),
        };
        if !self.is_dir_at(parent) {
            return Err(RenameError::ParentNotFound);
        }
        let ino = self.alloc_inode();
        let name = name_or_empty_exec(path.as_str());
        let node = Self::new_dir(ino, parent, name.as_slice());
        self.put_node(ino, node);
        self.bind_path(p, ino);
        self.add_child(parent, name, ino);
        Ok(ino)
    }

    /// Walks components `j .. limit` of `comps` below `cur`, creating missing directories.
    fn ensure_from(&mut self, comps: &Vec<Vec<char>>, limit: usize, cur: u64) -> (r: u64)
        requires
            old(self).wf(),
            limit <= comps@.len(),
            old(self).room(limit as int),
        ensures
            final(self).wf(),
            final(self).model().next <= old(self).model().next + limit,
            old(self).model().next <= final(self).model().next,
            (final(self).model(), r) == ensure_from(
                old(self).model(),
                comps@.map_values(|c: Vec<char>| c@),
                0,
                cur,
                limit as int,
            ),
            final(self).policy() == old(self).policy(),
    {
        let ghost cs = comps@.map_values(|c: Vec<char>| c@);
        let ghost m0 = self.model();
        let mut current = cur;
        let mut path: Vec<char> = Vec::new();
        let mut j: usize = 0;
        while j < limit
            invariant
                self.wf(),
                j <= limit,
                limit <= comps@.len(),
                cs == comps@.map_values(|c: Vec<char>| c@),
                self.policy() == old(self).policy(),
                self.model().next <= old(self).model().next + j,
                old(self).model().next <= self.model().next,
                old(self).room(limit as int),
                j > 0 ==> path@ == dir_prefix(cs, j - 1),
                j == 0 ==> path@.len() == 0,
                ensure_from(m0, cs, 0, cur, limit as int) == ensure_from(self.model(), cs, j as int, current, limit as int),
            decreases limit - j,
        {
            path.push('/');
            extend_chars(&mut path, comps[j].as_slice());
            proof {
                if j > 0 {
                    assert(path@ =~= dir_prefix(cs, j - 1) + crate::pathutil::slash_seq() + cs[j as int]);
                } else {
                    assert(path@ =~= crate::pathutil::slash_seq() + cs[0]);
                }
                assert(path@ == dir_prefix(cs, j as int));
            }
            match self.find_path(path.as_slice()) {
                Some(existing) => {
                    current = existing;
                },
                None => {
                    let ino = self.alloc_inode();
                    let node = Self::new_dir(ino, current, comps[j].as_slice());
                    self.put_node(ino, node);
                    let key = path.clone();
                    self.bind_path(key, ino);
                    let nm = comps[j].clone();
                    self.add_child(current, nm, ino);
                    current = ino;
                },
            }
            j = j + 1;
        }
        current
    }

    fn ensure_parents(&mut self, path: &VirtualPath) -> (r: u64)
        requires
            old(self).wf(),
            old(self).room(path_components(path@).len() as int),
        ensures
            final(self).wf(),
            final(self).model().next <= old(self).model().next + path_components(path@).len(),
            old(self).model().next <= final(self).model().next,
            (final(self).model(), r) == ensure_parents_spec(old(self).model(), path@),
            final(self).policy() == old(self).policy(),
    {
        let p = to_chars(path.as_str());
        let comps = split_components(p.as_slice());
        proof {
            assert(comps@.map_values(|c: Vec<char>| c@) =~= path_components(path@));
        }
        if comps.len() <= 1 {
            return ROOT_INODE;
        }
        self.ensure_from(&comps, comps.len() - 1, ROOT_INODE)
    }

    /// Adds a file at its virtual path, creating the directories above it.
    pub fn insert_file(&mut self, meta: &FileMeta) -> (r: u64)
        requires
            old(self).wf(),
            old(self).room(path_components(meta.virtual_path@).len() + 1int),
        ensures
            final(self).wf(),
            ROOT_INODE < r && !old(self).model().nodes.contains_key(r),
            final(self).model().next <= old(self).model().next + path_components(meta.virtual_path@).len() + 1,
            (final(self).model(), r) == insert_file_spec(
                old(self).model(),
                meta.virtual_path@,
                meta.id,
                meta.size,
                meta.mtime,
            ),
            final(self).policy() == old(self).policy(),
    {
        let path = &meta.virtual_path;
        let parent = self.ensure_parents(path);
        let ino = self.alloc_inode();
        let name = name_or_empty_exec(path.as_str());
        let node = VirtualNode::File(
            FileNode { inode: ino, name: from_chars(name.as_slice()), file_id: meta.id, size: meta.size, mtime: meta.mtime },
        );
        self.put_node(ino, node);
        let p = to_chars(path.as_str());
        self.bind_path(p, ino);
        self.add_child(parent, name, ino);
        ino
    }

    /// Removes a path from the index and its node from the tree; gives the id where it was a file.
    pub fn remove_file(&mut self, path: &VirtualPath) -> (r: Option<FileId>)
        requires
            old(self).wf(),
        ensures
            final(self).wf(),
            (final(self).model(), r) == remove_file_spec(old(self).model(), path@),
            final(self).policy() == old(self).policy(),
    {
        let p = to_chars(path.as_str());
        let ino = match self.find_path(p.as_slice()) {
            Some(i) => i,
            None => return None,
        };
        self.unbind_path(p.as_slice());
        match self.drop_node(ino) {
            Some(VirtualNode::File(file)) => {
                let pp = parent_or_root_exec(path.as_str());
                let nm = to_chars(file.name.as_str());
                self.unlink_from(pp.as_slice(), nm.as_slice());
                Some(file.file_id)
            },
            _ => None,
        }
    }

    /// Creates every missing directory along the path.
    pub fn mkdir_p(&mut self, path: &VirtualPath) -> (r: Result<u64, RenameError>)
        requires
            old(self).wf(),
            old(self).room(path_components(path@).len() as int),
        ensures
            final(self).wf(),
            (final(self).model(), r) == mkdir_p_spec(old(self).model(), path@),
            final(self).policy() == old(self).policy(),
    {
        let p = to_chars(path.as_str());
        match self.find_path(p.as_slice()) {
            Some(existing) => {
                if self.is_dir_at(existing) {
                    return Ok(existing);
                }
                return Err(RenameError::TargetExists);
            },
            None => {},
        }
        let comps = split_components(p.as_slice());
        proof {
            assert(comps@.map_values(|c: Vec<char>| c@) =~= path_components(path@));
        }
        if comps.len() == 0 {
            return Ok(ROOT_INODE);
        }
        let ino = self.ensure_from(&comps, comps.len(), ROOT_INODE);
        Ok(ino)
    }
    /// Renames the file node `ino`; leaves any other node as it is.
    fn set_file_name(&mut self, ino: u64, name: &[char])
        requires
            old(self).wf(),
        ensures
            final(self).wf(),
            final(self).model() == rename_file_node(old(self).model(), ino, name@),
            final(self).policy() == old(self).policy(),
    {
        let ghost before = self.model();
        match self.drop_node(ino) {
            Some(VirtualNode::File(mut f)) => {
                f.name = from_chars(name);
                self.put_node(ino, VirtualNode::File(f));
                proof {
                    assert(self.model().nodes =~= rename_file_node(before, ino, name@).nodes);
                }
            },
            Some(other) => {
                self.put_node(ino, other);
                proof {
                    assert(self.model().nodes =~= before.nodes);
                }
            },
            None => {
                proof {
                    assert(self.model().nodes =~= before.nodes);
                }
            },
        }
    }

    /// Renames the directory node `ino` and records its new parent; leaves any other node.
    fn move_dir(&mut self, ino: u64, name: &[char], parent: u64)
        requires
            old(self).wf(),
        ensures
            final(self).wf(),
            final(self).model() == move_dir_node(old(self).model(), ino, name@, parent),
            final(self).policy() == old(self).policy(),
    {
        let ghost before = self.model();
        match self.drop_node(ino) {
            Some(VirtualNode::Directory(mut d)) => {
                d.name = from_chars(name);
                d.parent = parent;
                self.put_node(ino, VirtualNode::Directory(d));
                proof {
                    assert(self.model().nodes =~= move_dir_node(before, ino, name@, parent).nodes);
                }
            },
            Some(other) => {
                self.put_node(ino, other);
                proof {
                    assert(self.model().nodes =~= before.nodes);
                }
            },
            None => {
                proof {
                    assert(self.model().nodes =~= before.nodes);
                }
            },
        }
    }

    /// The directory that a rename's target would go in.
    fn target_parent(&self, new_path: &str) -> (r: Result<u64, RenameError>)
        requires
            self.wf(),
        ensures
            r == target_parent(self.model(), new_path@),
    {
        let npp = parent_or_root_nonempty_exec(new_path);
        match self.find_path(npp.as_slice()) {
            Some(i) => {
                if self.is_dir_at(i) {
                    Ok(i)
                } else {
                    Err(RenameError::ParentNotFound)
                }
            },
            None => Err(RenameError::ParentNotFound),
        }
    }

    /// Moves a file to a new path under an existing directory, keeping its inode.
    pub fn rename_file(&mut self, old_path: &VirtualPath, new_path: &VirtualPath) -> (r: Result<(), RenameError>)
        requires
            old(self).wf(),
        ensures
            final(self).wf(),
            (final(self).model(), r) == rename_file_spec(old(self).model(), old_path@, new_path@),
            final(self).policy() == old(self).policy(),
    {
        let op = to_chars(old_path.as_str());
        let old_inode = match self.find_path(op.as_slice()) {
            Some(i) => i,
            None => return Err(RenameError::SourceNotFound),
        };
        let np = to_chars(new_path.as_str());
        if self.has_path(np.as_slice()) {
            return Err(RenameError::TargetExists);
        }
        match self.nodes.get(&old_inode) {
            None => return Err(RenameError::SourceNotFound),
            Some(n) => {
                if n.is_dir() {
                    return Err(RenameError::IsDirectory);
                }
            },
        }
        let new_parent = match self.target_parent(new_path.as_str()) {
            Ok(i) => i,
            Err(e) => return Err(e),
        };
        self.unbind_path(op.as_slice());
        let opp = parent_or_root_exec(old_path.as_str());
        let old_name = name_or_empty_exec(old_path.as_str());
        self.unlink_from(opp.as_slice(), old_name.as_slice());
        let new_name = name_or_empty_exec(new_path.as_str());
        self.set_file_name(old_inode, new_name.as_slice());
        self.add_child(new_parent, new_name, old_inode);
        self.bind_path(np, old_inode);
        Ok(())
    }

    /// The index pairs whose path text starts with `pre`, in index order.
    fn collect_prefixed(&self, pre: &[char]) -> (r: Vec<(Vec<char>, u64)>)
        requires
            self.wf(),
        ensures
            entries_view(r@) == prefixed(self.model().paths, pre@),
    {
        let ghost ps = self.model().paths;
        let mut out: Vec<(Vec<char>, u64)> = Vec::new();
        let mut i: usize = 0;
        while i < self.paths.len()
            invariant
                ps == self.model().paths,
                i <= ps.len(),
                entries_view(out@) == prefixed(ps.take(i as int), pre@),
            decreases ps.len() - i,
        {
            let (p, ino) = self.paths.entry(i);
            proof {
                assert(ps.take(i + 1).drop_last() =~= ps.take(i as int));
                assert(ps.take(i + 1).last() == ps[i as int]);
            }
            if starts_with(p, pre) {
                let mut key: Vec<char> = Vec::new();
                extend_chars(&mut key, p);
                proof {
                    assert(key@ =~= p@);
                    lemma_ev_push(out@, (key, ino));
                }
                out.push((key, ino));
            }
            i = i + 1;
        }
        proof {
            assert(ps.take(ps.len() as int) =~= ps);
        }
        out
    }

    /// Moves a directory and every indexed path under it to a new path; gives the number of
    /// paths moved.
    pub fn rename_directory(&mut self, old_path: &VirtualPath, new_path: &VirtualPath) -> (r: Result<u64, RenameError>)
        requires
            old(self).wf(),
        ensures
            final(self).wf(),
            (final(self).model(), r) == rename_directory_spec(old(self).model(), old_path@, new_path@),
            final(self).policy() == old(self).policy(),
    {
        let op = to_chars(old_path.as_str());
        let old_inode = match self.find_path(op.as_slice()) {
            Some(i) => i,
            None => return Err(RenameError::SourceNotFound),
        };
        if !self.is_dir_at(old_inode) {
            return Err(RenameError::NotDirectory);
        }
        let np = to_chars(new_path.as_str());
        if self.has_path(np.as_slice()) {
            return Err(RenameError::TargetExists);
        }
        let new_parent = match self.target_parent(new_path.as_str()) {
            Ok(i) => i,
            Err(e) => return Err(e),
        };
        let todo = self.collect_prefixed(op.as_slice());
        let ghost tv = entries_view(todo@);
        let ghost m0 = self.model();
        proof {
            lemma_prefixed_starts(m0.paths, op@);
        }
        let count = todo.len() as u64;
        proof {
            assert(tv.skip(0) =~= tv);
        }
        let mut k: usize = 0;
        while k < todo.len()
            invariant
                self.wf(),
                tv == entries_view(todo@),
                tv == prefixed(m0.paths, op@),
                forall|i: int| 0 <= i < tv.len() ==> seq_starts_with(#[trigger] tv[i].0, op@),
                k <= tv.len(),
                self.model().nodes == m0.nodes,
                self.model().next == m0.next,
                self.policy() == old(self).policy(),
                rebase_all(m0.paths, tv, op@.len(), np@) == rebase_all(self.model().paths, tv.skip(k as int), op@.len(), np@),
            decreases tv.len() - k,
        {
            proof {
                assert(seq_starts_with(tv[k as int].0, op@));
                assert(tv.skip(k as int)[0] == tv[k as int]);
                assert(tv.skip(k as int).drop_first() =~= tv.skip(k + 1));
            }
            let old_p = todo[k].0.as_slice();
            let ino = todo[k].1;
            self.unbind_path(old_p);
            let mut new_p = np.clone();
            extend_chars_from(&mut new_p, old_p, op.len());
            self.bind_path(new_p, ino);
            k = k + 1;
        }
        proof {
            assert(tv.skip(tv.len() as int) =~= Seq::<(Seq<char>, u64)>::empty());
        }
        let opp = parent_or_root_exec(old_path.as_str());
        let old_name = name_or_empty_exec(old_path.as_str());
        self.unlink_from(opp.as_slice(), old_name.as_slice());
        let new_name = name_or_empty_exec(new_path.as_str());
        self.move_dir(old_inode, new_name.as_slice(), new_parent);
        self.add_child(new_parent, new_name, old_inode);
        Ok(count)
    }

    /// Whether a path lies in the trash: its text starts with `/.trash`.
    pub fn is_trash_path(path: &VirtualPath) -> (r: bool)
        ensures
            r == seq_starts_with(path@, trash_seq()),
    {
        let p = to_chars(path.as_str());
        let mut t: Vec<char> = Vec::new();
        t.push('/');
        t.push('.');
        t.push('t');
        t.push('r');
        t.push('a');
        t.push('s');
        t.push('h');
        proof {
            assert(t@ =~= trash_seq());
        }
        starts_with(p.as_slice(), t.as_slice())
    }

    /// The inode of `/.trash`, created under the root when missing.
    pub fn ensure_trash_dir(&mut self) -> (r: u64)
        requires
            old(self).wf(),
            old(self).room(1),
        ensures
            final(self).wf(),
            (final(self).model(), r) == ensure_trash_spec(old(self).model()),
            final(self).policy() == old(self).policy(),
    {
        let mut t: Vec<char> = Vec::new();
        t.push('/');
        t.push('.');
        t.push('t');
        t.push('r');
        t.push('a');
        t.push('s');
        t.push('h');
        proof {
            assert(t@ =~= trash_seq());
        }
        match self.find_path(t.as_slice()) {
            Some(i) => return i,
            None => {},
        }
        let mut name: Vec<char> = Vec::new();
        name.push('.');
        name.push('t');
        name.push('r');
        name.push('a');
        name.push('s');
        name.push('h');
        proof {
            assert(name@ =~= trash_name());
        }
        let ino = self.alloc_inode();
        let node = Self::new_dir(ino, ROOT_INODE, name.as_slice());
        self.put_node(ino, node);
        self.bind_path(t, ino);
        self.add_child(ROOT_INODE, name, ino);
        ino
    }

    /// Removes an empty directory.
    pub fn remove_directory(&mut self, path: &VirtualPath) -> (r: Result<(), RemoveError>)
        requires
            old(self).wf(),
        ensures
            final(self).wf(),
            (final(self).model(), r) == remove_directory_spec(old(self).model(), path@),
            final(self).policy() == old(self).policy(),
    {
        let p = to_chars(path.as_str());
        let ino = match self.find_path(p.as_slice()) {
            Some(i) => i,
            None => return Err(RemoveError::NotFound),
        };
        match self.nodes.get(&ino) {
            None => return Err(RemoveError::NotFound),
            Some(VirtualNode::File(_)) => return Err(RemoveError::NotDirectory),
            Some(VirtualNode::Directory(d)) => {
                proof {
                    assert(self.nodes@.contains_key(ino));
                }
                if !d.children.is_empty() {
                    return Err(RemoveError::NotEmpty);
                }
            },
        }
        let pp = parent_or_root_exec(path.as_str());
        let name = name_or_empty_exec(path.as_str());
        self.unlink_from(pp.as_slice(), name.as_slice());
        self.unbind_path(p.as_slice());
        self.drop_node(ino);
        Ok(())
    }

    /// Removes a directory and every indexed path under it; gives the ids of the files removed.
    pub fn remove_directory_recursive(&mut self, path: &VirtualPath) -> (r: Result<Vec<FileId>, RemoveError>)
        requires
            old(self).wf(),
        ensures
            final(self).wf(),
            final(self).model() == remove_directory_recursive_spec(old(self).model(), path@).0,
            match (r, remove_directory_recursive_spec(old(self).model(), path@).1) {
                (Ok(v), Ok(ids)) => v@ == ids,
                (Err(e), Err(f)) => e == f,
                _ => false,
            },
            final(self).policy() == old(self).policy(),
    {
        let p = to_chars(path.as_str());
        let ino = match self.find_path(p.as_slice()) {
            Some(i) => i,
            None => return Err(RemoveError::NotFound),
        };
        if !self.is_dir_at(ino) {
            return Err(RemoveError::NotDirectory);
        }
        let todo = self.collect_prefixed(p.as_slice());
        let ghost tv = entries_view(todo@);
        let ghost m0 = self.model();
        let mut removed: Vec<FileId> = Vec::new();
        proof {
            assert(tv.skip(0) =~= tv);
            assert(removed@ =~= Seq::<FileId>::empty());
        }
        let mut k: usize = 0;
        while k < todo.len()
            invariant
                self.wf(),
                tv == entries_view(todo@),
                k <= tv.len(),
                self.policy() == old(self).policy(),
                remove_all(m0, tv, Seq::empty()) == remove_all(self.model(), tv.skip(k as int), removed@),
            decreases tv.len() - k,
        {
            proof {
                assert(tv.skip(k as int)[0] == tv[k as int]);
                assert(tv.skip(k as int).drop_first() =~= tv.skip(k + 1));
            }
            let q = todo[k].0.as_slice();
            let i = todo[k].1;
            match self.nodes.get(&i) {
                Some(VirtualNode::File(f)) => {
                    removed.push(f.file_id);
                },
                _ => {},
            }
            self.unbind_path(q);
            self.drop_node(i);
            k = k + 1;
        }
        proof {
            assert(tv.skip(tv.len() as int) =~= Seq::<(Seq<char>, u64)>::empty());
        }
        let pp = parent_or_root_exec(path.as_str());
        let name = name_or_empty_exec(path.as_str());
        self.unlink_from(pp.as_slice(), name.as_slice());
        Ok(removed)
    }

    /// Whether the directory at a path has no children; `None` where the path names no
    /// directory.
    pub fn is_directory_empty(&self, path: &VirtualPath) -> (r: Option<bool>)
        requires
            self.wf(),
        ensures
            r == (if pmap(self.model()).contains_key(path@) && dir_at(self.model(), pmap(self.model())[path@]) {
                match self.model().nodes[pmap(self.model())[path@]] {
                    NodeView::Dir { children, .. } => Some(children == Map::<Seq<char>, u64>::empty()),
                    NodeView::File { .. } => None,
                }
            } else {
                None
            }),
    {
        let p = to_chars(path.as_str());
        let ino = match self.find_path(p.as_slice()) {
            Some(i) => i,
            None => return None,
        };
        match self.nodes.get(&ino) {
            Some(VirtualNode::Directory(d)) => {
                proof {
                    assert(self.nodes@.contains_key(ino));
                }
                Some(d.children.is_empty())
            },
            _ => None,
        }
    }
    /// The children of a directory, in name order, each with its inode and whether it is a
    /// directory; `None` where the inode is not a directory.
    pub fn readdir(&self, inode: u64) -> (r: Option<Vec<(String, u64, bool)>>)
        requires
            self.wf(),
        ensures
            match r {
                None => !dir_at(self.model(), inode),
                Some(v) => dir_at(self.model(), inode) && is_listing(
                    self.model(),
                    children_of(self.model().nodes[inode]),
                    v@.map_values(|e: (String, u64, bool)| (e.0@, e.1, e.2)),
                ),
            },
    {
        match self.nodes.get(&inode) {
            Some(VirtualNode::Directory(dir)) => {
                proof {
                    assert(self.nodes@.contains_key(inode));
                    dir.children.lemma_view();
                }
                let ghost ps = dir.children.pairs();
                let mut out: Vec<(String, u64, bool)> = Vec::new();
                let n = dir.children.len();
                let mut i: usize = 0;
                while i < n
                    invariant
                        n == ps.len(),
                        ps == dir.children.pairs(),
                        i <= n,
                        out@.len() == i,
                        forall|j: int| 0 <= j < i ==> row_matches(self.model(), #[trigger] out@[j], ps[j]),
                    decreases n - i,
                {
                    let (name, ino) = dir.children.entry(i);
                    let is_dir = self.is_dir_at(ino);
                    let text = from_chars(name);
                    let ghost prev = out@;
                    out.push((text, ino, is_dir));
                    proof {
                        assert forall|j: int| 0 <= j < i + 1 implies row_matches(self.model(), #[trigger] out@[j], ps[j]) by {
                            if j < i {
                                assert(out@[j] == prev[j]);
                            }
                        }
                    }
                    i = i + 1;
                }
                proof {
                    let l = out@.map_values(|e: (String, u64, bool)| (e.0@, e.1, e.2));
                    let ch = dir.children@;
                    assert forall|j: int| 0 <= j < l.len() implies #[trigger] ch.contains_key(l[j].0) && ch[l[j].0] == l[j].1 && l[j].2 == dir_at(self.model(), l[j].1) by {
                        assert(l[j] == (out@[j].0@, out@[j].1, out@[j].2));
                        assert(row_matches(self.model(), out@[j], ps[j]));
                        assert(crate::assoc::has_key(ps, ps[j].0));
                    }
                    assert forall|a: int, b: int| 0 <= a < b < l.len() implies crate::text::seq_lt(l[a].0, l[b].0) by {
                        assert(row_matches(self.model(), out@[a], ps[a]));
                        assert(row_matches(self.model(), out@[b], ps[b]));
                        assert(l[a].0 == ps[a].0);
                        assert(l[b].0 == ps[b].0);
                    }
                    assert forall|k: Seq<char>| #[trigger] ch.contains_key(k) implies exists|j: int| 0 <= j < l.len() && l[j].0 == k by {
                        let j = choose|j: int| 0 <= j < ps.len() && ps[j].0 == k;
                        assert(row_matches(self.model(), out@[j], ps[j]));
                        assert(l[j].0 == ps[j].0);
                    }
                }
                Some(out)
            },
            _ => None,
        }
    }

    /// The parent of a node: recorded for a directory, found through the index for a file.
    pub fn get_parent(&self, inode: u64) -> (r: Option<u64>)
        requires
            self.wf(),
        ensures
            r == get_parent_spec(self.model(), inode),
    {
        match self.nodes.get(&inode) {
            Some(VirtualNode::Directory(dir)) => Some(dir.parent),
            Some(VirtualNode::File(_)) => self.find_parent_by_path_lookup(inode),
            None => None,
        }
    }

    fn find_parent_by_path_lookup(&self, inode: u64) -> (r: Option<u64>)
        requires
            self.wf(),
        ensures
            r == parent_by_path_spec(self.model(), inode),
    {
        let ghost ps = self.model().paths;
        let mut i: usize = 0;
        proof {
            assert(ps.skip(0) =~= ps);
        }
        while i < self.paths.len()
            invariant
                self.wf(),
                ps == self.model().paths,
                i <= ps.len(),
                first_path_of(ps, inode) == first_path_of(ps.skip(i as int), inode),
            decreases ps.len() - i,
        {
            let (p, ino) = self.paths.entry(i);
            proof {
                assert(ps.skip(i as int)[0] == ps[i as int]);
                assert(ps.skip(i as int).drop_first() =~= ps.skip(i + 1));
            }
            if ino == inode {
                let text = from_chars(p);
                return match path_parent(text.as_str()) {
                    Some(q) => {
                        let qc = to_chars(q.as_str());
                        self.find_path(qc.as_slice())
                    },
                    None => None,
                };
            }
            i = i + 1;
        }
        proof {
            assert(ps.skip(ps.len() as int) =~= Seq::<(Seq<char>, u64)>::empty());
        }
        None
    }

    /// Empties the tree down to the root and records the refresh time.
    pub fn force_refresh(&mut self)
        requires
            old(self).wf(),
        ensures
            final(self).wf(),
            final(self).model() == force_refresh_spec(old(self).model()),
            final(self).policy() == old(self).policy(),
    {
        let ghost before = self.model();
        let mut nodes: HashMap<u64, VirtualNode> = HashMap::new();
        match self.nodes.remove(&ROOT_INODE) {
            Some(VirtualNode::Directory(mut d)) => {
                d.children = ChildMap::new();
                nodes.insert(ROOT_INODE, VirtualNode::Directory(d));
            },
            Some(other) => {
                nodes.insert(ROOT_INODE, other);
            },
            None => {},
        }
        let mut slash: Vec<char> = Vec::new();
        slash.push('/');
        proof {
            assert(slash@ =~= crate::pathutil::slash_seq());
        }
        let mut paths = PathIndex::new();
        match self.paths.get(slash.as_slice()) {
            Some(r) => {
                paths.insert(slash, r);
            },
            None => {},
        }
        self.nodes = nodes;
        self.paths = paths;
        self.last_refresh = now();
        proof {
            let exp = force_refresh_spec(before);
            assert(self.model().nodes =~= exp.nodes);
            assert(self.model().paths =~= exp.paths);
        }
    }

    /// Records the current time as the last refresh.
    pub fn mark_refreshed(&mut self)
        ensures
            final(self).model() == old(self).model(),
            final(self).policy() == old(self).policy(),
            final(self).wf() == old(self).wf(),
    {
        self.last_refresh = now();
        proof {
            assert(self.nodes@ == old(self).nodes@ && self.next_inode == old(self).next_inode && self.paths == old(self).paths);
        }
    }

    /// Whether the time since the last refresh exceeds the policy's time to live; the answer
    /// depends on the clock, except that no time exceeds a time to live of the longest span.
    pub fn needs_refresh(&self) -> (r: bool)
        ensures
            nanos_of(self.policy().ttl) >= DURATION_MAX_NANOS ==> !r,
    {
        let elapsed = match elapsed_since(self.last_refresh) {
            Some(d) => Some(duration_nanos(d)),
            None => None,
        };
        refresh_due(elapsed, duration_nanos(self.refresh_policy.ttl))
    }

    pub fn refresh_policy(&self) -> (r: &RefreshPolicy)
        ensures
            *r == self.policy(),
    {
        &self.refresh_policy
    }

    /// Every pair of the path index, in index order.
    pub fn path_to_inode_iter(&self) -> (r: Vec<(VirtualPath, u64)>)
        requires
            self.wf(),
        ensures
            r@.map_values(|e: (VirtualPath, u64)| (e.0@, e.1)) == self.model().paths,
    {
        let ghost ps = self.model().paths;
        let mut out: Vec<(VirtualPath, u64)> = Vec::new();
        let mut i: usize = 0;
        while i < self.paths.len()
            invariant
                ps == self.model().paths,
                i <= ps.len(),
                out@.len() == i,
                forall|j: int| 0 <= j < i ==> #[trigger] out@[j].0@ == ps[j].0 && out@[j].1 == ps[j].1,
            decreases ps.len() - i,
        {
            let (p, ino) = self.paths.entry(i);
            let text = from_chars(p);
            let vp = VirtualPath::new(text.as_str());
            let ghost prev = out@;
            out.push((vp, ino));
            proof {
                assert forall|j: int| 0 <= j < i + 1 implies #[trigger] out@[j].0@ == ps[j].0 && out@[j].1 == ps[j].1 by {
                    if j < i {
                        assert(out@[j] == prev[j]);
                    }
                }
            }
            i = i + 1;
        }
        proof {
            assert(out@.map_values(|e: (VirtualPath, u64)| (e.0@, e.1)) =~= ps);
        }
        out
    }
}

spec fn row_matches(m: TreeModel, e: (String, u64, bool), p: (Seq<char>, u64)) -> bool {
    e.0@ == p.0 && e.1 == p.1 && e.2 == dir_at(m, p.1)
}

/// `SystemTime::elapsed`, as `None` where the clock went backwards; depends on the clock.
#[verifier::external_body]
fn elapsed_since(t: SystemTime) -> Option<Duration> {
    t.elapsed().ok()
}

/// What `Duration::as_nanos` gives: the whole span in nanoseconds.
pub uninterp spec fn nanos_of(d: Duration) -> u128;

/// `Duration::as_nanos`: the span's total nanoseconds, a function of the span alone, and no
/// more than those of the longest span (`u64::MAX` seconds and 999,999,999 nanoseconds).
#[verifier::external_body]
fn duration_nanos(d: Duration) -> (r: u128)
    ensures
        r == nanos_of(d),
        r <= DURATION_MAX_NANOS,
{
    d.as_nanos()
}

/// `Duration::MAX` in nanoseconds.
pub const DURATION_MAX_NANOS: u128 = 18_446_744_073_709_551_615_999_999_999u128;

/// Whether a refresh is due: the elapsed time, or the longest duration where it could not be
/// read, exceeds the time to live.
pub fn refresh_due(elapsed_nanos: Option<u128>, ttl_nanos: u128) -> (r: bool)
    ensures
        r == match elapsed_nanos {
            Some(e) => e > ttl_nanos,
            None => DURATION_MAX_NANOS > ttl_nanos,
        },
{
    match elapsed_nanos {
        Some(e) => e > ttl_nanos,
        None => DURATION_MAX_NANOS > ttl_nanos,
    }
}

impl Default for VirtualTree {
    fn default() -> (r: Self)
        ensures
            r.wf(),
            r.model() == initial_model(),
    {
        Self::new()
    }
}

/// Builds a tree by adding files one at a time.
pub struct TreeBuilder {
    tree: VirtualTree,
}

impl TreeBuilder {
    pub closed spec fn model(&self) -> TreeModel {
        self.tree.model()
    }

    /// The refresh policy the tree will have.
    pub closed spec fn policy(&self) -> RefreshPolicy {
        self.tree.policy()
    }

    pub closed spec fn wf(&self) -> bool {
        self.tree.wf()
    }

    /// The inode that the next new node gets.
    pub fn next_inode(&self) -> (r: u64)
        ensures
            r == self.model().next,
    {
        self.tree.next_inode()
    }

    pub fn new() -> (r: Self)
        ensures
            r.wf(),
            r.model() == initial_model(),
    {
        TreeBuilder { tree: VirtualTree::new() }
    }

    pub fn with_policy(policy: RefreshPolicy) -> (r: Self)
        ensures
            r.wf(),
            r.model() == initial_model(),
            r.policy() == policy,
    {
        TreeBuilder { tree: VirtualTree::with_policy(policy) }
    }

    pub fn add_file(&mut self, meta: &FileMeta)
        requires
            old(self).wf(),
            old(self).model().next + path_components(meta.virtual_path@).len() + 1 < u64::MAX,
        ensures
            final(self).wf(),
            final(self).model() == insert_file_spec(
                old(self).model(),
                meta.virtual_path@,
                meta.id,
                meta.size,
                meta.mtime,
            ).0,
    {
        self.tree.insert_file(meta);
    }

    pub fn build(self) -> (r: VirtualTree)
        ensures
            r.wf() == self.wf(),
            r.model() == self.model(),
            r.policy() == self.policy(),
    {
        self.tree
    }
}

impl Default for TreeBuilder {
    fn default() -> (r: Self)
        ensures
            r.wf(),
            r.model() == initial_model(),
    {
        Self::new()
    }
}

impl VirtualTree {
    fn count_kind(&self, dir: bool) -> (r: usize)
        ensures
            r == kind_count(self.model().nodes, dir),
    {
        let ghost nodes = self.model().nodes;
        let ghost ks = vstd::std_specs::hash::spec_keys_iter(&self.nodes).remaining().unref();
        proof {
            let rem = vstd::std_specs::hash::spec_keys_iter(&self.nodes).remaining();
            assert(rem.no_duplicates());
            assert(ks.no_duplicates()) by {
                assert forall|i: int, j: int| 0 <= i < ks.len() && 0 <= j < ks.len() && i != j implies ks[i] != ks[j] by {
                    assert(rem[i] != rem[j]);
                }
            }
            assert(ks.to_set() =~= nodes.dom());
            lemma_count_listed(nodes, ks, dir);
        }
        let total = self.nodes.len();
        proof {
            assert(ks.len() == nodes.dom().len());
        }
        let mut count: usize = 0;
        for k in it: self.nodes.keys()
            invariant
                nodes == self.model().nodes,
                ks.len() == total,
                it.index() <= ks.len(),
                it.seq().unref() == ks,
                count == count_listed(nodes, ks.take(it.index()), dir),
                count <= it.index(),
                it.index() == ks.len() ==> count == count_listed(nodes, ks, dir),
        {
            proof {
                assert(ks.take(it.index() + 1).drop_last() =~= ks.take(it.index()));
                assert(ks.take(ks.len() as int) =~= ks);
            }
            let is_match = match self.nodes.get(k) {
                Some(VirtualNode::Directory(_)) => dir,
                Some(VirtualNode::File(_)) => !dir,
                None => false,
            };
            if is_match {
                count = count + 1;
            }
        }
        proof {
            assert(ks.take(ks.len() as int) =~= ks);
        }
        count
    }

    /// The number of file nodes.
    pub fn file_count(&self) -> (r: usize)
        ensures
            r == kind_count(self.model().nodes, false),
    {
        self.count_kind(false)
    }

    /// The number of directory nodes, the root included.
    pub fn dir_count(&self) -> (r: usize)
        ensures
            r == kind_count(self.model().nodes, true),
    {
        self.count_kind(true)
    }
}

} // verus!

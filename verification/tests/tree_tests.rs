use musicfs::tree::{refresh_due, TreeBuilder, VirtualTree};
use musicfs::tree_model::{RemoveError, RenameError, ROOT_INODE};
use musicfs::types::{FileId, FileMeta, OriginId, RealPath, VirtualPath};
use std::path::PathBuf;
use std::time::SystemTime;

fn make_file_meta(id: i64, vpath: &str) -> FileMeta {
    FileMeta {
        id: FileId(id),
        virtual_path: VirtualPath::new(vpath),
        real_path: RealPath {
            origin_id: OriginId::from("test"),
            path: PathBuf::from("/test"),
        },
        size: 1000,
        mtime: SystemTime::now(),
        content_hash: None,
        audio: None,
    }
}

#[test]
fn test_tree_creation() {
    let tree = VirtualTree::new();
    assert!(tree.get(ROOT_INODE).is_some());
}

#[test]
fn test_insert_file() {
    let mut tree = VirtualTree::new();
    let meta = make_file_meta(1, "/Artist/Album/Track.flac");
    tree.insert_file(&meta);

    assert!(tree.get_by_path(&VirtualPath::new("/Artist")).is_some());
    assert!(tree.get_by_path(&VirtualPath::new("/Artist/Album")).is_some());
    assert!(tree
        .get_by_path(&VirtualPath::new("/Artist/Album/Track.flac"))
        .is_some());
}

#[test]
fn test_readdir() {
    let mut tree = VirtualTree::new();
    tree.insert_file(&make_file_meta(1, "/Artist/Album/Track1.flac"));
    tree.insert_file(&make_file_meta(2, "/Artist/Album/Track2.flac"));

    let root_children = tree.readdir(ROOT_INODE).unwrap();
    assert_eq!(root_children.len(), 1);
    assert_eq!(root_children[0].0, "Artist");
}

#[test]
fn test_lookup() {
    let mut tree = VirtualTree::new();
    tree.insert_file(&make_file_meta(1, "/Artist/Album/Track.flac"));

    let artist_inode = tree.lookup(ROOT_INODE, "Artist").unwrap();
    assert!(tree.lookup(artist_inode, "Album").is_some());
}

#[test]
fn test_file_and_dir_count() {
    let mut tree = VirtualTree::new();
    tree.insert_file(&make_file_meta(1, "/A/B/Track1.flac"));
    tree.insert_file(&make_file_meta(2, "/A/B/Track2.flac"));
    tree.insert_file(&make_file_meta(3, "/A/C/Track3.flac"));

    assert_eq!(tree.file_count(), 3);
    assert_eq!(tree.dir_count(), 4);
}

#[test]
fn tree_test_remove_file() {
    let mut tree = VirtualTree::new();
    let path = VirtualPath::new("/Artist/Album/Track.flac");
    tree.insert_file(&make_file_meta(1, path.as_str()));

    assert!(tree.get_by_path(&path).is_some());

    let removed_id = tree.remove_file(&path);
    assert_eq!(removed_id, Some(FileId(1)));
    assert!(tree.get_by_path(&path).is_none());
}

#[test]
fn test_tree_builder() {
    let mut builder = TreeBuilder::new();
    builder.add_file(&make_file_meta(1, "/A/Track1.flac"));
    builder.add_file(&make_file_meta(2, "/A/Track2.flac"));

    let tree = builder.build();
    assert_eq!(tree.file_count(), 2);
}

#[test]
fn test_rename_file() {
    let mut tree = VirtualTree::new();
    let old_path = VirtualPath::new("/Artist/Album/Track.flac");
    let new_path = VirtualPath::new("/Artist/Album/Renamed.flac");

    tree.insert_file(&make_file_meta(1, old_path.as_str()));

    assert!(tree.get_by_path(&old_path).is_some());

    tree.rename_file(&old_path, &new_path).unwrap();

    assert!(tree.get_by_path(&old_path).is_none());
    assert!(tree.get_by_path(&new_path).is_some());
}

#[test]
fn test_rename_file_to_new_dir() {
    let mut tree = VirtualTree::new();
    tree.insert_file(&make_file_meta(1, "/Artist/Album/Track.flac"));

    tree.mkdir(&VirtualPath::new("/New Artist")).unwrap();
    tree.mkdir(&VirtualPath::new("/New Artist/New Album")).unwrap();

    let result = tree.rename_file(
        &VirtualPath::new("/Artist/Album/Track.flac"),
        &VirtualPath::new("/New Artist/New Album/Track.flac"),
    );

    assert!(result.is_ok());
    assert!(tree
        .get_by_path(&VirtualPath::new("/New Artist/New Album/Track.flac"))
        .is_some());
}

#[test]
fn test_rename_file_parent_not_found() {
    let mut tree = VirtualTree::new();
    tree.insert_file(&make_file_meta(1, "/Artist/Album/Track.flac"));

    let result = tree.rename_file(
        &VirtualPath::new("/Artist/Album/Track.flac"),
        &VirtualPath::new("/NonExistent/Album/Track.flac"),
    );

    assert_eq!(result, Err(RenameError::ParentNotFound));
}

#[test]
fn test_rename_file_target_exists() {
    let mut tree = VirtualTree::new();
    tree.insert_file(&make_file_meta(1, "/A/Track1.flac"));
    tree.insert_file(&make_file_meta(2, "/A/Track2.flac"));

    let result = tree.rename_file(
        &VirtualPath::new("/A/Track1.flac"),
        &VirtualPath::new("/A/Track2.flac"),
    );

    assert_eq!(result, Err(RenameError::TargetExists));
}

#[test]
fn test_rename_file_source_not_found() {
    let mut tree = VirtualTree::new();

    let result = tree.rename_file(
        &VirtualPath::new("/Nonexistent.flac"),
        &VirtualPath::new("/New.flac"),
    );

    assert_eq!(result, Err(RenameError::SourceNotFound));
}

#[test]
fn tree_test_rename_directory() {
    let mut tree = VirtualTree::new();
    tree.insert_file(&make_file_meta(1, "/Artist/Album/Track1.flac"));
    tree.insert_file(&make_file_meta(2, "/Artist/Album/Track2.flac"));
    tree.insert_file(&make_file_meta(3, "/Artist/Other/Track3.flac"));

    let count = tree
        .rename_directory(
            &VirtualPath::new("/Artist"),
            &VirtualPath::new("/Renamed Artist"),
        )
        .unwrap();

    assert_eq!(count, 6);

    assert!(tree.get_by_path(&VirtualPath::new("/Artist")).is_none());
    assert!(tree.get_by_path(&VirtualPath::new("/Renamed Artist")).is_some());
    assert!(tree
        .get_by_path(&VirtualPath::new("/Renamed Artist/Album/Track1.flac"))
        .is_some());
    assert!(tree
        .get_by_path(&VirtualPath::new("/Renamed Artist/Album/Track2.flac"))
        .is_some());
    assert!(tree
        .get_by_path(&VirtualPath::new("/Renamed Artist/Other/Track3.flac"))
        .is_some());
}

#[test]
fn test_rename_directory_parent_not_found() {
    let mut tree = VirtualTree::new();
    tree.insert_file(&make_file_meta(1, "/Artist/Album/Track.flac"));

    let result = tree.rename_directory(
        &VirtualPath::new("/Artist"),
        &VirtualPath::new("/NonExistent/Renamed"),
    );

    assert_eq!(result, Err(RenameError::ParentNotFound));
}

#[test]
fn test_rename_directory_not_directory() {
    let mut tree = VirtualTree::new();
    tree.insert_file(&make_file_meta(1, "/Artist/Track.flac"));

    let result = tree.rename_directory(
        &VirtualPath::new("/Artist/Track.flac"),
        &VirtualPath::new("/New"),
    );

    assert_eq!(result, Err(RenameError::NotDirectory));
}

#[test]
fn test_mkdir() {
    let mut tree = VirtualTree::new();

    let inode = tree.mkdir(&VirtualPath::new("/NewDir")).unwrap();
    assert!(inode > ROOT_INODE);
    assert!(tree.get_by_path(&VirtualPath::new("/NewDir")).is_some());
    assert!(tree
        .get_by_path(&VirtualPath::new("/NewDir"))
        .unwrap()
        .is_dir());
}

#[test]
fn test_mkdir_nested() {
    let mut tree = VirtualTree::new();

    tree.mkdir(&VirtualPath::new("/A")).unwrap();
    tree.mkdir(&VirtualPath::new("/A/B")).unwrap();
    tree.mkdir(&VirtualPath::new("/A/B/C")).unwrap();

    assert!(tree.get_by_path(&VirtualPath::new("/A/B/C")).is_some());
}

#[test]
fn test_mkdir_parent_not_found() {
    let mut tree = VirtualTree::new();

    let result = tree.mkdir(&VirtualPath::new("/A/B/C"));
    assert_eq!(result, Err(RenameError::ParentNotFound));
}

#[test]
fn test_mkdir_already_exists() {
    let mut tree = VirtualTree::new();

    tree.mkdir(&VirtualPath::new("/Existing")).unwrap();
    let result = tree.mkdir(&VirtualPath::new("/Existing"));

    assert_eq!(result, Err(RenameError::TargetExists));
}

#[test]
fn test_is_trash_path() {
    assert!(VirtualTree::is_trash_path(&VirtualPath::new("/.trash")));
    assert!(VirtualTree::is_trash_path(&VirtualPath::new(
        "/.trash/Artist/Track.flac"
    )));
    assert!(!VirtualTree::is_trash_path(&VirtualPath::new(
        "/Artist/Track.flac"
    )));
    assert!(!VirtualTree::is_trash_path(&VirtualPath::new(
        "/trash/Artist/Track.flac"
    )));
}

#[test]
fn test_ensure_trash_dir() {
    let mut tree = VirtualTree::new();

    assert!(tree.get_by_path(&VirtualPath::new("/.trash")).is_none());

    let inode = tree.ensure_trash_dir();
    assert!(inode > ROOT_INODE);

    let node = tree.get_by_path(&VirtualPath::new("/.trash"));
    assert!(node.is_some());
    assert!(node.unwrap().is_dir());

    let inode2 = tree.ensure_trash_dir();
    assert_eq!(inode, inode2);
}

#[test]
fn test_mkdir_p() {
    let mut tree = VirtualTree::new();

    tree.mkdir_p(&VirtualPath::new("/A/B/C/D")).unwrap();

    assert!(tree.get_by_path(&VirtualPath::new("/A")).is_some());
    assert!(tree.get_by_path(&VirtualPath::new("/A/B")).is_some());
    assert!(tree.get_by_path(&VirtualPath::new("/A/B/C")).is_some());
    assert!(tree.get_by_path(&VirtualPath::new("/A/B/C/D")).is_some());
}

#[test]
fn test_mkdir_p_partial_exists() {
    let mut tree = VirtualTree::new();

    tree.mkdir(&VirtualPath::new("/A")).unwrap();
    tree.mkdir(&VirtualPath::new("/A/B")).unwrap();

    tree.mkdir_p(&VirtualPath::new("/A/B/C/D")).unwrap();

    assert!(tree.get_by_path(&VirtualPath::new("/A/B/C")).is_some());
    assert!(tree.get_by_path(&VirtualPath::new("/A/B/C/D")).is_some());
}

#[test]
fn test_remove_directory_empty() {
    let mut tree = VirtualTree::new();

    tree.mkdir(&VirtualPath::new("/EmptyDir")).unwrap();
    assert!(tree.get_by_path(&VirtualPath::new("/EmptyDir")).is_some());

    tree.remove_directory(&VirtualPath::new("/EmptyDir")).unwrap();
    assert!(tree.get_by_path(&VirtualPath::new("/EmptyDir")).is_none());
}

#[test]
fn test_remove_directory_not_empty() {
    let mut tree = VirtualTree::new();
    tree.insert_file(&make_file_meta(1, "/Artist/Track.flac"));

    let result = tree.remove_directory(&VirtualPath::new("/Artist"));
    assert_eq!(result, Err(RemoveError::NotEmpty));
}

#[test]
fn test_remove_directory_not_found() {
    let mut tree = VirtualTree::new();

    let result = tree.remove_directory(&VirtualPath::new("/NonExistent"));
    assert_eq!(result, Err(RemoveError::NotFound));
}

#[test]
fn test_remove_directory_is_file() {
    let mut tree = VirtualTree::new();
    tree.insert_file(&make_file_meta(1, "/Track.flac"));

    let result = tree.remove_directory(&VirtualPath::new("/Track.flac"));
    assert_eq!(result, Err(RemoveError::NotDirectory));
}

#[test]
fn test_remove_directory_recursive() {
    let mut tree = VirtualTree::new();
    tree.insert_file(&make_file_meta(1, "/Artist/Album/Track1.flac"));
    tree.insert_file(&make_file_meta(2, "/Artist/Album/Track2.flac"));
    tree.insert_file(&make_file_meta(3, "/Artist/Other/Track3.flac"));

    let removed = tree
        .remove_directory_recursive(&VirtualPath::new("/Artist"))
        .unwrap();

    assert_eq!(removed.len(), 3);
    assert!(tree.get_by_path(&VirtualPath::new("/Artist")).is_none());
}

#[test]
fn test_is_directory_empty() {
    let mut tree = VirtualTree::new();

    tree.mkdir(&VirtualPath::new("/Empty")).unwrap();
    assert_eq!(
        tree.is_directory_empty(&VirtualPath::new("/Empty")),
        Some(true)
    );

    tree.insert_file(&make_file_meta(1, "/NonEmpty/Track.flac"));
    assert_eq!(
        tree.is_directory_empty(&VirtualPath::new("/NonEmpty")),
        Some(false)
    );

    assert_eq!(
        tree.is_directory_empty(&VirtualPath::new("/NonExistent")),
        None
    );
}

// Own tests: laws on concrete values.

#[test]
fn tree_refused_mkdir_changes_nothing() {
    let mut tree = VirtualTree::new();
    tree.insert_file(&make_file_meta(1, "/A/Track.flac"));
    let files = tree.file_count();
    let dirs = tree.dir_count();
    assert!(tree.mkdir(&VirtualPath::new("/Missing/Dir")).is_err());
    assert_eq!(tree.file_count(), files);
    assert_eq!(tree.dir_count(), dirs);
}

#[test]
fn tree_get_parent_and_lookup_agree() {
    let mut tree = VirtualTree::new();
    let inode = tree.insert_file(&make_file_meta(7, "/X/Y/Z.flac"));
    let y = tree.get_by_path(&VirtualPath::new("/X/Y")).unwrap().inode();
    assert_eq!(tree.get_parent(inode), Some(y));
    assert_eq!(tree.lookup(y, "Z.flac"), Some(inode));
}

#[test]
fn tree_reinsert_same_path_points_to_new_node() {
    let mut tree = VirtualTree::new();
    tree.insert_file(&make_file_meta(1, "/A/T.flac"));
    let second = tree.insert_file(&make_file_meta(2, "/A/T.flac"));
    // the earlier node stays in the table; the path and the directory name the new one
    assert_eq!(tree.file_count(), 2);
    assert_eq!(tree.get_by_path(&VirtualPath::new("/A/T.flac")).unwrap().inode(), second);
    let a = tree.get_by_path(&VirtualPath::new("/A")).unwrap().inode();
    assert_eq!(tree.lookup(a, "T.flac"), Some(second));
}

#[test]
fn tree_rename_back_restores_path() {
    let mut tree = VirtualTree::new();
    let a = VirtualPath::new("/A/T.flac");
    let b = VirtualPath::new("/A/U.flac");
    tree.insert_file(&make_file_meta(1, a.as_str()));
    tree.rename_file(&a, &b).unwrap();
    tree.rename_file(&b, &a).unwrap();
    assert!(tree.get_by_path(&a).is_some());
    assert!(tree.get_by_path(&b).is_none());
}

#[test]
fn tree_refresh_due_decisions() {
    assert!(refresh_due(None, 10));
    assert!(refresh_due(Some(11), 10));
    assert!(!refresh_due(Some(10), 10));
    assert!(!refresh_due(Some(0), 10));
}

#[test]
fn tree_mkdir_gives_fresh_inodes() {
    let mut tree = VirtualTree::new();
    let before = tree.next_inode();
    let a = tree.mkdir(&VirtualPath::new("/A")).unwrap();
    assert!(a > ROOT_INODE);
    assert_eq!(a, before);
    let b = tree.mkdir(&VirtualPath::new("/B")).unwrap();
    assert_ne!(a, b);
    assert_eq!(tree.next_inode(), b + 1);
}

use musicfs::search::{
    EntryKind, SearchHit, SearchOps, SearchReplyError, SEARCH_DIR_INODE, SEARCH_RESULT_BASE,
};
use musicfs::types::{FileId, VirtualPath};

fn hit(path: &str, artist: Option<&str>, title: Option<&str>) -> SearchHit {
    SearchHit {
        file_id: FileId(1),
        virtual_path: VirtualPath::new(path),
        artist: artist.map(|s| s.to_string()),
        album: None,
        title: title.map(|s| s.to_string()),
    }
}

#[test]
fn test_is_search_inode() {
    assert!(SearchOps::is_search_inode(SEARCH_DIR_INODE));
    assert!(SearchOps::is_search_inode(SEARCH_RESULT_BASE));
    assert!(SearchOps::is_search_inode(SEARCH_RESULT_BASE + 100));
    assert!(!SearchOps::is_search_inode(1));
    assert!(!SearchOps::is_search_inode(1000));
}

#[test]
fn search_dir_name_and_inode() {
    assert!(SearchOps::is_search_dir_name(".search"));
    assert!(!SearchOps::is_search_dir_name("search"));
    assert!(!SearchOps::is_search_dir_name(".search/"));
    assert_eq!(SearchOps::search_dir_inode(), 0xFFFF_FFFF_0000_0001);
    assert!(!SearchOps::is_search_inode(SEARCH_DIR_INODE + 1));
}

#[test]
fn result_filename_pads_and_fills_unknown() {
    let h = hit("/Metallica/Black Album/01.flac", Some("Metallica"), Some("Enter Sandman"));
    assert_eq!(musicfs::search::result_filename(&h, 0), "001. Metallica - Enter Sandman.flac");
    let h2 = hit("/x/y.mp3", None, Some("Song"));
    assert_eq!(musicfs::search::result_filename(&h2, 41), "042. Unknown - Song.mp3");
    let h3 = hit("/x/noext", Some("A"), None);
    assert_eq!(musicfs::search::result_filename(&h3, 999), "1000. A - Unknown./x/noext");
}

#[test]
fn symlink_target_normalizes_path() {
    let ops = SearchOps::new("/mnt/music", 1000, 1000);
    assert_eq!(
        ops.safe_symlink_target("/Artist/../Album/./x.flac"),
        Some("/mnt/music/Artist/Album/x.flac".to_string())
    );
    assert_eq!(ops.safe_symlink_target("a//b/"), Some("/mnt/musica/b".to_string()));
    assert_eq!(ops.safe_symlink_target("/"), Some("/mnt/music/".to_string()));
    assert_eq!(ops.safe_symlink_target("/a..b/x.flac"), None);
}

#[test]
fn readdir_root_skips_offset() {
    let ops = SearchOps::new("/mnt", 1, 2);
    let all = ops.readdir_search_root(0);
    assert_eq!(all.len(), 2);
    assert_eq!(all[0].inode, SEARCH_DIR_INODE);
    assert_eq!(all[0].offset, 1);
    assert_eq!(all[0].name, ".");
    assert_eq!(all[1].inode, 1);
    assert_eq!(all[1].name, "..");
    let rest = ops.readdir_search_root(1);
    assert_eq!(rest.len(), 1);
    assert_eq!(rest[0].offset, 2);
    assert!(ops.readdir_search_root(2).is_empty());
    assert!(ops.readdir_search_root(-1).is_empty());
}

#[test]
fn readdir_query_lists_results() {
    let ops = SearchOps::new("/mnt", 1, 2);
    let hits = vec![hit("/a.flac", Some("A"), Some("One")), hit("/b.mp3", Some("B"), Some("Two"))];
    let all = ops.readdir_query(&hits, 0);
    assert_eq!(all.len(), 4);
    assert_eq!(all[0].inode, SEARCH_DIR_INODE + 1);
    assert_eq!(all[1].inode, SEARCH_DIR_INODE);
    assert_eq!(all[2].inode, SEARCH_RESULT_BASE);
    assert_eq!(all[2].kind, EntryKind::Symlink);
    assert_eq!(all[2].offset, 3);
    assert_eq!(all[2].name, "001. A - One.flac");
    let tail = ops.readdir_query(&hits, 3);
    assert_eq!(tail.len(), 1);
    assert_eq!(tail[0].inode, SEARCH_RESULT_BASE + 1);
    assert_eq!(tail[0].offset, 4);
    assert_eq!(tail[0].name, "002. B - Two.mp3");
}

#[test]
fn readlink_and_lookups() {
    let ops = SearchOps::new("/mnt/music", 7, 8);
    let hits = vec![hit("/a/b.flac", None, None), hit("/x../y.flac", None, None)];
    assert_eq!(ops.readlink(&hits, 0), Ok("/mnt/music/a/b.flac".to_string()));
    assert_eq!(ops.readlink(&hits, 1), Err(SearchReplyError::Invalid));
    assert_eq!(ops.readlink(&hits, 2), Err(SearchReplyError::NotFound));
    assert!(ops.lookup_query_dir(&[], 5).is_err());
    let (ttl, attr) = ops.lookup_query_dir(&hits, 5).unwrap();
    assert_eq!(ttl, 1);
    assert_eq!(attr.ino, 5);
    assert_eq!(attr.perm, 0o555);
    assert_eq!(attr.uid, 7);
    let (ttl, attr) = ops.getattr_search_dir();
    assert_eq!(ttl, 60);
    assert_eq!(attr.ino, SEARCH_DIR_INODE);
    let (_, link) = ops.getattr_result(SEARCH_RESULT_BASE);
    assert_eq!(link.size, 256);
    assert_eq!(link.kind, EntryKind::Symlink);
    assert_eq!(ops.lookup_result(9, false), Err(SearchReplyError::NotFound));
}

#[test]
fn query_key_caps_at_256_characters() {
    assert_eq!(musicfs::search::query_key("dark side of the moon"), "dark side of the moon");
    let long = "a".repeat(300);
    assert_eq!(musicfs::search::query_key(&long), "a".repeat(256));
    let wide = "é".repeat(200);
    assert_eq!(musicfs::search::query_key(&wide), wide);
    let mixed = format!("{}éé", "a".repeat(255));
    let key = musicfs::search::query_key(&mixed);
    assert_eq!(key.chars().count(), 256);
    assert_eq!(key, format!("{}é", "a".repeat(255)));
    let exact = "x".repeat(256);
    assert_eq!(musicfs::search::query_key(&exact), exact);
}

#[test]
fn test_search_ops_new() {
    let _ops = SearchOps::new("/mnt/music", 1000, 1000);
}

#[test]
fn search_request_caps_query_and_results() {
    let (key, limit) = musicfs::search::search_request(&"q".repeat(400));
    assert_eq!(key, "q".repeat(256));
    assert_eq!(limit, 1000);
    assert_eq!(musicfs::search::MAX_SEARCH_RESULTS, 1000);
}

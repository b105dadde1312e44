use std::path::PathBuf;

use cas::path::FsPath;
use cas::syncing::closure::PathTree;

fn path(s: &str) -> FsPath {
    FsPath::parse(s.as_bytes())
}

fn plain(p: &FsPath) -> PathBuf {
    PathBuf::from(String::from_utf8(p.to_bytes()).expect("utf-8 path"))
}

fn sorted(paths: &[FsPath]) -> Vec<PathBuf> {
    let mut out: Vec<PathBuf> = paths.iter().map(plain).collect();
    out.sort();
    out
}

#[test]
fn insert_single_path() {
    let mut tree = PathTree::new();
    tree.insert(&path("/a"));

    assert_eq!(sorted(&tree.children_of(&path("/"))), vec![PathBuf::from("/a")]);
    assert_eq!(sorted(&tree.ancestors_of(&path("/a"))), vec![PathBuf::from("/")]);
}

#[test]
fn insert_nested_path() {
    let mut tree = PathTree::new();
    tree.insert(&path("/a/b/c"));

    assert_eq!(sorted(&tree.children_of(&path("/a/b"))), vec![PathBuf::from("/a/b/c")]);
    assert_eq!(
        sorted(&tree.ancestors_of(&path("/a/b/c"))),
        vec![PathBuf::from("/"), PathBuf::from("/a"), PathBuf::from("/a/b")]
    );
}

#[test]
fn children_of_root() {
    let mut tree = PathTree::new();
    tree.insert(&path("/a"));
    tree.insert(&path("/b"));
    tree.insert(&path("/a/b/c"));

    assert_eq!(
        sorted(&tree.children_of(&path("/"))),
        vec![PathBuf::from("/a"), PathBuf::from("/b")]
    );
}

#[test]
fn descendants_of() {
    let mut tree = PathTree::new();
    tree.insert(&path("/a/b/c"));
    tree.insert(&path("/a/d"));

    assert_eq!(
        sorted(&tree.descendants_of(&path("/a"))),
        vec![PathBuf::from("/a/b"), PathBuf::from("/a/b/c"), PathBuf::from("/a/d")]
    );
}

#[test]
fn children_of_is_direct_only() {
    let mut tree = PathTree::new();
    tree.insert(&path("/a/b/c"));
    tree.insert(&path("/a/d"));

    assert_eq!(
        sorted(&tree.children_of(&path("/a"))),
        vec![PathBuf::from("/a/b"), PathBuf::from("/a/d")]
    );
    assert_eq!(sorted(&tree.children_of(&path("/a/b"))), vec![PathBuf::from("/a/b/c")]);
    assert!(tree.children_of(&path("/a/b/c")).is_empty());
}

#[test]
fn remove_cascade() {
    let mut tree = PathTree::new();
    tree.insert(&path("/a/b/c"));

    let removed = tree.remove(&path("/a"));
    assert_eq!(
        sorted(&removed),
        vec![PathBuf::from("/a"), PathBuf::from("/a/b"), PathBuf::from("/a/b/c")]
    );

    assert!(!tree.contains(&path("/a")));
    assert!(!tree.contains(&path("/a/b")));
    assert!(!tree.contains(&path("/a/b/c")));
}

#[test]
fn remove_leaf() {
    let mut tree = PathTree::new();
    tree.insert(&path("/a/b/c"));
    tree.insert(&path("/a/d"));

    let removed = tree.remove(&path("/a/b/c"));
    assert_eq!(sorted(&removed), vec![PathBuf::from("/a/b/c")]);

    assert!(tree.contains(&path("/a")));
    assert!(tree.contains(&path("/a/d")));
    assert!(!tree.contains(&path("/a/b/c")));
}

#[test]
fn subtree_paths() {
    let mut tree = PathTree::new();
    tree.insert(&path("/a/b/c"));
    tree.insert(&path("/a/d"));
    tree.insert(&path("/e"));

    assert_eq!(
        sorted(&tree.subtree_paths(&path("/a"))),
        vec![
            PathBuf::from("/a"),
            PathBuf::from("/a/b"),
            PathBuf::from("/a/b/c"),
            PathBuf::from("/a/d"),
        ]
    );
}

#[test]
fn serialization_round_trip() {
    let mut tree = PathTree::new();
    tree.insert(&path("/a/b/c"));
    tree.insert(&path("/a/d"));

    let rows: Vec<(Vec<u8>, Vec<u8>, u32)> = tree
        .rows()
        .iter()
        .map(|(a, d, depth)| (a.to_bytes(), d.to_bytes(), *depth))
        .collect();
    let data = postcard::to_allocvec(&rows).unwrap();
    let read: Vec<(Vec<u8>, Vec<u8>, u32)> = postcard::from_bytes(&data).unwrap();
    let restored_rows: Vec<(FsPath, FsPath, u32)> = read
        .iter()
        .map(|(a, d, depth)| (FsPath::parse(a), FsPath::parse(d), *depth))
        .collect();
    let restored = PathTree::from_rows(&restored_rows);

    assert_eq!(
        sorted(&restored.children_of(&path("/a"))),
        vec![PathBuf::from("/a/b"), PathBuf::from("/a/d")]
    );
    assert_eq!(
        sorted(&restored.ancestors_of(&path("/a/b/c"))),
        vec![PathBuf::from("/"), PathBuf::from("/a"), PathBuf::from("/a/b")]
    );
}

#[test]
fn empty_lookups() {
    let tree = PathTree::new();

    assert!(tree.children_of(&path("/nonexistent")).is_empty());
    assert!(tree.descendants_of(&path("/nonexistent")).is_empty());
    assert!(tree.ancestors_of(&path("/nonexistent")).is_empty());
    assert!(!tree.contains(&path("/nonexistent")));
}

#[test]
fn multiple_roots() {
    let mut tree = PathTree::new();
    tree.insert(&path("/a"));
    tree.insert(&path("/b"));
    tree.insert(&path("/c"));

    assert_eq!(
        sorted(&tree.children_of(&path("/"))),
        vec![PathBuf::from("/a"), PathBuf::from("/b"), PathBuf::from("/c")]
    );
}

#[test]
fn remove_non_existent() {
    let mut tree = PathTree::new();
    tree.insert(&path("/a"));

    assert!(tree.remove(&path("/nonexistent")).is_empty());
    assert!(tree.contains(&path("/a")));
}

#[test]
fn remove_updates_direct_children_index() {
    let mut tree = PathTree::new();
    tree.insert(&path("/a/b/c"));

    assert_eq!(sorted(&tree.children_of(&path("/a/b"))), vec![PathBuf::from("/a/b/c")]);

    tree.remove(&path("/a/b/c"));

    assert!(tree.children_of(&path("/a/b")).is_empty());
}

#[test]
fn clear_forgets_everything() {
    let mut tree = PathTree::new();
    tree.insert(&path("/a/b"));
    tree.clear();

    assert!(!tree.contains(&path("/a")));
    assert!(tree.rows().is_empty());
}

#[test]
fn a_tree_of_paths_holds_them_and_what_is_above() {
    let tree = PathTree::from_paths(&vec![path("/a/b"), path("/c")]);

    assert!(tree.contains(&path("/")));
    assert!(tree.contains(&path("/a")));
    assert!(tree.contains(&path("/a/b")));
    assert!(tree.contains(&path("/c")));
    assert!(!tree.contains(&path("/b")));
    assert_eq!(
        sorted(&tree.subtree_paths(&path("/"))),
        vec![
            PathBuf::from("/"),
            PathBuf::from("/a"),
            PathBuf::from("/a/b"),
            PathBuf::from("/c"),
        ]
    );
}

#[test]
fn a_tree_with_dots_comes_back_from_its_rows() {
    let mut tree = PathTree::new();
    for p in ["/a/../b", "/a/./c", "x/..", "./y", "/a/../../d"] {
        tree.insert(&path(p));
    }
    tree.remove(&path("/a"));
    tree.insert(&path("/a/e"));
    let back = PathTree::from_rows(&tree.rows());
    for p in ["/", "/a", "/a/..", "/a/../b", "/a/c", "/a/e", "x", "x/..", ".", "./y", "/a/../../d"] {
        assert_eq!(back.contains(&path(p)), tree.contains(&path(p)), "{p}");
        assert_eq!(sorted(&back.children_of(&path(p))), sorted(&tree.children_of(&path(p))), "{p}");
        assert_eq!(sorted(&back.ancestors_of(&path(p))), sorted(&tree.ancestors_of(&path(p))), "{p}");
        assert_eq!(
            sorted(&back.descendants_of(&path(p))),
            sorted(&tree.descendants_of(&path(p))),
            "{p}"
        );
    }
    assert!(back.contains(&path("/a/..")));
    assert!(!back.contains(&path("/a/../b")));
}

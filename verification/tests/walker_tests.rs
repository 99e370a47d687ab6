use plasmid::path::FsPath;
use plasmid::walker::{FileMapping, FsTree, TreeEntry, TreeWalker, Walker, should_ignore, walk_tree};

fn p(segments: &[&str]) -> FsPath {
    FsPath::from_segments(segments.iter().map(|s| s.to_string()).collect())
}

fn file(name: &str) -> TreeEntry {
    TreeEntry { name: name.to_string(), node: FsTree::File }
}

fn dir(name: &str, entries: Vec<TreeEntry>) -> TreeEntry {
    TreeEntry { name: name.to_string(), node: FsTree::Dir { entries } }
}

#[test]
fn test_basic_mapping() {
    let src = p(&["src"]);
    let dst = p(&["dst"]);
    let tree = FsTree::Dir {
        entries: vec![file("a.txt"), dir("nested", vec![file("b.txt")])],
    };

    let walker = TreeWalker { tree };
    let mappings = walker.walk(&src, &dst, &vec![]).unwrap();

    assert_eq!(mappings.len(), 2);

    assert!(mappings.contains(&FileMapping {
        source: p(&["src", "a.txt"]),
        dest: p(&["dst", "a.txt"]),
    }));

    assert!(mappings.contains(&FileMapping {
        source: p(&["src", "nested", "b.txt"]),
        dest: p(&["dst", "nested", "b.txt"]),
    }));
}

#[test]
fn test_ignore_patterns() {
    let src = p(&["src"]);
    let dst = p(&["dst"]);
    let tree = FsTree::Dir { entries: vec![dir(".git", vec![file("config")])] };

    let walker = TreeWalker { tree };
    let mappings = walker.walk(&src, &dst, &vec![".git".to_string()]).unwrap();

    assert!(mappings.is_empty());
}

#[test]
fn test_ignores_directories() {
    let src = p(&["src"]);
    let dst = p(&["dst"]);
    let tree = FsTree::Dir { entries: vec![dir("dir", vec![])] };

    let walker = TreeWalker { tree };
    let mappings = walker.walk(&src, &dst, &vec![]).unwrap();

    assert!(mappings.is_empty());
}

#[test]
fn test_walk_preserves_discovery_order() {
    let src = p(&["s"]);
    let dst = p(&["d"]);
    let tree = FsTree::Dir {
        entries: vec![file("one"), file("two"), dir("sub", vec![file("three")])],
    };

    let mappings = walk_tree(&tree, &src, &dst, &vec![]);

    assert_eq!(mappings.len(), 3);
    assert_eq!(mappings[0].source, p(&["s", "one"]));
    assert_eq!(mappings[1].source, p(&["s", "two"]));
    assert_eq!(mappings[2].source, p(&["s", "sub", "three"]));
    assert_eq!(mappings[2].dest, p(&["d", "sub", "three"]));
}

#[test]
fn test_walk_skips_ignored_file_but_keeps_siblings() {
    let src = p(&["s"]);
    let dst = p(&["d"]);
    let tree = FsTree::Dir { entries: vec![file(".gitignore"), file("kept.txt")] };

    let mappings = walk_tree(&tree, &src, &dst, &vec![".gitignore".to_string()]);

    assert_eq!(mappings.len(), 1);
    assert_eq!(mappings[0].source, p(&["s", "kept.txt"]));
    assert_eq!(mappings[0].dest, p(&["d", "kept.txt"]));
}

#[test]
fn test_walk_ignored_root_yields_nothing() {
    let src = p(&["home", "skipme"]);
    let dst = p(&["d"]);
    let tree = FsTree::Dir { entries: vec![file("a")] };

    let mappings = walk_tree(&tree, &src, &dst, &vec!["skipme".to_string()]);

    assert!(mappings.is_empty());
}

#[test]
fn test_walk_file_root_maps_to_destination_root() {
    let src = p(&["s", "a.conf"]);
    let dst = p(&["d", "a.conf"]);
    let tree = FsTree::File;

    let mappings = walk_tree(&tree, &src, &dst, &vec![]);

    assert_eq!(mappings.len(), 1);
    assert_eq!(mappings[0].source, src);
    assert_eq!(mappings[0].dest, dst);
}

#[test]
fn test_should_ignore_exact_match_only() {
    let patterns = vec![".git".to_string(), "target".to_string()];

    assert!(should_ignore(&".git".to_string(), &patterns));
    assert!(should_ignore(&"target".to_string(), &patterns));
    assert!(!should_ignore(&".gitignore".to_string(), &patterns));
    assert!(!should_ignore(&"other".to_string(), &patterns));
    assert!(!should_ignore(&".git".to_string(), &vec![]));
}

#[test]
fn test_round_trip_dest_is_root_joined_with_relative_path() {
    let src_root = p(&["S"]);
    let dst_root = p(&["D"]);
    let rel = p(&["nested", "b.txt"]);
    let tree = FsTree::Dir { entries: vec![dir("nested", vec![file("b.txt")])] };

    let mappings = walk_tree(&tree, &src_root, &dst_root, &vec![]);

    assert_eq!(mappings.len(), 1);
    assert_eq!(mappings[0].source, src_root.join(&rel));
    assert_eq!(mappings[0].dest, dst_root.join(&rel));
}

use blaze::paths::{
    file_name, join_path, normalize_dir_path, path_components, path_join, starts_with_path,
    subtree_like_pattern, PathComponent,
};
use blaze::walker::{
    file_entry_from_path, file_kind, generate_id, keep_walk_child, modified_timestamp,
    parent_or_empty, should_ignore_dir, should_ignore_path,
};

use std::hash::{Hash, Hasher};

fn names(path: &str) -> Vec<String> {
    path_components(path)
        .into_iter()
        .map(|c| match c {
            PathComponent::RootDir => "/".to_string(),
            PathComponent::CurDir => ".".to_string(),
            PathComponent::ParentDir => "..".to_string(),
            PathComponent::Normal(s) => format!("n:{}", s),
        })
        .collect()
}

#[test]
fn components_follow_unix_rules() {
    assert_eq!(names("/a/b"), vec!["/", "n:a", "n:b"]);
    assert_eq!(names("a//b/"), vec!["n:a", "n:b"]);
    assert_eq!(names("./a/./b/."), vec![".", "n:a", "n:b"]);
    assert_eq!(names("/a/../b"), vec!["/", "n:a", "..", "n:b"]);
    assert_eq!(names("."), vec!["."]);
    assert_eq!(names(""), Vec::<String>::new());
    assert_eq!(names("//"), vec!["/"]);
    assert_eq!(names(".hidden/x"), vec!["n:.hidden", "n:x"]);
}

#[test]
fn components_agree_with_std() {
    for p in ["/a/b/c", "a//b", "./x/./y", "../u/v/", "/", "", ".", "..", "/x/../y/.z", "a/b/."] {
        let std_names: Vec<String> = std::path::Path::new(p)
            .components()
            .map(|c| match c {
                std::path::Component::RootDir => "/".to_string(),
                std::path::Component::CurDir => ".".to_string(),
                std::path::Component::ParentDir => "..".to_string(),
                std::path::Component::Normal(s) => format!("n:{}", s.to_string_lossy()),
                std::path::Component::Prefix(_) => "prefix".to_string(),
            })
            .collect();
        assert_eq!(names(p), std_names, "path {:?}", p);
    }
}

#[test]
fn starts_with_is_component_wise() {
    assert!(starts_with_path("/a/b/c", "/a/b"));
    assert!(starts_with_path("/a/b/", "/a/b"));
    assert!(!starts_with_path("/a/bc", "/a/b"));
    assert!(!starts_with_path("a/b", "/a"));
    assert!(starts_with_path("/a", ""));
    for (p, b) in [("/x/y", "/x"), ("/x", "/x/y"), ("x/y", "x//"), ("/x/yz", "/x/y")] {
        assert_eq!(starts_with_path(p, b), std::path::Path::new(p).starts_with(b));
    }
}

#[test]
fn file_names() {
    assert_eq!(file_name("/a/b.txt"), Some("b.txt".to_string()));
    assert_eq!(file_name("/a/b/"), Some("b".to_string()));
    assert_eq!(file_name("/"), None);
    assert_eq!(file_name(".."), None);
    assert_eq!(file_name(""), None);
}

#[test]
fn joins() {
    assert_eq!(path_join("/data", "db/tantivy"), "/data/db/tantivy");
    assert_eq!(path_join("/data/", "x"), "/data/x");
    assert_eq!(path_join("", "x"), "x");
    assert_eq!(path_join("/data", "/abs"), "/abs");
    assert_eq!(join_path("", "a"), "a");
    assert_eq!(join_path("/", "a"), "/a");
    assert_eq!(join_path("/Users/x", "a"), "/Users/x/a");
}

#[test]
fn dir_path_normalization() {
    assert_eq!(normalize_dir_path("/Users/x/"), "/Users/x");
    assert_eq!(normalize_dir_path("/Users/x\\/"), "/Users/x");
    assert_eq!(normalize_dir_path("///"), "/");
    assert_eq!(normalize_dir_path(""), "/");
    assert_eq!(normalize_dir_path("/a"), "/a");
    assert_eq!(subtree_like_pattern("/a/b"), "/a/b/%");
}

#[test]
fn ignored_names() {
    assert!(should_ignore_dir(".git"));
    assert!(should_ignore_dir("node_modules"));
    assert!(should_ignore_dir("__pycache__"));
    assert!(!should_ignore_dir("src"));
    assert!(!should_ignore_dir(""));
}

#[test]
fn ignored_paths() {
    let data = "/Users/me/Library/Application Support/com.Harsh.Blaze";
    assert!(should_ignore_path("/Users/me/.ssh/id", data));
    assert!(should_ignore_path("/Users/me/proj/.env", data));
    assert!(should_ignore_path("/Users/me/proj/node_modules/x.js", data));
    assert!(should_ignore_path(data, data));
    assert!(should_ignore_path("/Users/me/Library/Application Support/com.Harsh.Blaze/db/main.db", data));
    assert!(!should_ignore_path("/Users/me/Library/Application Support/com.Harsh.Blaze2", data));
    assert!(!should_ignore_path("/Users/me/proj/src/main.rs", data));
    assert!(!should_ignore_path("./src", data));
}

#[test]
fn ids_are_default_hashes() {
    let mut h = std::collections::hash_map::DefaultHasher::new();
    "/Users/me/a.txt".hash(&mut h);
    assert_eq!(generate_id("/Users/me/a.txt"), h.finish() as i64);
    assert_eq!(generate_id("/x"), generate_id("/x"));
    assert_ne!(generate_id("/x"), generate_id("/y"));
}

#[test]
fn kinds_and_times() {
    assert_eq!(file_kind(true, false, false), "file");
    assert_eq!(file_kind(false, true, false), "dir");
    assert_eq!(file_kind(false, false, true), "symlink");
    assert_eq!(file_kind(false, false, false), "unknown");
    assert_eq!(file_kind(true, true, true), "file");
    assert_eq!(modified_timestamp(Some(1_700_000_000)), Some(1_700_000_000));
    assert_eq!(modified_timestamp(None), None);
    assert_eq!(modified_timestamp(Some(u64::MAX)), Some(-1));
}

#[test]
fn entries_from_paths() {
    let e = file_entry_from_path("/Users/me/a.txt", 12, Some(99), "file", 0).unwrap();
    assert_eq!(e.path, "/Users/me/a.txt");
    assert_eq!(e.parent, "/Users/me");
    assert_eq!(e.name, "a.txt");
    assert_eq!(e.size, Some(12));
    assert_eq!(e.modified, Some(99));
    assert_eq!(e.kind, "file");
    assert_eq!(e.indexed, 0);
    assert_eq!(e.id, generate_id("/Users/me/a.txt"));
    assert!(file_entry_from_path("/", 0, None, "dir", 0).is_none());
    assert_eq!(parent_or_empty("/"), "");
    assert_eq!(parent_or_empty("/a"), "/");
    assert_eq!(parent_or_empty("a"), "");
}

#[test]
fn walk_pruning() {
    let data = "/Users/me/data";
    assert!(!keep_walk_child("/Users/me/data", "data", true, data));
    assert!(!keep_walk_child("/Users/me/p/node_modules", "node_modules", true, data));
    assert!(keep_walk_child("/Users/me/p/node_modules", "node_modules", false, data));
    assert!(keep_walk_child("/Users/me/p/src", "src", true, data));
}

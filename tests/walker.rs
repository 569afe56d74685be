use filescan::record::FileMetadata;
use filescan::walker::{
    is_pruned_name, is_skipped_name, join_path, EntryKind, ListingError, PathStyle, TreeWalker, WalkError,
};

fn file(size: u64) -> EntryKind {
    EntryKind::File { size, modified_time: Some(42) }
}

fn dir() -> EntryKind {
    EntryKind::Directory { hidden_attribute: false }
}

/// Walks a tree given as (directory, entries) listings, the way a caller
/// drives the walker, and returns what it emitted.
fn walk(root: &str, tree: &[(&str, Vec<(&str, EntryKind)>)]) -> (Vec<FileMetadata>, Vec<String>) {
    let mut w = TreeWalker::new(root.to_string(), PathStyle::Slash);
    let mut records = Vec::new();
    let mut listed = Vec::new();
    while let Some(d) = w.next_directory() {
        listed.push(d.clone());
        if let Some((_, entries)) = tree.iter().find(|(p, _)| *p == d) {
            for (name, kind) in entries {
                if let Some(r) = w.handle_entry(name, *kind) {
                    records.push(r);
                    assert!(w.record_sent(true).is_ok());
                }
            }
        }
    }
    assert_eq!(w.files_found(), records.len());
    (records, listed)
}

#[test]
fn git_and_node_modules_contribute_nothing() {
    let tree = vec![
        ("/r", vec![(".git", dir()), ("node_modules", dir()), ("a.txt", file(3)), ("src", dir())]),
        ("/r/.git", vec![("config", file(1))]),
        ("/r/node_modules", vec![("index.js", file(1))]),
        ("/r/src", vec![("main.rs", file(7))]),
    ];
    let (records, listed) = walk("/r", &tree);
    let paths: Vec<&str> = records.iter().map(|r| r.path.as_str()).collect();
    assert_eq!(paths, vec!["/r/a.txt", "/r/src/main.rs"]);
    assert_eq!(listed, vec!["/r", "/r/src"]);
}

#[test]
fn record_name_is_final_path_component() {
    let tree = vec![
        ("/", vec![("home", dir()), ("top.txt", file(1))]),
        ("/home", vec![("user", dir())]),
        ("/home/user", vec![("notes.md", file(9))]),
    ];
    let (records, _) = walk("/", &tree);
    assert_eq!(records.len(), 2);
    for r in &records {
        assert_eq!(r.path.rsplit('/').next().unwrap(), r.name);
    }
    assert_eq!(records[0].path, "/top.txt");
    assert_eq!(records[1].path, "/home/user/notes.md");
    assert_eq!(records[1].size, 9);
    assert_eq!(records[1].modified_time, 42);
}

#[test]
fn breadth_first_order() {
    let tree = vec![
        ("/r", vec![("a", dir()), ("b", dir())]),
        ("/r/a", vec![("c", dir()), ("a1", file(1))]),
        ("/r/b", vec![("b1", file(1))]),
        ("/r/a/c", vec![("c1", file(1))]),
    ];
    let (records, listed) = walk("/r", &tree);
    assert_eq!(listed, vec!["/r", "/r/a", "/r/b", "/r/a/c"]);
    let names: Vec<&str> = records.iter().map(|r| r.name.as_str()).collect();
    assert_eq!(names, vec!["a1", "b1", "c1"]);
}

#[test]
fn hidden_directories_are_pruned() {
    let tree = vec![
        ("/r", vec![(".secret", dir()), ("Shown", EntryKind::Directory { hidden_attribute: true }), ("ok", dir())]),
        ("/r/.secret", vec![("x", file(1))]),
        ("/r/Shown", vec![("y", file(1))]),
        ("/r/ok", vec![("z", file(1))]),
    ];
    let (records, _) = walk("/r", &tree);
    assert_eq!(records.len(), 1);
    assert_eq!(records[0].path, "/r/ok/z");
}

#[test]
fn hidden_files_are_still_emitted() {
    let (records, _) = walk("/r", &[("/r", vec![(".profile", file(5))])]);
    assert_eq!(records.len(), 1);
    assert_eq!(records[0].name, ".profile");
}

#[test]
fn other_entries_and_unreadable_metadata_are_dropped() {
    let tree = vec![(
        "/r",
        vec![
            ("link", EntryKind::Other),
            ("gone", EntryKind::Unreadable),
            ("nodate", EntryKind::File { size: 1, modified_time: None }),
            ("kept", file(2)),
        ],
    )];
    let (records, _) = walk("/r", &tree);
    assert_eq!(records.len(), 1);
    assert_eq!(records[0].name, "kept");
}

#[test]
fn skip_list_by_equality_ignoring_case_and_by_containment() {
    assert!(is_skipped_name("node_modules"));
    assert!(is_skipped_name("WINDOWS"));
    assert!(is_skipped_name("program files"));
    assert!(is_skipped_name("my_cache_dir"));
    assert!(is_skipped_name("Temporary"));
    assert!(is_skipped_name("build-target"));
    assert!(!is_skipped_name("Documents"));
    assert!(!is_skipped_name("projects"));
    assert!(!is_skipped_name("NODE_MODULES_X"));
    assert!(is_pruned_name(".config"));
    assert!(is_pruned_name("venv"));
    assert!(!is_pruned_name("music"));
}

#[test]
fn join_adds_one_separator() {
    assert_eq!(join_path("/", "a", PathStyle::Slash), "/a");
    assert_eq!(join_path("/home", "a", PathStyle::Slash), "/home/a");
    assert_eq!(join_path("C:\\", "Users", PathStyle::Backslash), "C:\\Users");
    assert_eq!(join_path("C:\\Users", "x", PathStyle::Backslash), "C:\\Users\\x");
    assert_eq!(join_path("", "a", PathStyle::Slash), "a");
}

#[test]
fn closed_channel_ends_the_walk() {
    let mut w = TreeWalker::new("/r".to_string(), PathStyle::Slash);
    assert_eq!(w.next_directory().as_deref(), Some("/r"));
    assert!(w.handle_entry("a.txt", file(1)).is_some());
    assert_eq!(w.record_sent(false), Err(WalkError::ChannelClosed));
    assert_eq!(w.files_found(), 0);
    assert_eq!(WalkError::ChannelClosed.message(), "Channel closed");
}

#[test]
fn entries_before_any_listing_are_ignored() {
    let mut w = TreeWalker::new("/r".to_string(), PathStyle::Slash);
    assert!(w.handle_entry("a.txt", file(1)).is_none());
}

#[test]
fn listing_errors() {
    assert!(!ListingError::PermissionDenied.should_warn());
    assert!(!ListingError::NotFound.should_warn());
    assert!(ListingError::Other.should_warn());
}

use llmctx::{CandidateEntry, EntryKind, TreeWalker};

fn entry(path: &str, kind: EntryKind) -> CandidateEntry {
    let name = path.rsplit('/').next().unwrap_or("");
    CandidateEntry { path: path.to_string(), name: name.to_string(), kind }
}

fn walker(excludes: &[&str]) -> TreeWalker {
    TreeWalker::new(excludes.iter().map(|pattern| pattern.to_string()).collect())
}

#[test]
fn files_that_pass_are_yielded_in_the_order_of_the_walk() {
    let mut walk = walker(&[]);
    assert!(walk.consider(&entry("r/b.txt", EntryKind::File)));
    assert!(!walk.consider(&entry("r/sub", EntryKind::Directory)));
    assert!(walk.consider(&entry("r/sub/a.txt", EntryKind::File)));
    assert_eq!(walk.yielded(), &vec!["r/b.txt".to_string(), "r/sub/a.txt".to_string()]);
}

#[test]
fn root_that_is_a_file_is_yielded_if_the_policy_lets_it_through() {
    let mut walk = walker(&[]);
    assert!(walk.consider(&entry("notes.txt", EntryKind::File)));
    let mut other = walker(&[]);
    assert!(!other.consider(&entry(".notes", EntryKind::File)));
    assert!(other.yielded().is_empty());
}

#[test]
fn no_path_is_yielded_twice() {
    let mut walk = walker(&[]);
    assert!(walk.consider(&entry("a/x.rs", EntryKind::File)));
    assert!(!walk.consider(&entry("a/x.rs", EntryKind::File)));
    assert!(walk.consider(&entry("b/x.rs", EntryKind::File)));
    assert!(!walk.consider(&entry("a/x.rs", EntryKind::File)));
    assert_eq!(walk.yielded().len(), 2);
}

#[test]
fn left_out_files_are_not_remembered() {
    let mut walk = walker(&["test"]);
    assert!(!walk.consider(&entry("foo_test.go", EntryKind::File)));
    assert!(!walk.consider(&entry("Cargo.lock", EntryKind::File)));
    assert!(walk.consider(&entry("foo.go", EntryKind::File)));
    assert_eq!(walk.yielded(), &vec!["foo.go".to_string()]);
}

#[test]
fn left_out_directories_are_pruned() {
    let walk = walker(&["vendor"]);
    assert!(walk.prunes(&entry("app/.git", EntryKind::Directory)));
    assert!(walk.prunes(&entry("app/node_modules", EntryKind::Directory)));
    assert!(walk.prunes(&entry("app/vendored", EntryKind::Directory)));
    assert!(!walk.prunes(&entry("app/src", EntryKind::Directory)));
    assert!(!walk.prunes(&entry("app/vendor.txt", EntryKind::File)));
    assert!(!walk.prunes(&entry("app/pipe", EntryKind::Other)));
}

#[test]
fn neither_directories_nor_other_entries_are_yielded() {
    let mut walk = walker(&[]);
    assert!(!walk.consider(&entry("src", EntryKind::Directory)));
    assert!(!walk.consider(&entry("run.sock", EntryKind::Other)));
    assert!(walk.yielded().is_empty());
}

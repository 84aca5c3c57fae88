use kyosho_backup::errors::{BackupError, TransferOutcome};
use kyosho_backup::mirror::{run_backup, CancelScript};
use kyosho_backup::store::LocalStore;
use kyosho_backup::tree::{FsEntry, FsNode};

fn file(name: &str, content: &[u8]) -> FsEntry {
    FsEntry { name: String::from(name), node: FsNode::File { content: content.to_vec() } }
}

fn dir(name: &str, entries: Vec<FsEntry>) -> FsEntry {
    FsEntry { name: String::from(name), node: FsNode::Dir { entries } }
}

fn path(components: &[&str]) -> Vec<String> {
    components.iter().map(|c| String::from(*c)).collect()
}

fn sample_tree() -> FsNode {
    FsNode::Dir {
        entries: vec![
            file("a.txt", b"12345"),
            file(".hidden", b"x"),
            dir("sub", vec![file("b.txt", b"abc")]),
        ],
    }
}

#[test]
fn round_trip_scenario_mirrors_visible_files_only() {
    let tree = sample_tree();
    let mut store = LocalStore::new();
    let root = path(&["backup"]);
    let mut script = CancelScript::new_never();
    let outcome = run_backup(&tree, "/root", &mut store, &root, &mut script);
    match outcome {
        TransferOutcome::Success { transferred_files, message } => {
            assert_eq!(transferred_files, 2);
            assert_eq!(
                message,
                "backup complete: transferred 2 files from /root to backup"
            );
        }
        _ => panic!("expected success"),
    }
    let a = store.get_file(&path(&["backup", "a.txt"]));
    assert_eq!(a.map(|c| c.as_slice()), Some(&b"12345"[..]));
    let b = store.get_file(&path(&["backup", "sub", "b.txt"]));
    assert_eq!(b.map(|c| c.as_slice()), Some(&b"abc"[..]));
    assert!(store.get_file(&path(&["backup", ".hidden"])).is_none());
    assert!(store.dir_present(&path(&["backup"])));
    assert!(store.dir_present(&path(&["backup", "sub"])));
    assert_eq!(store.file_count(), 2);
}

#[test]
fn hidden_directories_are_never_descended() {
    let tree = FsNode::Dir {
        entries: vec![
            dir(".git", vec![file("config", b"secret")]),
            file("kept.txt", b"k"),
        ],
    };
    let mut store = LocalStore::new();
    let root = path(&["out"]);
    let mut script = CancelScript::new_never();
    let outcome = run_backup(&tree, "/r", &mut store, &root, &mut script);
    assert!(matches!(
        outcome,
        TransferOutcome::Success { transferred_files: 1, .. }
    ));
    assert!(store.get_file(&path(&["out", ".git", "config"])).is_none());
    assert!(!store.dir_present(&path(&["out", ".git"])));
    assert!(store.get_file(&path(&["out", "kept.txt"])).is_some());
}

fn nested_dirs(levels: usize) -> FsNode {
    let mut node = FsNode::Dir { entries: vec![file("leaf.txt", b"z")] };
    for _ in 0..levels {
        node = FsNode::Dir {
            entries: vec![FsEntry { name: String::from("d"), node }],
        };
    }
    node
}

#[test]
fn depth_fifty_succeeds() {
    let tree = nested_dirs(50);
    let mut store = LocalStore::new();
    let root = path(&["deep"]);
    let mut script = CancelScript::new_never();
    let outcome = run_backup(&tree, "/deep", &mut store, &root, &mut script);
    assert!(matches!(
        outcome,
        TransferOutcome::Success { transferred_files: 1, .. }
    ));
}

#[test]
fn depth_beyond_fifty_is_a_distinct_failure() {
    let tree = nested_dirs(51);
    let mut store = LocalStore::new();
    let root = path(&["deep"]);
    let mut script = CancelScript::new_never();
    let outcome = run_backup(&tree, "/deep", &mut store, &root, &mut script);
    match outcome {
        TransferOutcome::Failed { error } => match error {
            BackupError::RecursionTooDeep { remote_path } => {
                assert_eq!(remote_path, "/deep");
            }
            _ => panic!("expected the recursion-depth failure"),
        },
        _ => panic!("expected a failure, not silent truncation"),
    }
}

#[test]
fn cancel_before_start_transfers_nothing() {
    let tree = sample_tree();
    let mut store = LocalStore::new();
    let root = path(&["backup"]);
    let mut script = CancelScript::new_after(0);
    let outcome = run_backup(&tree, "/root", &mut store, &root, &mut script);
    assert!(matches!(
        outcome,
        TransferOutcome::Cancelled { transferred_files: 0 }
    ));
    assert_eq!(store.file_count(), 0);
    assert!(store.dir_present(&path(&["backup"])));
}

#[test]
fn cancel_mid_run_keeps_completed_files() {
    let tree = FsNode::Dir {
        entries: vec![file("one", b"1"), file("two", b"2"), file("three", b"3")],
    };
    let mut store = LocalStore::new();
    let root = path(&["c"]);
    // One poll at the directory's entry loop, one before the first
    // file: the second file's checkpoint observes the flag set.
    let mut script = CancelScript::new_after(2);
    let outcome = run_backup(&tree, "/c", &mut store, &root, &mut script);
    match outcome {
        TransferOutcome::Cancelled { transferred_files } => {
            assert_eq!(transferred_files, 1);
        }
        _ => panic!("expected a cancelled outcome"),
    }
    assert!(store.get_file(&path(&["c", "one"])).is_some());
    assert!(store.get_file(&path(&["c", "two"])).is_none());
}

#[test]
fn second_run_changes_nothing() {
    let tree = sample_tree();
    let mut store = LocalStore::new();
    let root = path(&["backup"]);
    let mut s1 = CancelScript::new_never();
    let first = run_backup(&tree, "/root", &mut store, &root, &mut s1);
    let count1 = match first {
        TransferOutcome::Success { transferred_files, .. } => transferred_files,
        _ => panic!("expected success"),
    };
    let snapshot = LocalStore { files: store.files.clone(), dirs: store.dirs.clone() };
    let mut s2 = CancelScript::new_never();
    let second = run_backup(&tree, "/root", &mut store, &root, &mut s2);
    let count2 = match second {
        TransferOutcome::Success { transferred_files, .. } => transferred_files,
        _ => panic!("expected success"),
    };
    assert_eq!(count1, count2);
    assert_eq!(store, snapshot);
}

#[test]
fn an_empty_directory_mirrors_to_nothing_but_the_root() {
    let tree = FsNode::Dir { entries: vec![] };
    let mut store = LocalStore::new();
    let root = path(&["empty"]);
    let mut script = CancelScript::new_never();
    let outcome = run_backup(&tree, "/e", &mut store, &root, &mut script);
    assert!(matches!(
        outcome,
        TransferOutcome::Success { transferred_files: 0, .. }
    ));
    assert_eq!(store.file_count(), 0);
    assert!(store.dir_present(&path(&["empty"])));
}

#[test]
fn every_visible_file_is_counted_once() {
    let tree = FsNode::Dir {
        entries: vec![
            file("a", b"1"),
            dir("d1", vec![file("b", b"2"), dir("d2", vec![file("c", b"3"), file(".h", b"4")])]),
            file(".skip", b"5"),
            dir(".hidden_dir", vec![file("inside", b"6")]),
        ],
    };
    let mut store = LocalStore::new();
    let root = path(&["n"]);
    let mut script = CancelScript::new_never();
    let outcome = run_backup(&tree, "/n", &mut store, &root, &mut script);
    assert!(matches!(
        outcome,
        TransferOutcome::Success { transferred_files: 3, .. }
    ));
    assert_eq!(store.file_count(), 3);
}

#[test]
fn non_directory_root_is_rejected() {
    let tree = FsNode::File { content: b"data".to_vec() };
    let mut store = LocalStore::new();
    let root = path(&["x"]);
    let mut script = CancelScript::new_never();
    let outcome = run_backup(&tree, "/x", &mut store, &root, &mut script);
    assert!(matches!(
        outcome,
        TransferOutcome::Failed { error: BackupError::RemoteRootMissingOrNotDirectory { .. } }
    ));
    assert_eq!(store.file_count(), 0);
}

#[test]
fn overwrite_replaces_stale_content() {
    let mut store = LocalStore::new();
    let root = path(&["m"]);
    let old_tree = FsNode::Dir { entries: vec![file("f", b"old")] };
    let new_tree = FsNode::Dir { entries: vec![file("f", b"newer")] };
    let mut s1 = CancelScript::new_never();
    run_backup(&old_tree, "/m", &mut store, &root, &mut s1);
    let mut s2 = CancelScript::new_never();
    run_backup(&new_tree, "/m", &mut store, &root, &mut s2);
    let f = store.get_file(&path(&["m", "f"]));
    assert_eq!(f.map(|c| c.as_slice()), Some(&b"newer"[..]));
    assert_eq!(store.file_count(), 1);
}

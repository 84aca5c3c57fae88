use kyosho_backup::engine::{BackupEngine, EngineAction, ListedEntry};
use kyosho_backup::errors::TransferOutcome;

fn listed(name: &str, is_file: bool, size: u64) -> ListedEntry {
    ListedEntry { name: String::from(name), is_file, size }
}

#[test]
fn full_run_over_a_small_tree() {
    let mut e = BackupEngine::new(String::from("/root"), String::from("backup"), 0);

    match e.next_task(false) {
        EngineAction::ListDir { remote_dir, local_dir } => {
            assert_eq!(remote_dir, "/root");
            assert_eq!(local_dir, "backup");
        }
        _ => panic!("expected the root listing"),
    }
    e.on_listed(&vec![
        listed("a.txt", true, 5),
        listed(".hidden", true, 1),
        listed("sub", false, 0),
    ]);

    // Depth-first in listing order: the file comes first.
    match e.next_task(false) {
        EngineAction::Transfer { remote_path, local_path, timeout_secs } => {
            assert_eq!(remote_path, "/root/a.txt");
            assert_eq!(local_path, "backup/a.txt");
            assert_eq!(timeout_secs, 60);
        }
        _ => panic!("expected the first file"),
    }
    e.on_transferred(5);

    // The hidden entry never appears; the subdirectory follows.
    match e.next_task(false) {
        EngineAction::ListDir { remote_dir, local_dir } => {
            assert_eq!(remote_dir, "/root/sub");
            assert_eq!(local_dir, "backup/sub");
        }
        _ => panic!("expected the subdirectory listing"),
    }
    e.on_listed(&vec![listed("b.txt", true, 3)]);

    match e.next_task(false) {
        EngineAction::Transfer { remote_path, .. } => {
            assert_eq!(remote_path, "/root/sub/b.txt");
        }
        _ => panic!("expected the second file"),
    }
    e.on_transferred(3);

    match e.next_task(false) {
        EngineAction::Finished { outcome } => match outcome {
            TransferOutcome::Success { transferred_files, message } => {
                assert_eq!(transferred_files, 2);
                assert_eq!(message, "backup complete: transferred 2 files from /root to backup");
            }
            _ => panic!("expected success"),
        },
        _ => panic!("expected the run to finish"),
    }
    assert_eq!(e.transferred_bytes, 8);
}

#[test]
fn timeout_tier_reaches_the_transfer_action() {
    let mut e = BackupEngine::new(String::from("/r"), String::from("l"), 0);
    match e.next_task(false) {
        EngineAction::ListDir { .. } => {}
        _ => panic!("expected a listing"),
    }
    e.on_listed(&vec![listed("big.bin", true, 50 * 1024 * 1024)]);
    match e.next_task(false) {
        EngineAction::Transfer { timeout_secs, .. } => assert_eq!(timeout_secs, 120),
        _ => panic!("expected a transfer"),
    }
}

#[test]
fn a_set_flag_cancels_at_the_next_checkpoint() {
    let mut e = BackupEngine::new(String::from("/r"), String::from("l"), 0);
    match e.next_task(true) {
        EngineAction::Finished { outcome } => {
            assert!(matches!(outcome, TransferOutcome::Cancelled { transferred_files: 0 }));
        }
        _ => panic!("expected a cancelled outcome"),
    }
}

#[test]
fn cancellation_mid_run_reports_completed_files() {
    let mut e = BackupEngine::new(String::from("/r"), String::from("l"), 0);
    match e.next_task(false) {
        EngineAction::ListDir { .. } => {}
        _ => panic!("expected a listing"),
    }
    e.on_listed(&vec![listed("one", true, 1), listed("two", true, 1)]);
    assert!(matches!(e.next_task(false), EngineAction::Transfer { .. }));
    e.on_transferred(1);
    match e.next_task(true) {
        EngineAction::Finished { outcome } => {
            assert!(matches!(outcome, TransferOutcome::Cancelled { transferred_files: 1 }));
        }
        _ => panic!("expected a cancelled outcome"),
    }
}

#[test]
fn descending_past_fifty_levels_fails_distinctly() {
    let mut e = BackupEngine::new(String::from("/r"), String::from("l"), 0);
    for _ in 0..51 {
        match e.next_task(false) {
            EngineAction::ListDir { .. } => {}
            other => {
                let is_too_deep = matches!(
                    &other,
                    EngineAction::Finished {
                        outcome: TransferOutcome::Failed { .. }
                    }
                );
                assert!(is_too_deep, "expected listings until the bound");
                return;
            }
        }
        e.on_listed(&vec![listed("d", false, 0)]);
    }
    match e.next_task(false) {
        EngineAction::Finished { outcome } => {
            assert!(matches!(outcome, TransferOutcome::Failed { .. }));
        }
        _ => panic!("expected the depth bound to fire"),
    }
}

#[test]
fn progress_is_throttled_and_labelled() {
    let mut e = BackupEngine::new(String::from("/r"), String::from("l"), 0);
    assert!(e.maybe_progress(100, "/r/f").is_none());
    let p = e.maybe_progress(3000, "/r/f").expect("due after the interval");
    assert_eq!(p.phase, "transferring");
    assert_eq!(p.current_file.as_deref(), Some("/r/f"));
    assert_eq!(p.transferred_files, 0);
    assert!(e.maybe_progress(3001, "/r/f").is_none());
    e.on_transferred(7);
    let done = e.final_progress(5000);
    assert_eq!(done.phase, "complete");
    assert_eq!(done.total_files, Some(1));
    assert_eq!(done.transferred_bytes, 7);
}

use kyosho_backup::history::{BackupHistoryEntry, BackupHistoryManager, BackupStatus};

fn entry(id: &str, timestamp: u64, status: BackupStatus, files: usize, secs: u64) -> BackupHistoryEntry {
    BackupHistoryEntry {
        id: String::from(id),
        timestamp,
        remote_path: String::from("/remote"),
        local_path: String::from("/local"),
        transferred_files: files,
        elapsed_seconds: secs,
        status,
        message: String::from("done"),
        ssh_host: String::from("host"),
        ssh_user: String::from("user"),
    }
}

#[test]
fn add_updates_counters_and_keeps_order() {
    let mut m = BackupHistoryManager::new();
    m.add_backup_entry(entry("a", 10, BackupStatus::Success, 3, 5), 100);
    m.add_backup_entry(entry("b", 20, BackupStatus::Failed, 0, 1), 200);
    m.add_backup_entry(entry("c", 15, BackupStatus::Cancelled, 1, 2), 300);
    let h = m.get_history();
    assert_eq!(h.entries.len(), 3);
    assert_eq!(h.total_backups, 3);
    assert_eq!(h.successful_backups, 1);
    assert_eq!(h.failed_backups, 1);
    assert_eq!(h.last_updated, 300);
    assert_eq!(h.entries[0].id, "a");
    assert_eq!(h.entries[2].id, "c");
}

#[test]
fn cap_keeps_the_hundred_newest_sorted() {
    let mut m = BackupHistoryManager::new();
    for i in 0..101u64 {
        m.add_backup_entry(entry(&format!("e{}", i), i, BackupStatus::Success, 1, 1), i);
    }
    let h = m.get_history();
    assert_eq!(h.entries.len(), 100);
    // All-time counter still counts every run.
    assert_eq!(h.total_backups, 101);
    // Newest first, and the oldest entry (timestamp 0) was dropped.
    assert_eq!(h.entries[0].timestamp, 100);
    assert_eq!(h.entries[99].timestamp, 1);
    for w in h.entries.windows(2) {
        assert!(w[0].timestamp >= w[1].timestamp);
    }
}

#[test]
fn date_range_is_inclusive_and_ordered() {
    let mut m = BackupHistoryManager::new();
    m.add_backup_entry(entry("a", 10, BackupStatus::Success, 1, 1), 1);
    m.add_backup_entry(entry("b", 20, BackupStatus::Success, 1, 1), 2);
    m.add_backup_entry(entry("c", 30, BackupStatus::Success, 1, 1), 3);
    let r = m.get_history_by_date_range(10, 20);
    assert_eq!(r.len(), 2);
    assert_eq!(r[0].id, "a");
    assert_eq!(r[1].id, "b");
    assert!(m.get_history_by_date_range(31, 40).is_empty());
}

#[test]
fn recent_history_sorts_newest_first_and_truncates() {
    let mut m = BackupHistoryManager::new();
    m.add_backup_entry(entry("old", 5, BackupStatus::Success, 1, 1), 1);
    m.add_backup_entry(entry("newest", 50, BackupStatus::Success, 1, 1), 2);
    m.add_backup_entry(entry("mid", 25, BackupStatus::Success, 1, 1), 3);
    let r = m.get_recent_history(2);
    assert_eq!(r.len(), 2);
    assert_eq!(r[0].id, "newest");
    assert_eq!(r[1].id, "mid");
    // A zero limit means no truncation.
    let all = m.get_recent_history(0);
    assert_eq!(all.len(), 3);
    assert_eq!(all[2].id, "old");
}

#[test]
fn equal_timestamps_are_all_retained() {
    let mut m = BackupHistoryManager::new();
    m.add_backup_entry(entry("x", 7, BackupStatus::Success, 1, 1), 1);
    m.add_backup_entry(entry("y", 7, BackupStatus::Success, 1, 1), 2);
    m.add_backup_entry(entry("z", 7, BackupStatus::Success, 1, 1), 3);
    let r = m.get_recent_history(0);
    assert_eq!(r.len(), 3);
    let mut ids: Vec<&str> = r.iter().map(|e| e.id.as_str()).collect();
    ids.sort();
    assert_eq!(ids, vec!["x", "y", "z"]);
}

#[test]
fn statistics_aggregate_the_entries() {
    let mut m = BackupHistoryManager::new();
    m.add_backup_entry(entry("a", 10, BackupStatus::Success, 3, 5), 1);
    m.add_backup_entry(entry("b", 40, BackupStatus::Failed, 2, 7), 2);
    m.add_backup_entry(entry("c", 20, BackupStatus::Cancelled, 1, 4), 3);
    let s = m.get_statistics();
    assert_eq!(s.total_backups, 3);
    assert_eq!(s.successful_backups, 1);
    assert_eq!(s.failed_backups, 1);
    assert_eq!(s.total_files_transferred, 6);
    assert_eq!(s.total_time_spent, 16);
    assert_eq!(s.last_backup_timestamp, 40);
}

#[test]
fn statistics_of_an_empty_log_are_zero() {
    let m = BackupHistoryManager::new();
    let s = m.get_statistics();
    assert_eq!(s.total_backups, 0);
    assert_eq!(s.total_files_transferred, 0);
    assert_eq!(s.last_backup_timestamp, 0);
}

#[test]
fn delete_removes_by_id_and_recomputes() {
    let mut m = BackupHistoryManager::new();
    m.add_backup_entry(entry("a", 10, BackupStatus::Success, 1, 1), 1);
    m.add_backup_entry(entry("b", 20, BackupStatus::Failed, 1, 1), 2);
    assert!(m.delete_backup_entry("a", 99));
    let h = m.get_history();
    assert_eq!(h.entries.len(), 1);
    assert_eq!(h.entries[0].id, "b");
    assert_eq!(h.total_backups, 1);
    assert_eq!(h.successful_backups, 0);
    assert_eq!(h.failed_backups, 1);
    assert_eq!(h.last_updated, 99);
}

#[test]
fn delete_of_a_missing_id_changes_nothing() {
    let mut m = BackupHistoryManager::new();
    m.add_backup_entry(entry("a", 10, BackupStatus::Success, 1, 1), 1);
    assert!(!m.delete_backup_entry("zzz", 99));
    let h = m.get_history();
    assert_eq!(h.entries.len(), 1);
    assert_eq!(h.last_updated, 1);
    assert_eq!(h.total_backups, 1);
}

#[test]
fn clear_resets_everything() {
    let mut m = BackupHistoryManager::new();
    m.add_backup_entry(entry("a", 10, BackupStatus::Success, 1, 1), 1);
    m.clear_history();
    let h = m.get_history();
    assert!(h.entries.is_empty());
    assert_eq!(h.total_backups, 0);
    assert_eq!(h.successful_backups, 0);
    assert_eq!(h.failed_backups, 0);
    assert_eq!(h.last_updated, 0);
}

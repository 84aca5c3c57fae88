//! The bounded backup-history log: an in-memory record of past runs
//! with simple aggregate statistics. Persistence is left to the
//! surrounding application; every rule about the log's content is
//! verified here.

use vstd::prelude::*;
use vstd::multiset::Multiset;
use vstd::string::StrSliceExecFns;

verus! {

broadcast use vstd::seq_lib::group_to_multiset_ensures;

/// Cap on the number of retained history entries.
pub const HISTORY_CAP: usize = 100;

/// How one recorded backup run ended.
#[derive(Clone, Copy, Debug, PartialEq, Eq, Structural)]
pub enum BackupStatus {
    Success,
    Failed,
    Cancelled,
}

/// One recorded backup run.
#[derive(Debug, PartialEq, Eq)]
pub struct BackupHistoryEntry {
    pub id: String,
    pub timestamp: u64,
    pub remote_path: String,
    pub local_path: String,
    pub transferred_files: usize,
    pub elapsed_seconds: u64,
    pub status: BackupStatus,
    pub message: String,
    pub ssh_host: String,
    pub ssh_user: String,
}

impl BackupHistoryEntry {
    /// A field-for-field copy of this entry.
    pub fn duplicate(&self) -> (r: BackupHistoryEntry)
        ensures
            r == *self,
    {
        BackupHistoryEntry {
            id: self.id.clone(),
            timestamp: self.timestamp,
            remote_path: self.remote_path.clone(),
            local_path: self.local_path.clone(),
            transferred_files: self.transferred_files,
            elapsed_seconds: self.elapsed_seconds,
            status: self.status,
            message: self.message.clone(),
            ssh_host: self.ssh_host.clone(),
            ssh_user: self.ssh_user.clone(),
        }
    }
}

/// The log: its entries and running aggregate counters. The counters
/// count all recorded runs, also those whose entries were later
/// dropped by the cap.
#[derive(Debug, PartialEq, Eq)]
pub struct BackupHistory {
    pub entries: Vec<BackupHistoryEntry>,
    pub last_updated: u64,
    pub total_backups: usize,
    pub successful_backups: usize,
    pub failed_backups: usize,
}

/// How many entries of `s` carry status `st`.
pub open spec fn count_with_status(s: Seq<BackupHistoryEntry>, st: BackupStatus) -> nat
    decreases s,
{
    if s.len() == 0 {
        0
    } else {
        count_with_status(s.drop_last(), st) + if s.last().status == st {
            1nat
        } else {
            0nat
        }
    }
}

/// The sum of the entries' transferred-file counts.
pub open spec fn sum_files(s: Seq<BackupHistoryEntry>) -> int
    decreases s,
{
    if s.len() == 0 {
        0
    } else {
        sum_files(s.drop_last()) + s.last().transferred_files
    }
}

/// The sum of the entries' elapsed times.
pub open spec fn sum_time(s: Seq<BackupHistoryEntry>) -> int
    decreases s,
{
    if s.len() == 0 {
        0
    } else {
        sum_time(s.drop_last()) + s.last().elapsed_seconds
    }
}

/// The latest timestamp among the entries, zero when there are none.
pub open spec fn max_timestamp(s: Seq<BackupHistoryEntry>) -> int
    decreases s,
{
    if s.len() == 0 {
        0
    } else if s.last().timestamp >= max_timestamp(s.drop_last()) {
        s.last().timestamp as int
    } else {
        max_timestamp(s.drop_last())
    }
}

/// The entries of `s` with timestamps in `[start, end]`, in order.
pub open spec fn entries_in_range(s: Seq<BackupHistoryEntry>, start: u64, end: u64) -> Seq<
    BackupHistoryEntry,
>
    decreases s,
{
    if s.len() == 0 {
        s
    } else {
        let rest = entries_in_range(s.drop_last(), start, end);
        if start <= s.last().timestamp <= end {
            rest.push(s.last())
        } else {
            rest
        }
    }
}

/// The entries of `s` whose id differs from `id`, in order.
pub open spec fn entries_without_id(s: Seq<BackupHistoryEntry>, id: Seq<char>) -> Seq<
    BackupHistoryEntry,
>
    decreases s,
{
    if s.len() == 0 {
        s
    } else {
        let rest = entries_without_id(s.drop_last(), id);
        if s.last().id@ == id {
            rest
        } else {
            rest.push(s.last())
        }
    }
}

/// The entries are ordered newest first.
pub open spec fn sorted_desc(s: Seq<BackupHistoryEntry>) -> bool {
    forall|i: int, j: int|
        0 <= i <= j < s.len() ==> (#[trigger] s[i]).timestamp >= (#[trigger] s[j]).timestamp
}

/// Stepping the prefix of processed entries by one.
proof fn lemma_entry_take_step(s: Seq<BackupHistoryEntry>, i: int)
    requires
        0 <= i < s.len(),
    ensures
        s.take(i + 1).drop_last() == s.take(i),
        s.take(i + 1).last() == s[i],
        s.take(i + 1).len() == i + 1,
{
    assert(s.take(i + 1).drop_last() =~= s.take(i));
}

/// Aggregate statistics over the log, derived from its state. Ratios
/// and averages are left to the presentation layer.
#[derive(Debug, PartialEq, Eq)]
pub struct BackupStatistics {
    pub total_backups: usize,
    pub successful_backups: usize,
    pub failed_backups: usize,
    pub total_files_transferred: u64,
    pub total_time_spent: u64,
    pub last_backup_timestamp: u64,
}

/// `a + b`, capped at the largest representable value.
fn sat_add_u64(a: u64, b: u64) -> (r: u64)
    ensures
        r == if a + b > u64::MAX {
            u64::MAX as int
        } else {
            a + b
        },
{
    if a <= u64::MAX - b {
        a + b
    } else {
        u64::MAX
    }
}

/// Sort entries newest first by selection of the earliest maximum,
/// preserving the multiset of entries.
fn sort_entries_desc(input: Vec<BackupHistoryEntry>) -> (r: Vec<BackupHistoryEntry>)
    ensures
        sorted_desc(r@),
        r@.to_multiset() == input@.to_multiset(),
        r@.len() == input@.len(),
{
    let mut v = input;
    let ghost all = v@.to_multiset();
    let mut r: Vec<BackupHistoryEntry> = Vec::new();
    proof {
        assert(r@.to_multiset().add(v@.to_multiset()) =~= all);
    }
    while v.len() > 0
        invariant
            r@.to_multiset().add(v@.to_multiset()) == all,
            r@.len() + v@.len() == all.len(),
            sorted_desc(r@),
            forall|a: int, b: int|
                0 <= a < r@.len() && 0 <= b < v@.len() ==> (#[trigger] r@[a]).timestamp >= (
                #[trigger] v@[b]).timestamp,
        decreases v.len(),
    {
        let n = v.len();
        let mut m: usize = 0;
        let mut k: usize = 1;
        while k < n
            invariant
                n == v.len(),
                m < k <= n,
                forall|t: int| 0 <= t < k ==> v@[m as int].timestamp >= (#[trigger] v@[t]).timestamp,
            decreases n - k,
        {
            if v[k].timestamp > v[m].timestamp {
                m = k;
            }
            k = k + 1;
        }
        let ghost v_before = v@;
        let x = v.remove(m);
        let ghost r_before = r@;
        r.push(x);
        proof {
            assert(v@ == v_before.remove(m as int));
            assert(r@ == r_before.push(x));
            assert(v_before.to_multiset().contains(x));
            assert(r@.to_multiset() =~= r_before.to_multiset().insert(x));
            assert(v@.to_multiset() =~= v_before.to_multiset().remove(x));
            assert(r@.to_multiset().add(v@.to_multiset()) =~= all);
            assert forall|a: int, b: int|
                0 <= a < r@.len() && 0 <= b < v@.len() implies (#[trigger] r@[a]).timestamp >= (
            #[trigger] v@[b]).timestamp by {
                v_before.remove_ensures(m as int);
                if a < r_before.len() {
                    if b < m {
                        assert(v@[b] == v_before[b]);
                    } else {
                        assert(v@[b] == v_before[b + 1]);
                    }
                } else {
                    assert(r@[a] == x);
                    if b < m {
                        assert(v@[b] == v_before[b]);
                    } else {
                        assert(v@[b] == v_before[b + 1]);
                    }
                }
            }
            assert forall|i: int, j: int| 0 <= i <= j < r@.len() implies r@[i].timestamp
                >= r@[j].timestamp by {
                if j < r_before.len() {
                } else {
                    assert(r@[j] == x);
                }
            }
        }
    }
    proof {
        assert(v@.to_multiset() =~= Multiset::<BackupHistoryEntry>::empty());
        assert(r@.to_multiset() =~= all);
        assert(r@.to_multiset().len() == all.len());
    }
    r
}

/// The bounded history log with verified bookkeeping.
pub struct BackupHistoryManager {
    pub history: BackupHistory,
}

impl BackupHistoryManager {
    /// The log never holds more entries than the cap.
    pub open spec fn wf(self) -> bool {
        self.history.entries@.len() <= HISTORY_CAP
    }

    /// A fresh, empty log.
    pub fn new() -> (m: BackupHistoryManager)
        ensures
            m.wf(),
            m.history().entries@ == Seq::<BackupHistoryEntry>::empty(),
            m.history().last_updated == 0,
            m.history().total_backups == 0,
            m.history().successful_backups == 0,
            m.history().failed_backups == 0,
    {
        BackupHistoryManager {
            history: BackupHistory {
                entries: Vec::new(),
                last_updated: 0,
                total_backups: 0,
                successful_backups: 0,
                failed_backups: 0,
            },
        }
    }

    /// The log's current state.
    pub open spec fn history(self) -> BackupHistory {
        self.history
    }

    /// Record one backup run at time `now`: the entry is appended,
    /// the all-time counters grow, and when the cap is exceeded only
    /// the newest entries are retained, newest first.
    pub fn add_backup_entry(&mut self, entry: BackupHistoryEntry, now: u64)
        requires
            old(self).wf(),
        ensures
            final(self).wf(),
            final(self).history().last_updated == now,
            final(self).history().total_backups == if old(self).history().total_backups + 1
                > usize::MAX {
                usize::MAX as int
            } else {
                old(self).history().total_backups + 1
            },
            final(self).history().successful_backups == if entry.status == BackupStatus::Success {
                if old(self).history().successful_backups + 1 > usize::MAX {
                    usize::MAX as int
                } else {
                    old(self).history().successful_backups + 1
                }
            } else {
                old(self).history().successful_backups as int
            },
            final(self).history().failed_backups == if entry.status == BackupStatus::Failed {
                if old(self).history().failed_backups + 1 > usize::MAX {
                    usize::MAX as int
                } else {
                    old(self).history().failed_backups + 1
                }
            } else {
                old(self).history().failed_backups as int
            },
            old(self).history().entries@.len() < 100 ==> final(self).history().entries@ == old(self).history().entries@.push(entry),
            old(self).history().entries@.len() == 100 ==> final(self).history().entries@.len()
                == 100 && sorted_desc(final(self).history().entries@) && (forall|e: BackupHistoryEntry|
                final(self).history().entries@.to_multiset().count(e) <= old(self).history().entries@.push(entry).to_multiset().count(e)),
    {
        let ghost pushed = self.history.entries@.push(entry);
        let status = entry.status;
        self.history.entries.push(entry);
        self.history.total_backups = sat_add_usize(self.history.total_backups, 1);
        self.history.last_updated = now;
        match status {
            BackupStatus::Success => {
                self.history.successful_backups = sat_add_usize(self.history.successful_backups, 1);
            },
            BackupStatus::Failed => {
                self.history.failed_backups = sat_add_usize(self.history.failed_backups, 1);
            },
            BackupStatus::Cancelled => {},
        }
        if self.history.entries.len() > HISTORY_CAP {
            let mut drained: Vec<BackupHistoryEntry> = Vec::new();
            core::mem::swap(&mut self.history.entries, &mut drained);
            let mut sorted = sort_entries_desc(drained);
            let ghost sorted_seq = sorted@;
            sorted.truncate(HISTORY_CAP);
            proof {
                assert(sorted@ == sorted_seq.take(100));
                assert(sorted_seq =~= sorted_seq.take(100) + sorted_seq.skip(100));
                vstd::seq_lib::lemma_multiset_commutative(
                    sorted_seq.take(100),
                    sorted_seq.skip(100),
                );
                assert forall|e: BackupHistoryEntry|
                    sorted@.to_multiset().count(e) <= pushed.to_multiset().count(e) by {
                    assert(sorted_seq.to_multiset().count(e) == sorted_seq.take(
                        100,
                    ).to_multiset().count(e) + sorted_seq.skip(100).to_multiset().count(e));
                }
            }
            self.history.entries = sorted;
        }
    }

    /// The whole log.
    pub fn get_history(&self) -> (r: &BackupHistory)
        ensures
            *r == self.history(),
    {
        &self.history
    }

    /// The entries recorded between `start_timestamp` and
    /// `end_timestamp` inclusive, in log order.
    pub fn get_history_by_date_range(&self, start_timestamp: u64, end_timestamp: u64) -> (r: Vec<
        BackupHistoryEntry,
    >)
        ensures
            r@ == entries_in_range(self.history().entries@, start_timestamp, end_timestamp),
    {
        let mut r: Vec<BackupHistoryEntry> = Vec::new();
        let n = self.history.entries.len();
        let mut i: usize = 0;
        proof {
            assert(self.history.entries@.take(0) =~= Seq::<BackupHistoryEntry>::empty());
        }
        while i < n
            invariant
                n == self.history.entries@.len(),
                i <= n,
                r@ == entries_in_range(
                    self.history().entries@.take(i as int),
                    start_timestamp,
                    end_timestamp,
                ),
            decreases n - i,
        {
            proof {
                lemma_entry_take_step(self.history.entries@, i as int);
            }
            let e = &self.history.entries[i];
            if start_timestamp <= e.timestamp && e.timestamp <= end_timestamp {
                r.push(e.duplicate());
            }
            i = i + 1;
        }
        proof {
            assert(self.history.entries@.take(n as int) =~= self.history.entries@);
        }
        r
    }

    /// The most recent `limit` entries, newest first; every entry
    /// when `limit` is zero.
    pub fn get_recent_history(&self, limit: usize) -> (r: Vec<BackupHistoryEntry>)
        ensures
            sorted_desc(r@),
            forall|e: BackupHistoryEntry| r@.to_multiset().count(e)
                <= self.history().entries@.to_multiset().count(e),
            r@.len() == if limit > 0 && self.history().entries@.len() > limit {
                limit as int
            } else {
                self.history().entries@.len() as int
            },
    {
        let n = self.history.entries.len();
        let mut copies: Vec<BackupHistoryEntry> = Vec::new();
        let mut i: usize = 0;
        while i < n
            invariant
                n == self.history.entries@.len(),
                i <= n,
                copies@ == self.history.entries@.take(i as int),
            decreases n - i,
        {
            proof {
                lemma_entry_take_step(self.history.entries@, i as int);
            }
            copies.push(self.history.entries[i].duplicate());
            proof {
                assert(copies@ =~= self.history.entries@.take(i as int + 1));
            }
            i = i + 1;
        }
        proof {
            assert(self.history.entries@.take(n as int) =~= self.history.entries@);
        }
        let mut sorted = sort_entries_desc(copies);
        let ghost sorted_seq = sorted@;
        if limit > 0 && sorted.len() > limit {
            sorted.truncate(limit);
            proof {
                assert(sorted@ == sorted_seq.take(limit as int));
                assert(sorted_seq =~= sorted_seq.take(limit as int) + sorted_seq.skip(
                    limit as int,
                ));
                vstd::seq_lib::lemma_multiset_commutative(
                    sorted_seq.take(limit as int),
                    sorted_seq.skip(limit as int),
                );
                assert forall|e: BackupHistoryEntry|
                    sorted@.to_multiset().count(e) <= self.history().entries@.to_multiset().count(
                        e,
                    ) by {
                    assert(sorted_seq.to_multiset().count(e) == sorted_seq.take(
                        limit as int,
                    ).to_multiset().count(e) + sorted_seq.skip(limit as int).to_multiset().count(
                        e,
                    ));
                }
            }
        } else {
            proof {
                assert forall|e: BackupHistoryEntry|
                    sorted@.to_multiset().count(e) <= self.history().entries@.to_multiset().count(
                        e,
                    ) by {}
            }
        }
        sorted
    }

    /// Aggregate statistics of the log. Sums are capped at the
    /// largest representable value.
    pub fn get_statistics(&self) -> (r: BackupStatistics)
        ensures
            r.total_backups == self.history().total_backups,
            r.successful_backups == self.history().successful_backups,
            r.failed_backups == self.history().failed_backups,
            r.total_files_transferred == if sum_files(self.history().entries@) > u64::MAX {
                u64::MAX as int
            } else {
                sum_files(self.history().entries@)
            },
            r.total_time_spent == if sum_time(self.history().entries@) > u64::MAX {
                u64::MAX as int
            } else {
                sum_time(self.history().entries@)
            },
            r.last_backup_timestamp == max_timestamp(self.history().entries@),
    {
        let n = self.history.entries.len();
        let mut files: u64 = 0;
        let mut time: u64 = 0;
        let mut last: u64 = 0;
        let mut i: usize = 0;
        proof {
            assert(self.history.entries@.take(0) =~= Seq::<BackupHistoryEntry>::empty());
        }
        while i < n
            invariant
                n == self.history.entries@.len(),
                i <= n,
                files == if sum_files(self.history().entries@.take(i as int)) > u64::MAX {
                    u64::MAX as int
                } else {
                    sum_files(self.history().entries@.take(i as int))
                },
                time == if sum_time(self.history().entries@.take(i as int)) > u64::MAX {
                    u64::MAX as int
                } else {
                    sum_time(self.history().entries@.take(i as int))
                },
                last == max_timestamp(self.history().entries@.take(i as int)),
            decreases n - i,
        {
            proof {
                lemma_entry_take_step(self.history.entries@, i as int);
                assert(sum_files(self.history().entries@.take(i as int)) >= 0);
                assert(sum_time(self.history().entries@.take(i as int)) >= 0);
            }
            let e = &self.history.entries[i];
            files = sat_add_u64(files, e.transferred_files as u64);
            time = sat_add_u64(time, e.elapsed_seconds);
            if e.timestamp > last {
                last = e.timestamp;
            }
            i = i + 1;
        }
        proof {
            assert(self.history.entries@.take(n as int) =~= self.history.entries@);
        }
        BackupStatistics {
            total_backups: self.history.total_backups,
            successful_backups: self.history.successful_backups,
            failed_backups: self.history.failed_backups,
            total_files_transferred: files,
            total_time_spent: time,
            last_backup_timestamp: last,
        }
    }

    /// Empty the log and reset every counter.
    pub fn clear_history(&mut self)
        ensures
            final(self).wf(),
            final(self).history().entries@ == Seq::<BackupHistoryEntry>::empty(),
            final(self).history().last_updated == 0,
            final(self).history().total_backups == 0,
            final(self).history().successful_backups == 0,
            final(self).history().failed_backups == 0,
    {
        self.history = BackupHistory {
            entries: Vec::new(),
            last_updated: 0,
            total_backups: 0,
            successful_backups: 0,
            failed_backups: 0,
        };
        proof {
            assert(self.history.entries@ =~= Seq::<BackupHistoryEntry>::empty());
        }
    }

    /// Remove the entries recorded under `entry_id` and recompute the
    /// statistics from what remains; reports whether anything was
    /// removed. An untouched log is left exactly as it was.
    pub fn delete_backup_entry(&mut self, entry_id: &str, now: u64) -> (removed: bool)
        requires
            old(self).wf(),
        ensures
            final(self).wf(),
            removed == exists|i: int|
                0 <= i < old(self).history().entries@.len() && (#[trigger] old(self).history().entries@[i]).id@ == entry_id@,
            !removed ==> *final(self) == *old(self),
            removed ==> final(self).history().entries@ == entries_without_id(
                old(self).history().entries@,
                entry_id@,
            ),
            removed ==> final(self).history().total_backups == final(self).history().entries@.len() && final(self).history().successful_backups
                == count_with_status(final(self).history().entries@, BackupStatus::Success)
                && final(self).history().failed_backups == count_with_status(
                final(self).history().entries@,
                BackupStatus::Failed,
            ) && final(self).history().last_updated == now,
    {
        let n = self.history.entries.len();
        let mut kept: Vec<BackupHistoryEntry> = Vec::new();
        let mut found = false;
        let mut i: usize = 0;
        proof {
            assert(self.history.entries@.take(0) =~= Seq::<BackupHistoryEntry>::empty());
        }
        while i < n
            invariant
                n == self.history.entries@.len(),
                i <= n,
                kept@ == entries_without_id(self.history().entries@.take(i as int), entry_id@),
                kept@.len() <= i,
                found == exists|k: int|
                    0 <= k < i && (#[trigger] self.history().entries@[k]).id@ == entry_id@,
            decreases n - i,
        {
            proof {
                lemma_entry_take_step(self.history.entries@, i as int);
            }
            let e = &self.history.entries[i];
            if str_eq(e.id.as_str(), entry_id) {
                found = true;
                proof {
                    assert((self.history().entries@[i as int]).id@ == entry_id@);
                }
            } else {
                kept.push(e.duplicate());
            }
            i = i + 1;
        }
        proof {
            assert(self.history.entries@.take(n as int) =~= self.history.entries@);
        }
        if found {
            self.history.entries = kept;
            self.recalculate_statistics(now);
        }
        found
    }

    /// Recompute every counter from the retained entries.
    pub fn recalculate_statistics(&mut self, now: u64)
        requires
            old(self).wf(),
        ensures
            final(self).wf(),
            final(self).history().entries == old(self).history().entries,
            final(self).history().total_backups == final(self).history().entries@.len(),
            final(self).history().successful_backups == count_with_status(
                final(self).history().entries@,
                BackupStatus::Success,
            ),
            final(self).history().failed_backups == count_with_status(
                final(self).history().entries@,
                BackupStatus::Failed,
            ),
            final(self).history().last_updated == now,
    {
        let n = self.history.entries.len();
        let mut ok: usize = 0;
        let mut bad: usize = 0;
        let mut i: usize = 0;
        proof {
            assert(self.history.entries@.take(0) =~= Seq::<BackupHistoryEntry>::empty());
        }
        while i < n
            invariant
                n == self.history.entries@.len(),
                i <= n,
                ok == count_with_status(self.history().entries@.take(i as int), BackupStatus::Success),
                bad == count_with_status(self.history().entries@.take(i as int), BackupStatus::Failed),
                ok + bad <= i,
            decreases n - i,
        {
            proof {
                lemma_entry_take_step(self.history.entries@, i as int);
            }
            match self.history.entries[i].status {
                BackupStatus::Success => {
                    ok = ok + 1;
                },
                BackupStatus::Failed => {
                    bad = bad + 1;
                },
                BackupStatus::Cancelled => {},
            }
            i = i + 1;
        }
        proof {
            assert(self.history.entries@.take(n as int) =~= self.history.entries@);
        }
        self.history.total_backups = n;
        self.history.successful_backups = ok;
        self.history.failed_backups = bad;
        self.history.last_updated = now;
    }
}

/// `a + b`, capped at the largest representable value.
fn sat_add_usize(a: usize, b: usize) -> (r: usize)
    ensures
        r == if a + b > usize::MAX {
            usize::MAX as int
        } else {
            a + b
        },
{
    if a <= usize::MAX - b {
        a + b
    } else {
        usize::MAX
    }
}

/// Character-for-character string equality.
fn str_eq(a: &str, b: &str) -> (r: bool)
    ensures
        r == (a@ == b@),
{
    let n = a.unicode_len();
    if n != b.unicode_len() {
        return false;
    }
    let mut i: usize = 0;
    while i < n
        invariant
            n == a@.len() == b@.len(),
            i <= n,
            forall|k: int| 0 <= k < i ==> a@[k] == b@[k],
        decreases n - i,
    {
        if a.get_char(i) != b.get_char(i) {
            return false;
        }
        i = i + 1;
    }
    proof {
        assert(a@ =~= b@);
    }
    true
}

} // verus!

//! The recursive transfer engine for live sessions, as an explicit
//! work-list state machine: the engine decides every step — depth
//! guard, hidden-entry policy, cancellation checkpoints, per-file
//! timeout tier, counters, throttled progress — and the surrounding
//! application performs the transport actions (listing, creating
//! local directories, streaming files) and feeds the results back.

use vstd::prelude::*;
use vstd::string::StringExecFns;
use crate::errors::{BackupError, TransferOutcome};
use crate::limits::{calculate_file_timeout, spec_file_timeout};
use crate::mirror::{build_success_message, spec_success_message};
use crate::text::{is_hidden_name, join_path, spec_is_hidden};
use crate::throttle::{spec_due, BackupProgress, ProgressThrottle};

verus! {

/// One unit of pending work: a directory to mirror, or a file to
/// transfer.
pub enum Task {
    EnterDir { remote_dir: String, local_dir: String, depth: u64 },
    TransferFile { remote_path: String, local_path: String, size: u64 },
}

/// The mathematical content of a task: its paths as character
/// sequences, its kind, and its numbers.
pub struct TaskV {
    pub is_file: bool,
    pub remote: Seq<char>,
    pub local: Seq<char>,
    pub depth: u64,
    pub size: u64,
}

/// The view of a task.
pub open spec fn task_view(t: Task) -> TaskV {
    match t {
        Task::EnterDir { remote_dir, local_dir, depth } => TaskV {
            is_file: false,
            remote: remote_dir@,
            local: local_dir@,
            depth,
            size: 0,
        },
        Task::TransferFile { remote_path, local_path, size } => TaskV {
            is_file: true,
            remote: remote_path@,
            local: local_path@,
            depth: 0,
            size,
        },
    }
}

/// What the application must do next.
pub enum EngineAction {
    /// Create the local directory, then list the remote directory and
    /// report its entries.
    ListDir { remote_dir: String, local_dir: String },
    /// Stream one remote file to one local file under the given
    /// deadline and report the outcome.
    Transfer { remote_path: String, local_path: String, timeout_secs: u64 },
    /// The invocation is over; exactly one outcome.
    Finished { outcome: TransferOutcome },
}

/// One listed entry of a remote directory, as plain values.
pub struct ListedEntry {
    pub name: String,
    pub is_file: bool,
    pub size: u64,
}

/// The task views pushed for a directory's entries: hidden entries
/// contribute nothing; the rest are pushed in reverse listing order,
/// so the first entry ends on top and the traversal is depth-first in
/// listing order. Directories descend one level deeper.
pub open spec fn rev_task_views(
    s: Seq<ListedEntry>,
    rd: Seq<char>,
    ld: Seq<char>,
    depth: u64,
) -> Seq<TaskV>
    decreases s,
{
    if s.len() == 0 {
        Seq::empty()
    } else {
        rev_task_views(s.drop_first(), rd, ld, depth) + entry_task_views(s.first(), rd, ld, depth)
    }
}

/// The task views (none or one) of a single listed entry.
pub open spec fn entry_task_views(e: ListedEntry, rd: Seq<char>, ld: Seq<char>, depth: u64) -> Seq<
    TaskV,
> {
    if spec_is_hidden(e.name@) {
        Seq::empty()
    } else if e.is_file {
        seq![
            TaskV {
                is_file: true,
                remote: rd + seq!['/'] + e.name@,
                local: ld + seq!['/'] + e.name@,
                depth: 0,
                size: e.size,
            },
        ]
    } else {
        seq![
            TaskV {
                is_file: false,
                remote: rd + seq!['/'] + e.name@,
                local: ld + seq!['/'] + e.name@,
                depth: (depth + 1) as u64,
                size: 0,
            },
        ]
    }
}

/// Hidden entries never become work: every task view produced for a
/// directory's entries stems from some listed entry whose name does
/// not start with a dot, and both of its paths extend the
/// directory's paths by exactly that name.
pub proof fn lemma_hidden_entries_never_become_work(
    s: Seq<ListedEntry>,
    rd: Seq<char>,
    ld: Seq<char>,
    depth: u64,
    v: TaskV,
)
    requires
        rev_task_views(s, rd, ld, depth).contains(v),
    ensures
        exists|i: int|
            0 <= i < s.len() && !spec_is_hidden(#[trigger] s[i].name@) && v.remote == rd
                + seq!['/'] + s[i].name@ && v.local == ld + seq!['/'] + s[i].name@,
    decreases s,
{
    if s.len() > 0 {
        let head = entry_task_views(s.first(), rd, ld, depth);
        let rest = rev_task_views(s.drop_first(), rd, ld, depth);
        if rest.contains(v) {
            lemma_hidden_entries_never_become_work(s.drop_first(), rd, ld, depth, v);
            let j = choose|j: int|
                0 <= j < s.drop_first().len() && !spec_is_hidden(
                    #[trigger] s.drop_first()[j].name@,
                ) && v.remote == rd + seq!['/'] + s.drop_first()[j].name@ && v.local == ld
                    + seq!['/'] + s.drop_first()[j].name@;
            assert(s[j + 1] == s.drop_first()[j]);
            assert(!spec_is_hidden(s[j + 1].name@));
        } else {
            assert(head.len() > 0 && v == head[0]);
            assert(s[0] == s.first());
            assert(!spec_is_hidden(s[0].name@));
        }
    }
}

/// The state of one backup invocation over a live session.
pub struct BackupEngine {
    /// Pending work, top of the stack last.
    pub stack: Vec<Task>,
    /// A directory whose listing the application owes the engine.
    pub pending: Option<Task>,
    /// Files fully transferred so far.
    pub transferred_files: u64,
    /// Bytes of fully transferred files so far.
    pub transferred_bytes: u64,
    /// The progress rate limiter.
    pub throttle: ProgressThrottle,
    /// The remote root, kept for the final summary.
    pub remote_root: String,
    /// The local root, kept for the final summary.
    pub local_root: String,
}

impl BackupEngine {
    /// A fresh invocation rooted at the given pair of paths.
    pub fn new(remote_root: String, local_root: String, now_ms: u64) -> (e: BackupEngine)
        ensures
            e.stack@.len() == 1,
            (e.stack@[0] matches Task::EnterDir { remote_dir, local_dir, depth } && remote_dir@
                == remote_root@ && local_dir@ == local_root@ && depth == 0),
            e.pending is None,
            e.transferred_files == 0,
            e.transferred_bytes == 0,
            e.remote_root@ == remote_root@,
            e.local_root@ == local_root@,
            e.throttle.start_ms == now_ms,
            e.throttle.last_update_ms == now_ms,
            e.throttle.last_bytes == 0,
    {
        let mut stack: Vec<Task> = Vec::new();
        stack.push(
            Task::EnterDir {
                remote_dir: remote_root.clone(),
                local_dir: local_root.clone(),
                depth: 0,
            },
        );
        BackupEngine {
            stack,
            pending: None,
            transferred_files: 0,
            transferred_bytes: 0,
            throttle: ProgressThrottle::new(now_ms),
            remote_root,
            local_root,
        }
    }

    /// Decide the next step. The cancellation flag's current value is
    /// polled at every step — the start of each directory and before
    /// each file transfer — and a set flag ends the invocation with
    /// the distinguished cancelled outcome. An exhausted work list
    /// ends it with the summary of a success; a directory below the
    /// depth bound ends it with the distinct too-deep failure.
    pub fn next_task(&mut self, cancelled: bool) -> (a: EngineAction)
        requires
            old(self).pending is None,
        ensures
            final(self).transferred_files == old(self).transferred_files,
            final(self).transferred_bytes == old(self).transferred_bytes,
            final(self).throttle == old(self).throttle,
            final(self).remote_root == old(self).remote_root,
            final(self).local_root == old(self).local_root,
            cancelled ==> a == (EngineAction::Finished {
                outcome: TransferOutcome::Cancelled {
                    transferred_files: old(self).transferred_files,
                },
            }) && *final(self) == *old(self),
            !cancelled && old(self).stack@.len() == 0 ==> (a matches EngineAction::Finished {
                outcome,
            } && (outcome matches TransferOutcome::Success { transferred_files, message } &&
            transferred_files == old(self).transferred_files && message@ == spec_success_message(
                old(self).transferred_files as int,
                old(self).remote_root@,
                old(self).local_root@,
            ))) && final(self).stack@ == old(self).stack@ && final(self).pending is None,
            !cancelled && old(self).stack@.len() > 0 ==> final(self).stack@ == old(
                self,
            ).stack@.drop_last(),
            !cancelled && old(self).stack@.len() > 0 ==> (old(self).stack@.last() matches
                Task::EnterDir { remote_dir, local_dir, depth } ==> if depth > 50 {
                (a matches EngineAction::Finished { outcome } && (outcome matches
                    TransferOutcome::Failed { error } && (error matches
                    BackupError::RecursionTooDeep { remote_path } && remote_path@ == remote_dir@)))
                    && final(self).pending is None
            } else {
                (a matches EngineAction::ListDir { remote_dir: rd, local_dir: ld } && rd@
                    == remote_dir@ && ld@ == local_dir@) && (final(self).pending matches Some(t)
                    && task_view(t) == task_view(old(self).stack@.last()))
            }),
            !cancelled && old(self).stack@.len() > 0 ==> (old(self).stack@.last() matches
                Task::TransferFile { remote_path, local_path, size } ==> (a matches
                EngineAction::Transfer { remote_path: rp, local_path: lp, timeout_secs } && rp@
                == remote_path@ && lp@ == local_path@ && timeout_secs == spec_file_timeout(size))
                && final(self).pending is None),
    {
        if cancelled {
            return EngineAction::Finished {
                outcome: TransferOutcome::Cancelled { transferred_files: self.transferred_files },
            };
        }
        let popped = self.stack.pop();
        match popped {
            Option::None => {
                let message = build_success_message(
                    self.transferred_files,
                    self.remote_root.as_str(),
                    self.local_root.as_str(),
                );
                EngineAction::Finished {
                    outcome: TransferOutcome::Success {
                        transferred_files: self.transferred_files,
                        message,
                    },
                }
            },
            Option::Some(task) => {
                match task {
                    Task::EnterDir { remote_dir, local_dir, depth } => {
                        if depth > 50 {
                            EngineAction::Finished {
                                outcome: TransferOutcome::Failed {
                                    error: BackupError::RecursionTooDeep {
                                        remote_path: remote_dir,
                                    },
                                },
                            }
                        } else {
                            let rd = remote_dir.clone();
                            let ld = local_dir.clone();
                            self.pending = Some(
                                Task::EnterDir { remote_dir, local_dir, depth },
                            );
                            EngineAction::ListDir { remote_dir: rd, local_dir: ld }
                        }
                    },
                    Task::TransferFile { remote_path, local_path, size } => {
                        let timeout_secs = calculate_file_timeout(size);
                        EngineAction::Transfer { remote_path, local_path, timeout_secs }
                    },
                }
            },
        }
    }

    /// Hand the engine the listing of the directory it asked for: its
    /// visible entries become pending work, first entry on top;
    /// hidden entries are dropped here and never reach an action.
    pub fn on_listed(&mut self, entries: &Vec<ListedEntry>)
        requires
            old(self).pending matches Some(t) && (t matches Task::EnterDir { depth, .. } && depth
                < 1000),
        ensures
            final(self).pending is None,
            final(self).transferred_files == old(self).transferred_files,
            final(self).transferred_bytes == old(self).transferred_bytes,
            final(self).throttle == old(self).throttle,
            final(self).remote_root == old(self).remote_root,
            final(self).local_root == old(self).local_root,
            (old(self).pending matches Some(t) && t matches Task::EnterDir {
                remote_dir,
                local_dir,
                depth,
            } ==> final(self).stack@.map_values(|t2: Task| task_view(t2)) == old(
                self,
            ).stack@.map_values(|t2: Task| task_view(t2)) + rev_task_views(
                entries@,
                remote_dir@,
                local_dir@,
                depth,
            )),
    {
        let mut taken: Option<Task> = None;
        core::mem::swap(&mut self.pending, &mut taken);
        match taken {
            Option::Some(Task::EnterDir { remote_dir, local_dir, depth }) => {
                let n = entries.len();
                let mut k: usize = n;
                proof {
                    assert(entries@.skip(n as int) =~= Seq::<ListedEntry>::empty());
                    assert(self.stack@.map_values(|t2: Task| task_view(t2)) =~= self.stack@.map_values(
                        |t2: Task| task_view(t2),
                    ) + rev_task_views(entries@.skip(n as int), remote_dir@, local_dir@, depth));
                }
                let ghost base = self.stack@.map_values(|t2: Task| task_view(t2));
                while k > 0
                    invariant
                        n == entries@.len(),
                        k <= n,
                        depth < 1000,
                        self.stack@.map_values(|t2: Task| task_view(t2)) == base + rev_task_views(
                            entries@.skip(k as int),
                            remote_dir@,
                            local_dir@,
                            depth,
                        ),
                        self.pending is None,
                        self.transferred_files == old(self).transferred_files,
                        self.transferred_bytes == old(self).transferred_bytes,
                        self.throttle == old(self).throttle,
                        self.remote_root == old(self).remote_root,
                        self.local_root == old(self).local_root,
                    decreases k,
                {
                    k = k - 1;
                    proof {
                        assert(entries@.skip(k as int).drop_first() =~= entries@.skip(
                            k as int + 1,
                        ));
                        assert(entries@.skip(k as int).first() == entries@[k as int]);
                    }
                    let e = &entries[k];
                    let ghost before = self.stack@.map_values(|t2: Task| task_view(t2));
                    if !is_hidden_name(e.name.as_str()) {
                        let remote_child = join_path(remote_dir.as_str(), e.name.as_str());
                        let local_child = join_path(local_dir.as_str(), e.name.as_str());
                        if e.is_file {
                            let t = Task::TransferFile {
                                remote_path: remote_child,
                                local_path: local_child,
                                size: e.size,
                            };
                            let ghost tv = task_view(t);
                            self.stack.push(t);
                            proof {
                                assert(self.stack@.map_values(|t2: Task| task_view(t2))
                                    =~= before.push(tv));
                                assert(before.push(tv) =~= base + rev_task_views(
                                    entries@.skip(k as int),
                                    remote_dir@,
                                    local_dir@,
                                    depth,
                                ));
                            }
                        } else {
                            let t = Task::EnterDir {
                                remote_dir: remote_child,
                                local_dir: local_child,
                                depth: depth + 1,
                            };
                            let ghost tv = task_view(t);
                            self.stack.push(t);
                            proof {
                                assert(self.stack@.map_values(|t2: Task| task_view(t2))
                                    =~= before.push(tv));
                                assert(before.push(tv) =~= base + rev_task_views(
                                    entries@.skip(k as int),
                                    remote_dir@,
                                    local_dir@,
                                    depth,
                                ));
                            }
                        }
                    } else {
                        proof {
                            assert(entry_task_views(entries@[k as int], remote_dir@, local_dir@, depth)
                                =~= Seq::<TaskV>::empty());
                            assert(before =~= base + rev_task_views(
                                entries@.skip(k as int),
                                remote_dir@,
                                local_dir@,
                                depth,
                            ));
                        }
                    }
                }
                proof {
                    assert(entries@.skip(0) =~= entries@);
                }
            },
            _ => {
                proof {
                    assert(false);
                }
            },
        }
    }

    /// Record one fully transferred file, counters capped at their
    /// largest representable values. Progress counts completed files
    /// only, so it never decreases and never counts a file twice.
    pub fn on_transferred(&mut self, bytes: u64)
        ensures
            final(self).transferred_files == if old(self).transferred_files + 1 > u64::MAX {
                u64::MAX as int
            } else {
                old(self).transferred_files + 1
            },
            final(self).transferred_bytes == if old(self).transferred_bytes + bytes > u64::MAX {
                u64::MAX as int
            } else {
                old(self).transferred_bytes + bytes
            },
            final(self).stack == old(self).stack,
            final(self).pending == old(self).pending,
            final(self).throttle == old(self).throttle,
            final(self).remote_root == old(self).remote_root,
            final(self).local_root == old(self).local_root,
    {
        if self.transferred_files < u64::MAX {
            self.transferred_files = self.transferred_files + 1;
        }
        if self.transferred_bytes <= u64::MAX - bytes {
            self.transferred_bytes = self.transferred_bytes + bytes;
        } else {
            self.transferred_bytes = u64::MAX;
        }
    }

    /// Offer a progress snapshot before a file transfer; the throttle
    /// decides whether one is due.
    pub fn maybe_progress(&mut self, now_ms: u64, current_file: &str) -> (r: Option<
        BackupProgress,
    >)
        ensures
            final(self).stack == old(self).stack,
            final(self).pending == old(self).pending,
            final(self).transferred_files == old(self).transferred_files,
            final(self).transferred_bytes == old(self).transferred_bytes,
            final(self).remote_root == old(self).remote_root,
            final(self).local_root == old(self).local_root,
            r is Some <==> spec_due(old(self).throttle, now_ms, old(self).transferred_bytes),
            r matches Some(p) ==> p.transferred_files == (if old(self).transferred_files
                > usize::MAX {
                usize::MAX as int
            } else {
                old(self).transferred_files as int
            }) && p.transferred_bytes == old(self).transferred_bytes && p.total_files is None && (
            p.current_file matches Some(f) && f@ == current_file@) && p.phase@ == "transferring"@,
    {
        let due = self.throttle.should_update(now_ms, self.transferred_bytes);
        if due {
            let elapsed = self.throttle.get_elapsed_seconds(now_ms);
            let speed = self.throttle.calculate_speed(now_ms, self.transferred_bytes);
            Some(
                BackupProgress {
                    phase: String::from_str("transferring"),
                    transferred_files: if self.transferred_files > (usize::MAX as u64) {
                        usize::MAX
                    } else {
                        self.transferred_files as usize
                    },
                    total_files: None,
                    transferred_bytes: self.transferred_bytes,
                    current_file: Some(String::from_str(current_file)),
                    elapsed_seconds: elapsed,
                    transfer_speed: speed,
                },
            )
        } else {
            None
        }
    }

    /// The final snapshot of a completed run: the total is now known.
    pub fn final_progress(&self, now_ms: u64) -> (p: BackupProgress)
        ensures
            p.phase@ == "complete"@,
            p.transferred_bytes == self.transferred_bytes,
            p.total_files is Some,
            p.current_file is None,
    {
        let files: usize = if self.transferred_files > (usize::MAX as u64) {
            usize::MAX
        } else {
            self.transferred_files as usize
        };
        BackupProgress {
            phase: String::from_str("complete"),
            transferred_files: files,
            total_files: Some(files),
            transferred_bytes: self.transferred_bytes,
            current_file: None,
            elapsed_seconds: self.throttle.get_elapsed_seconds(now_ms),
            transfer_speed: self.throttle.calculate_speed(now_ms, self.transferred_bytes),
        }
    }
}

} // verus!

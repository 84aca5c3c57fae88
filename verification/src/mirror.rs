//! The depth-first mirroring engine, verified over the modelled
//! remote tree and local store: it skips hidden entries, guards the
//! recursion depth, polls cancellation at the start of each
//! directory's entry loop and before each file transfer, and counts
//! the files it completes.

use vstd::prelude::*;
use vstd::string::StrSliceExecFns;
use crate::errors::{BackupError, TransferOutcome};
use crate::store::{child_path, LocalStore};
use crate::text::{is_hidden_name, spec_is_hidden};
use crate::tree::{
    dirs_set_entries, dirs_set_entry, dirs_set_node, entry_count, entry_fits, files_map_entries,
    files_map_entry, files_map_node, fits_depth, fits_depth_entries, visible_count,
    visible_count_entries, visible_under, FsEntry, FsNode, PathSpec,
};

verus! {

broadcast use vstd::std_specs::vec::axiom_vec_decreases_to_view;

/// A deterministic stand-in for the shared cancellation flag: the
/// number of checkpoint polls that observe the flag clear before
/// every later poll observes it set, or `None` for a flag that is
/// never set.
pub struct CancelScript {
    pub checks_before_cancel: Option<u64>,
}

impl CancelScript {
    /// The flag is never set during the run.
    pub open spec fn never(self) -> bool {
        self.checks_before_cancel is None
    }

    /// The next poll observes the flag set.
    pub open spec fn fires_now(self) -> bool {
        self.checks_before_cancel == Some(0u64)
    }

    /// A flag that is never set.
    pub fn new_never() -> (s: CancelScript)
        ensures
            s.never(),
    {
        CancelScript { checks_before_cancel: None }
    }

    /// A flag that is observed set from the `polls`-th checkpoint on.
    pub fn new_after(polls: u64) -> (s: CancelScript)
        ensures
            s.checks_before_cancel == Some(polls),
    {
        CancelScript { checks_before_cancel: Some(polls) }
    }

    /// One checkpoint poll of the flag. Once set, the flag stays set.
    pub fn poll(&mut self) -> (cancelled: bool)
        ensures
            cancelled == old(self).fires_now(),
            final(self).checks_before_cancel == match old(self).checks_before_cancel {
                Option::None => Option::<u64>::None,
                Option::Some(k) => if k == 0 {
                    Option::Some(0u64)
                } else {
                    Option::Some((k - 1) as u64)
                },
            },
            final(self).never() == old(self).never(),
    {
        match self.checks_before_cancel {
            Option::None => false,
            Option::Some(k) => {
                if k == 0 {
                    true
                } else {
                    self.checks_before_cancel = Some(k - 1);
                    false
                }
            },
        }
    }
}

/// How one directory level of the traversal ended.
#[derive(Clone, Copy, Debug, PartialEq, Eq, Structural)]
pub enum SyncStatus {
    /// Every visible entry was mirrored.
    Done,
    /// A checkpoint observed the cancellation flag set.
    Cancelled,
    /// A visible directory lay below the depth bound.
    TooDeep,
}

/// Stepping the prefix of processed entries by one.
proof fn lemma_take_step(s: Seq<FsEntry>, i: int, at: PathSpec, levels: int)
    requires
        0 <= i < s.len(),
    ensures
        visible_count_entries(s.take(i + 1)) == visible_count_entries(s.take(i)) + entry_count(
            s[i],
        ),
        files_map_entries(s.take(i + 1), at) == files_map_entries(
            s.take(i),
            at,
        ).union_prefer_right(files_map_entry(s[i], at)),
        dirs_set_entries(s.take(i + 1), at) == dirs_set_entries(s.take(i), at).union(
            dirs_set_entry(s[i], at),
        ),
        fits_depth_entries(s.take(i + 1), levels) == (fits_depth_entries(s.take(i), levels)
            && entry_fits(s[i], levels)),
{
    assert(s.take(i + 1).drop_last() =~= s.take(i));
    assert(s.take(i + 1).last() == s[i]);
}

/// A processed prefix never holds more visible files than the whole.
proof fn lemma_count_take_le(s: Seq<FsEntry>, i: int)
    requires
        0 <= i <= s.len(),
    ensures
        visible_count_entries(s.take(i)) <= visible_count_entries(s),
    decreases s.len() - i,
{
    if i == s.len() {
        assert(s.take(i) =~= s);
    } else {
        lemma_take_step(s, i, Seq::empty(), 0);
        lemma_count_take_le(s, i + 1);
    }
}

/// When a directory's entries fit, each single entry fits.
proof fn lemma_fits_each(s: Seq<FsEntry>, levels: int, i: int)
    requires
        fits_depth_entries(s, levels),
        0 <= i < s.len(),
    ensures
        entry_fits(s[i], levels),
    decreases s,
{
    if i < s.len() - 1 {
        assert(s.drop_last()[i] == s[i]);
        lemma_fits_each(s.drop_last(), levels, i);
    }
}

/// A path below a visible child of `at` lies visibly below `at`.
proof fn lemma_visible_under_extend(p: PathSpec, at: PathSpec, n: Seq<char>)
    requires
        visible_under(p, at.push(n)),
        !spec_is_hidden(n),
    ensures
        visible_under(p, at),
{
    let b = at.push(n);
    assert(p.subrange(0, b.len() as int) == b);
    assert forall|k: int| 0 <= k < at.len() implies p[k] == at[k] by {
        assert(p.subrange(0, b.len() as int)[k] == p[k]);
        assert(b[k] == at[k]);
    }
    assert(p.subrange(0, at.len() as int) =~= at);
    assert(p[at.len() as int] == p.subrange(0, b.len() as int)[at.len() as int]);
    assert(p[at.len() as int] == n);
}

/// A visible child path lies visibly below `at`.
proof fn lemma_child_visible(at: PathSpec, n: Seq<char>)
    requires
        !spec_is_hidden(n),
    ensures
        visible_under(at.push(n), at),
{
    let p = at.push(n);
    assert(p.subrange(0, at.len() as int) =~= at);
    assert(p[at.len() as int] == n);
}

/// Every file path a mirror of `node` at `at` contains is `at` itself
/// (when the node is a file) or lies visibly below `at`.
proof fn lemma_files_keys_node(node: FsNode, at: PathSpec, p: PathSpec)
    requires
        files_map_node(node, at).contains_key(p),
    ensures
        p == at || visible_under(p, at),
    decreases node,
{
    match node {
        FsNode::File { .. } => {
            assert(p == at);
        },
        FsNode::Dir { entries } => {
            lemma_files_keys_entries(entries@, at, p);
        },
    }
}

/// Every file path mirrored from a directory's entries lies visibly
/// below the directory.
proof fn lemma_files_keys_entries(s: Seq<FsEntry>, at: PathSpec, p: PathSpec)
    requires
        files_map_entries(s, at).contains_key(p),
    ensures
        visible_under(p, at),
    decreases s,
{
    let e = s.last();
    if files_map_entry(e, at).contains_key(p) {
        let child = at.push(e.name@);
        lemma_files_keys_node(e.node, child, p);
        if p == child {
            lemma_child_visible(at, e.name@);
        } else {
            lemma_visible_under_extend(p, at, e.name@);
        }
    } else {
        lemma_files_keys_entries(s.drop_last(), at, p);
    }
}

/// Every directory path a mirror of `node` at `at` creates lies
/// visibly below `at`.
proof fn lemma_dirs_keys_node(node: FsNode, at: PathSpec, p: PathSpec)
    requires
        dirs_set_node(node, at).contains(p),
    ensures
        visible_under(p, at),
    decreases node,
{
    match node {
        FsNode::File { .. } => {},
        FsNode::Dir { entries } => {
            lemma_dirs_keys_entries(entries@, at, p);
        },
    }
}

/// Every directory path mirrored from a directory's entries lies
/// visibly below the directory.
proof fn lemma_dirs_keys_entries(s: Seq<FsEntry>, at: PathSpec, p: PathSpec)
    requires
        dirs_set_entries(s, at).contains(p),
    ensures
        visible_under(p, at),
    decreases s,
{
    let e = s.last();
    if dirs_set_entry(e, at).contains(p) {
        let child = at.push(e.name@);
        if p == child {
            lemma_child_visible(at, e.name@);
        } else {
            lemma_dirs_keys_node(e.node, child, p);
            lemma_visible_under_extend(p, at, e.name@);
        }
    } else {
        lemma_dirs_keys_entries(s.drop_last(), at, p);
    }
}

/// Mirror the entries of one remote directory into `store` below
/// `local_dir`, depth-first and in order, skipping hidden entries.
/// `depth` is the directory's level below the backup root.
pub fn sync_entries(
    entries: &Vec<FsEntry>,
    store: &mut LocalStore,
    local_dir: &Vec<String>,
    depth: u64,
    script: &mut CancelScript,
    files: &mut u64,
) -> (r: SyncStatus)
    requires
        old(store).wf(),
        depth <= 50,
        *old(files) + visible_count_entries(entries@) <= u64::MAX,
    ensures
        final(store).wf(),
        *old(files) <= *final(files),
        *final(files) - *old(files) <= visible_count_entries(entries@),
        final(script).never() == old(script).never(),
        forall|p: PathSpec| #[trigger]
            old(store).files_view().contains_key(p) ==> final(store).files_view().contains_key(p),
        forall|p: PathSpec| #[trigger]
            old(store).dirs_view().contains(p) ==> final(store).dirs_view().contains(p),
        forall|p: PathSpec| #[trigger]
            final(store).files_view().contains_key(p) ==> old(store).files_view().contains_key(p)
                || visible_under(p, local_dir.deep_view()),
        forall|p: PathSpec| #[trigger]
            final(store).dirs_view().contains(p) ==> old(store).dirs_view().contains(p)
                || visible_under(p, local_dir.deep_view()),
        r == SyncStatus::Done ==> *final(files) - *old(files) == visible_count_entries(entries@)
            && final(store).files_view() == old(store).files_view().union_prefer_right(
            files_map_entries(entries@, local_dir.deep_view()),
        ) && final(store).dirs_view() == old(store).dirs_view().union(
            dirs_set_entries(entries@, local_dir.deep_view()),
        ),
        old(script).never() ==> r != SyncStatus::Cancelled,
        old(script).never() ==> (r == SyncStatus::Done <==> fits_depth_entries(
            entries@,
            50 - depth,
        )),
        old(script).fires_now() ==> r == SyncStatus::Cancelled && *final(store) == *old(store)
            && *final(files) == *old(files),
    decreases entries@,
{
    if script.poll() {
        return SyncStatus::Cancelled;
    }
    proof {
        assert(entries@.take(0) =~= Seq::<FsEntry>::empty());
        assert(store.files_view() =~= store.files_view().union_prefer_right(
            files_map_entries(entries@.take(0), local_dir.deep_view()),
        ));
        assert(store.dirs_view() =~= store.dirs_view().union(
            dirs_set_entries(entries@.take(0), local_dir.deep_view()),
        ));
    }
    let n = entries.len();
    let mut i: usize = 0;
    while i < n
        invariant
            n == entries.len(),
            i <= n,
            depth <= 50,
            store.wf(),
            *old(files) + visible_count_entries(entries@) <= u64::MAX,
            *files - *old(files) == visible_count_entries(entries@.take(i as int)),
            *old(files) <= *files,
            script.never() == old(script).never(),
            !old(script).fires_now(),
            store.files_view() == old(store).files_view().union_prefer_right(
                files_map_entries(entries@.take(i as int), local_dir.deep_view()),
            ),
            store.dirs_view() == old(store).dirs_view().union(
                dirs_set_entries(entries@.take(i as int), local_dir.deep_view()),
            ),
            old(script).never() ==> fits_depth_entries(entries@.take(i as int), 50 - depth),
        decreases n - i,
    {
        proof {
            lemma_take_step(entries@, i as int, local_dir.deep_view(), 50 - depth);
            lemma_count_take_le(entries@, i as int + 1);
        }
        let entry = &entries[i];
        if !is_hidden_name(entry.name.as_str()) {
            match &entry.node {
                FsNode::File { content } => {
                    if script.poll() {
                        proof {
                            lemma_abort_bounds(
                                entries@,
                                i as int,
                                local_dir.deep_view(),
                                old(store).files_view(),
                                old(store).dirs_view(),
                                store.files_view(),
                                store.dirs_view(),
                            );
                        }
                        return SyncStatus::Cancelled;
                    }
                    let p = child_path(local_dir, &entry.name);
                    store.upsert_file(p, content);
                    *files = *files + 1;
                    proof {
                        lemma_child_visible(local_dir.deep_view(), entry.name@);
                        assert(store.files_view() =~= old(store).files_view().union_prefer_right(
                            files_map_entries(
                                entries@.take(i as int + 1),
                                local_dir.deep_view(),
                            ),
                        ));
                        assert(dirs_set_entry(entries@[i as int], local_dir.deep_view())
                            =~= Set::<PathSpec>::empty());
                        assert(store.dirs_view() =~= old(store).dirs_view().union(
                            dirs_set_entries(entries@.take(i as int + 1), local_dir.deep_view()),
                        ));
                    }
                },
                FsNode::Dir { entries: sub } => {
                    if depth >= 50 {
                        proof {
                            lemma_abort_bounds(
                                entries@,
                                i as int,
                                local_dir.deep_view(),
                                old(store).files_view(),
                                old(store).dirs_view(),
                                store.files_view(),
                                store.dirs_view(),
                            );
                            if old(script).never() {
                                if fits_depth_entries(entries@, 50 - depth) {
                                    lemma_fits_each(entries@, 50 - depth, i as int);
                                }
                            }
                        }
                        return SyncStatus::TooDeep;
                    }
                    let p = child_path(local_dir, &entry.name);
                    let p_again = child_path(local_dir, &entry.name);
                    store.ensure_dir(p_again);
                    let ghost pre = *store;
                    let ghost files_pre = *files;
                    proof {
                        assert(decreases_to!(entries@ => entries@[i as int]));
                        assert(decreases_to!(entries@[i as int] => entries@[i as int].node));
                        assert(entries@[i as int].node->Dir_entries == *sub);
                        assert(decreases_to!(entries@[i as int].node => entries@[i as int].node->Dir_entries));
                        lemma_count_take_le(entries@, i as int + 1);
                    }
                    let r = sync_entries(sub, store, &p, depth + 1, script, files);
                    match r {
                        SyncStatus::Done => {
                            proof {
                                lemma_child_visible(local_dir.deep_view(), entry.name@);
                                assert(store.files_view() =~= old(
                                    store,
                                ).files_view().union_prefer_right(
                                    files_map_entries(
                                        entries@.take(i as int + 1),
                                        local_dir.deep_view(),
                                    ),
                                ));
                                assert(store.dirs_view() =~= old(store).dirs_view().union(
                                    dirs_set_entries(
                                        entries@.take(i as int + 1),
                                        local_dir.deep_view(),
                                    ),
                                ));
                            }
                        },
                        _ => {
                            proof {
                                lemma_child_visible(local_dir.deep_view(), entry.name@);
                                assert forall|q: PathSpec| #[trigger]
                                    store.files_view().contains_key(q) implies old(
                                    store,
                                ).files_view().contains_key(q) || visible_under(
                                    q,
                                    local_dir.deep_view(),
                                ) by {
                                    if !pre.files_view().contains_key(q) {
                                        lemma_visible_under_extend(
                                            q,
                                            local_dir.deep_view(),
                                            entry.name@,
                                        );
                                    } else if !old(store).files_view().contains_key(q) {
                                        lemma_files_keys_entries(
                                            entries@.take(i as int),
                                            local_dir.deep_view(),
                                            q,
                                        );
                                    }
                                }
                                assert forall|q: PathSpec| #[trigger]
                                    store.dirs_view().contains(q) implies old(
                                    store,
                                ).dirs_view().contains(q) || visible_under(
                                    q,
                                    local_dir.deep_view(),
                                ) by {
                                    if !pre.dirs_view().contains(q) {
                                        lemma_visible_under_extend(
                                            q,
                                            local_dir.deep_view(),
                                            entry.name@,
                                        );
                                    } else if !old(store).dirs_view().contains(q) {
                                        if q == local_dir.deep_view().push(entry.name@) {
                                        } else {
                                            lemma_dirs_keys_entries(
                                                entries@.take(i as int),
                                                local_dir.deep_view(),
                                                q,
                                            );
                                        }
                                    }
                                }
                                assert forall|q: PathSpec| #[trigger]
                                    old(store).files_view().contains_key(q) implies
                                store.files_view().contains_key(q) by {
                                    assert(pre.files_view().contains_key(q));
                                }
                                assert forall|q: PathSpec| #[trigger]
                                    old(store).dirs_view().contains(q) implies
                                store.dirs_view().contains(q) by {
                                    assert(pre.dirs_view().contains(q));
                                }
                                if old(script).never() {
                                    assert(r == SyncStatus::TooDeep);
                                    assert(!fits_depth(entries@[i as int].node, 50 - depth - 1));
                                    if fits_depth_entries(entries@, 50 - depth) {
                                        lemma_fits_each(entries@, 50 - depth, i as int);
                                    }
                                }
                            }
                            return r;
                        },
                    }
                },
            }
        } else {
            proof {
                assert(files_map_entry(entries@[i as int], local_dir.deep_view())
                    =~= Map::<PathSpec, Seq<u8>>::empty());
                assert(dirs_set_entry(entries@[i as int], local_dir.deep_view())
                    =~= Set::<PathSpec>::empty());
                assert(store.files_view() =~= old(store).files_view().union_prefer_right(
                    files_map_entries(entries@.take(i as int + 1), local_dir.deep_view()),
                ));
                assert(store.dirs_view() =~= old(store).dirs_view().union(
                    dirs_set_entries(entries@.take(i as int + 1), local_dir.deep_view()),
                ));
            }
        }
        i = i + 1;
    }
    proof {
        lemma_abort_bounds(
            entries@,
            n as int,
            local_dir.deep_view(),
            old(store).files_view(),
            old(store).dirs_view(),
            store.files_view(),
            store.dirs_view(),
        );
        assert(entries@.take(n as int) =~= entries@);
    }
    SyncStatus::Done
}

/// The summary of a successful run: the file count and both paths.
pub open spec fn spec_success_message(files: int, remote: Seq<char>, local: Seq<char>) -> Seq<
    char,
> {
    "backup complete: transferred "@ + crate::text::spec_decimal(files) + " files from "@ + remote
        + " to "@ + local
}

/// Build the summary message of a successful run.
pub fn build_success_message(files: u64, remote: &str, local: &str) -> (r: String)
    ensures
        r@ == spec_success_message(files as int, remote@, local@),
{
    let mut s = String::from_str("backup complete: transferred ");
    let digits = crate::text::decimal_string(files);
    s.append(digits.as_str());
    s.append(" files from ");
    s.append(remote);
    s.append(" to ");
    s.append(local);
    proof {
        assert(s@ =~= spec_success_message(files as int, remote@, local@));
    }
    s
}

/// One full backup invocation over a modelled remote tree: validate
/// the root, create the local root directory, mirror the tree
/// depth-first, make a final cancellation check, and return exactly
/// one outcome.
pub fn run_backup(
    remote_root: &FsNode,
    remote_path: &str,
    store: &mut LocalStore,
    local_root: &Vec<String>,
    script: &mut CancelScript,
) -> (r: TransferOutcome)
    requires
        old(store).wf(),
        visible_count(*remote_root) <= u64::MAX,
    ensures
        final(store).wf(),
        !(remote_root is Dir) ==> *final(store) == *old(store) && (r matches
            TransferOutcome::Failed {
            error: BackupError::RemoteRootMissingOrNotDirectory { .. },
        }),
        remote_root is Dir ==> final(store).dirs_view().contains(local_root.deep_view()),
        remote_root is Dir && old(script).fires_now() ==> (r matches TransferOutcome::Cancelled {
            transferred_files,
        } && transferred_files == 0) && final(store).files_view() == old(store).files_view()
            && final(store).dirs_view() == old(store).dirs_view().insert(local_root.deep_view()),
        remote_root is Dir && old(script).never() && fits_depth(*remote_root, 50) ==> (r matches
            TransferOutcome::Success { transferred_files, message } && transferred_files
            == visible_count(*remote_root) && message@ == spec_success_message(
            visible_count(*remote_root) as int,
            remote_path@,
            crate::text::spec_joined(local_root.deep_view()),
        )) && final(store).files_view() == old(store).files_view().union_prefer_right(
            files_map_node(*remote_root, local_root.deep_view()),
        ) && final(store).dirs_view() == old(store).dirs_view().insert(
            local_root.deep_view(),
        ).union(dirs_set_node(*remote_root, local_root.deep_view())),
        remote_root is Dir && old(script).never() && !fits_depth(*remote_root, 50) ==> (r matches
            TransferOutcome::Failed { error } && (error matches BackupError::RecursionTooDeep {
            remote_path: p,
        } && p@ == remote_path@)),
        r matches TransferOutcome::Cancelled { transferred_files } ==> transferred_files
            <= visible_count(*remote_root),
        forall|p: PathSpec| #[trigger]
            old(store).files_view().contains_key(p) ==> final(store).files_view().contains_key(p),
        forall|p: PathSpec| #[trigger]
            old(store).dirs_view().contains(p) ==> final(store).dirs_view().contains(p),
        forall|p: PathSpec| #[trigger]
            final(store).files_view().contains_key(p) ==> old(store).files_view().contains_key(p)
                || visible_under(p, local_root.deep_view()),
        forall|p: PathSpec| #[trigger]
            final(store).dirs_view().contains(p) ==> old(store).dirs_view().contains(p) || p
                == local_root.deep_view() || visible_under(p, local_root.deep_view()),
{
    match remote_root {
        FsNode::File { .. } => {
            TransferOutcome::Failed {
                error: BackupError::RemoteRootMissingOrNotDirectory {
                    remote_path: String::from_str(remote_path),
                },
            }
        },
        FsNode::Dir { entries } => {
            store.ensure_dir(crate::store::clone_path(local_root));
            let ghost mid = *store;
            let mut files: u64 = 0;
            let status = sync_entries(entries, store, local_root, 0, script, &mut files);
            proof {
                assert(mid.dirs_view().contains(local_root.deep_view()));
                assert(store.dirs_view().contains(local_root.deep_view()));
                assert forall|q: PathSpec| #[trigger]
                    old(store).dirs_view().contains(q) implies store.dirs_view().contains(q) by {
                    assert(mid.dirs_view().contains(q));
                }
            }
            match status {
                SyncStatus::Cancelled => TransferOutcome::Cancelled { transferred_files: files },
                SyncStatus::TooDeep => TransferOutcome::Failed {
                    error: BackupError::RecursionTooDeep {
                        remote_path: String::from_str(remote_path),
                    },
                },
                SyncStatus::Done => {
                    if script.poll() {
                        TransferOutcome::Cancelled { transferred_files: files }
                    } else {
                        let local_label = crate::text::join_components(local_root);
                        let message = build_success_message(
                            files,
                            remote_path,
                            local_label.as_str(),
                        );
                        TransferOutcome::Success { transferred_files: files, message }
                    }
                },
            }
        },
    }
}

/// Mirroring is idempotent: applying the same mirror twice to a local
/// destination yields the same files and directories as applying it
/// once — a second run of the same successful backup overwrites
/// rather than duplicates, and both runs report the tree's
/// visible-file count.
pub proof fn lemma_backup_idempotent(
    node: FsNode,
    at: PathSpec,
    files0: Map<PathSpec, Seq<u8>>,
    dirs0: Set<PathSpec>,
)
    ensures
        files0.union_prefer_right(files_map_node(node, at)).union_prefer_right(
            files_map_node(node, at),
        ) == files0.union_prefer_right(files_map_node(node, at)),
        dirs0.insert(at).union(dirs_set_node(node, at)).insert(at).union(
            dirs_set_node(node, at),
        ) == dirs0.insert(at).union(dirs_set_node(node, at)),
{
    assert(files0.union_prefer_right(files_map_node(node, at)).union_prefer_right(
        files_map_node(node, at),
    ) =~= files0.union_prefer_right(files_map_node(node, at)));
    assert(dirs0.insert(at).union(dirs_set_node(node, at)).insert(at).union(
        dirs_set_node(node, at),
    ) =~= dirs0.insert(at).union(dirs_set_node(node, at)));
}

/// On an abort inside the entry loop, the partial effects still obey
/// the count bound and the visibility bound.
proof fn lemma_abort_bounds(
    s: Seq<FsEntry>,
    i: int,
    at: PathSpec,
    files0: Map<PathSpec, Seq<u8>>,
    dirs0: Set<PathSpec>,
    files1: Map<PathSpec, Seq<u8>>,
    dirs1: Set<PathSpec>,
)
    requires
        0 <= i <= s.len(),
        files1 == files0.union_prefer_right(files_map_entries(s.take(i), at)),
        dirs1 == dirs0.union(dirs_set_entries(s.take(i), at)),
    ensures
        visible_count_entries(s.take(i)) <= visible_count_entries(s),
        forall|p: PathSpec| #[trigger]
            files1.contains_key(p) ==> files0.contains_key(p) || visible_under(p, at),
        forall|p: PathSpec| #[trigger] dirs1.contains(p) ==> dirs0.contains(p) || visible_under(
            p,
            at,
        ),
{
    lemma_count_take_le(s, i);
    assert forall|p: PathSpec| #[trigger]
        files1.contains_key(p) implies files0.contains_key(p) || visible_under(p, at) by {
        if !files0.contains_key(p) {
            lemma_files_keys_entries(s.take(i), at, p);
        }
    }
    assert forall|p: PathSpec| #[trigger] dirs1.contains(p) implies dirs0.contains(p)
        || visible_under(p, at) by {
        if !dirs0.contains(p) {
            lemma_dirs_keys_entries(s.take(i), at, p);
        }
    }
}

} // verus!

//! An in-memory model of a remote file-system subtree, and the
//! specification functions the traversal engine's contracts are
//! stated over: the count of visible files, the depth bound, and the
//! maps of files and directories a mirror of the subtree consists of.

use vstd::prelude::*;
use crate::text::spec_is_hidden;

verus! {

/// A modelled file-system subtree: a file with its byte content, or a
/// directory with its named child entries.
#[derive(Debug, PartialEq, Eq)]
pub enum FsNode {
    File { content: Vec<u8> },
    Dir { entries: Vec<FsEntry> },
}

/// One named child of a modelled directory.
#[derive(Debug, PartialEq, Eq)]
pub struct FsEntry {
    pub name: String,
    pub node: FsNode,
}

/// A local path, as the sequence of its component names.
pub type PathSpec = Seq<Seq<char>>;

/// How many regular files a traversal that skips hidden entries finds
/// at or below this node (the node itself counts when it is a file).
pub open spec fn visible_count(node: FsNode) -> nat
    decreases node,
{
    match node {
        FsNode::File { .. } => 1,
        FsNode::Dir { entries } => visible_count_entries(entries@),
    }
}

/// The visible files contributed by a directory's entries.
pub open spec fn visible_count_entries(s: Seq<FsEntry>) -> nat
    decreases s,
{
    if s.len() == 0 {
        0
    } else {
        visible_count_entries(s.drop_last()) + entry_count(s.last())
    }
}

/// The visible files contributed by one entry: none when it is
/// hidden, else the count of its subtree.
pub open spec fn entry_count(e: FsEntry) -> nat
    decreases e,
{
    if spec_is_hidden(e.name@) {
        0
    } else {
        visible_count(e.node)
    }
}

/// The subtree can be traversed with `levels_left` further directory
/// levels available below the current one.
pub open spec fn fits_depth(node: FsNode, levels_left: int) -> bool
    decreases node,
{
    match node {
        FsNode::File { .. } => true,
        FsNode::Dir { entries } => fits_depth_entries(entries@, levels_left),
    }
}

/// All entries of a directory fit within `levels_left` further levels.
pub open spec fn fits_depth_entries(s: Seq<FsEntry>, levels_left: int) -> bool
    decreases s,
{
    if s.len() == 0 {
        true
    } else {
        fits_depth_entries(s.drop_last(), levels_left) && entry_fits(s.last(), levels_left)
    }
}

/// One entry fits: hidden entries and files never descend; a visible
/// directory needs a level available and its contents must fit below.
pub open spec fn entry_fits(e: FsEntry, levels_left: int) -> bool
    decreases e,
{
    spec_is_hidden(e.name@) || (e.node is File) || (levels_left > 0 && fits_depth(
        e.node,
        levels_left - 1,
    ))
}

/// The files a mirror of `node` placed at path `at` consists of:
/// every visible file path mapped to its content.
pub open spec fn files_map_node(node: FsNode, at: PathSpec) -> Map<PathSpec, Seq<u8>>
    decreases node,
{
    match node {
        FsNode::File { content } => map![at => content@],
        FsNode::Dir { entries } => files_map_entries(entries@, at),
    }
}

/// The mirrored files contributed by a directory's entries, later
/// entries taking precedence.
pub open spec fn files_map_entries(s: Seq<FsEntry>, at: PathSpec) -> Map<PathSpec, Seq<u8>>
    decreases s,
{
    if s.len() == 0 {
        Map::empty()
    } else {
        files_map_entries(s.drop_last(), at).union_prefer_right(files_map_entry(s.last(), at))
    }
}

/// The mirrored files contributed by one entry.
pub open spec fn files_map_entry(e: FsEntry, at: PathSpec) -> Map<PathSpec, Seq<u8>>
    decreases e,
{
    if spec_is_hidden(e.name@) {
        Map::empty()
    } else {
        files_map_node(e.node, at.push(e.name@))
    }
}

/// The directories a mirror of `node` placed at `at` creates below
/// `at`: one per visible directory of the subtree.
pub open spec fn dirs_set_node(node: FsNode, at: PathSpec) -> Set<PathSpec>
    decreases node,
{
    match node {
        FsNode::File { .. } => Set::empty(),
        FsNode::Dir { entries } => dirs_set_entries(entries@, at),
    }
}

/// The mirrored directories contributed by a directory's entries.
pub open spec fn dirs_set_entries(s: Seq<FsEntry>, at: PathSpec) -> Set<PathSpec>
    decreases s,
{
    if s.len() == 0 {
        Set::empty()
    } else {
        dirs_set_entries(s.drop_last(), at).union(dirs_set_entry(s.last(), at))
    }
}

/// The mirrored directories contributed by one entry.
pub open spec fn dirs_set_entry(e: FsEntry, at: PathSpec) -> Set<PathSpec>
    decreases e,
{
    if spec_is_hidden(e.name@) || (e.node is File) {
        Set::empty()
    } else {
        set![at.push(e.name@)].union(dirs_set_node(e.node, at.push(e.name@)))
    }
}

/// `p` lies strictly below `root` and every component below `root` is
/// visible (does not start with a dot).
pub open spec fn visible_under(p: PathSpec, root: PathSpec) -> bool {
    p.len() > root.len() && p.subrange(0, root.len() as int) == root && forall|i: int|
        root.len() <= i < p.len() ==> !spec_is_hidden(#[trigger] p[i])
}

} // verus!

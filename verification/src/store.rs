//! The modelled local destination: a flat store of mirrored files and
//! created directories, keyed by component paths. Viewed in
//! specifications as a map from paths to contents and a set of
//! directory paths.

use vstd::prelude::*;
use vstd::pervasive::VecAdditionalExecFns;
use vstd::slice::slice_to_vec;
use crate::tree::PathSpec;

verus! {

/// One mirrored file: its local path and its byte content.
#[derive(Clone, Debug, PartialEq, Eq)]
pub struct LocalFile {
    pub path: Vec<String>,
    pub content: Vec<u8>,
}

/// The modelled local file system: the files written and the
/// directories created, in insertion order, each path held once.
#[derive(Clone, Debug, PartialEq, Eq)]
pub struct LocalStore {
    pub files: Vec<LocalFile>,
    pub dirs: Vec<Vec<String>>,
}

/// The map from file paths to contents a sequence of stored files
/// denotes, later entries taking precedence.
pub open spec fn files_map_of(s: Seq<LocalFile>) -> Map<PathSpec, Seq<u8>>
    decreases s,
{
    if s.len() == 0 {
        Map::empty()
    } else {
        files_map_of(s.drop_last()).insert(s.last().path.deep_view(), s.last().content@)
    }
}

/// The set of directory paths a sequence of stored paths denotes.
pub open spec fn dirs_set_of(s: Seq<Vec<String>>) -> Set<PathSpec>
    decreases s,
{
    if s.len() == 0 {
        Set::empty()
    } else {
        dirs_set_of(s.drop_last()).insert(s.last().deep_view())
    }
}

/// A key is in the files map exactly when some stored file has that path.
pub proof fn lemma_files_map_contains(s: Seq<LocalFile>, p: PathSpec)
    ensures
        files_map_of(s).contains_key(p) <==> exists|i: int|
            0 <= i < s.len() && #[trigger] s[i].path.deep_view() == p,
    decreases s,
{
    if s.len() > 0 {
        lemma_files_map_contains(s.drop_last(), p);
        if files_map_of(s).contains_key(p) {
            if s.last().path.deep_view() == p {
                assert(s[s.len() - 1].path.deep_view() == p);
            } else {
                let i = choose|i: int|
                    0 <= i < s.drop_last().len() && #[trigger] s.drop_last()[i].path.deep_view()
                        == p;
                assert(s[i].path.deep_view() == p);
            }
        }
        if exists|i: int| 0 <= i < s.len() && #[trigger] s[i].path.deep_view() == p {
            let i = choose|i: int| 0 <= i < s.len() && #[trigger] s[i].path.deep_view() == p;
            if i < s.len() - 1 {
                assert(s.drop_last()[i].path.deep_view() == p);
            }
        }
    }
}

/// A path is in the directory set exactly when some stored directory
/// path equals it.
pub proof fn lemma_dirs_set_contains(s: Seq<Vec<String>>, p: PathSpec)
    ensures
        dirs_set_of(s).contains(p) <==> exists|i: int|
            0 <= i < s.len() && #[trigger] s[i].deep_view() == p,
    decreases s,
{
    if s.len() > 0 {
        lemma_dirs_set_contains(s.drop_last(), p);
        if dirs_set_of(s).contains(p) {
            if s.last().deep_view() == p {
                assert(s[s.len() - 1].deep_view() == p);
            } else {
                let i = choose|i: int|
                    0 <= i < s.drop_last().len() && #[trigger] s.drop_last()[i].deep_view() == p;
                assert(s[i].deep_view() == p);
            }
        }
        if exists|i: int| 0 <= i < s.len() && #[trigger] s[i].deep_view() == p {
            let i = choose|i: int| 0 <= i < s.len() && #[trigger] s[i].deep_view() == p;
            if i < s.len() - 1 {
                assert(s.drop_last()[i].deep_view() == p);
            }
        }
    }
}

/// The stored files have pairwise distinct paths.
pub open spec fn files_unique(s: Seq<LocalFile>) -> bool {
    forall|i: int, j: int|
        0 <= i < j < s.len() ==> (#[trigger] s[i].path.deep_view()) != (
        #[trigger] s[j].path.deep_view())
}

/// The stored directory paths are pairwise distinct.
pub open spec fn dirs_unique(s: Seq<Vec<String>>) -> bool {
    forall|i: int, j: int|
        0 <= i < j < s.len() ==> (#[trigger] s[i].deep_view()) != (#[trigger] s[j].deep_view())
}

/// With distinct paths, the file at index `i` gives the map's value
/// at its path.
pub proof fn lemma_files_map_index(s: Seq<LocalFile>, i: int)
    requires
        files_unique(s),
        0 <= i < s.len(),
    ensures
        files_map_of(s).contains_key(s[i].path.deep_view()),
        files_map_of(s)[s[i].path.deep_view()] == s[i].content@,
    decreases s,
{
    lemma_files_map_contains(s, s[i].path.deep_view());
    if i == s.len() - 1 {
    } else {
        assert(forall|k: int|
            0 <= k < s.drop_last().len() ==> s.drop_last()[k] == #[trigger] s[k]);
        lemma_files_map_index(s.drop_last(), i);
        assert(s[i].path.deep_view() != s.last().path.deep_view());
    }
}

/// Replacing the file at `i` by one with the same path updates the
/// map at that path.
pub proof fn lemma_files_map_update(s: Seq<LocalFile>, i: int, f: LocalFile)
    requires
        files_unique(s),
        0 <= i < s.len(),
        s[i].path.deep_view() == f.path.deep_view(),
    ensures
        files_map_of(s.update(i, f)) == files_map_of(s).insert(f.path.deep_view(), f.content@),
    decreases s,
{
    let p = f.path.deep_view();
    if i == s.len() - 1 {
        assert(s.update(i, f).drop_last() =~= s.drop_last());
        assert(s.update(i, f).last() == f);
        assert(files_map_of(s.drop_last()).insert(p, s.last().content@).insert(p, f.content@)
            =~= files_map_of(s.drop_last()).insert(p, f.content@));
    } else {
        assert(forall|k: int|
            0 <= k < s.drop_last().len() ==> s.drop_last()[k] == #[trigger] s[k]);
        lemma_files_map_update(s.drop_last(), i, f);
        assert(s.update(i, f).drop_last() =~= s.drop_last().update(i, f));
        assert(s.update(i, f).last() == s.last());
        let q = s.last().path.deep_view();
        assert(p != q);
        assert(files_map_of(s.drop_last()).insert(p, f.content@).insert(q, s.last().content@)
            =~= files_map_of(s.drop_last()).insert(q, s.last().content@).insert(p, f.content@));
    }
}

/// Appending a file inserts its path into the map.
pub proof fn lemma_files_map_push(s: Seq<LocalFile>, f: LocalFile)
    ensures
        files_map_of(s.push(f)) == files_map_of(s).insert(f.path.deep_view(), f.content@),
{
    assert(s.push(f).drop_last() =~= s);
    assert(s.push(f).last() == f);
}

/// Appending a directory path inserts it into the set.
pub proof fn lemma_dirs_set_push(s: Seq<Vec<String>>, p: Vec<String>)
    ensures
        dirs_set_of(s.push(p)) == dirs_set_of(s).insert(p.deep_view()),
{
    assert(s.push(p).drop_last() =~= s);
    assert(s.push(p).last() == p);
}

/// Component-wise path equality, deciding equality of the paths' views.
pub fn path_eq(a: &Vec<String>, b: &Vec<String>) -> (r: bool)
    ensures
        r == (a.deep_view() == b.deep_view()),
{
    proof {
        assert(a.deep_view().len() == a@.len());
        assert(b.deep_view().len() == b@.len());
    }
    if a.len() != b.len() {
        return false;
    }
    let n = a.len();
    let mut i: usize = 0;
    while i < n
        invariant
            n == a.len() == b.len(),
            i <= n,
            forall|k: int| 0 <= k < i ==> #[trigger] a@[k]@ == b@[k]@,
        decreases n - i,
    {
        if !(a[i] == b[i]) {
            proof {
                assert(a.deep_view()[i as int] == a@[i as int]@);
                assert(b.deep_view()[i as int] == b@[i as int]@);
            }
            return false;
        }
        i = i + 1;
    }
    proof {
        assert forall|k: int| 0 <= k < n implies a.deep_view()[k] == b.deep_view()[k] by {
            assert(a.deep_view()[k] == a@[k]@);
            assert(b.deep_view()[k] == b@[k]@);
        }
        assert(a.deep_view() =~= b.deep_view());
    }
    true
}

/// A copy of `p`, component by component.
pub fn clone_path(p: &Vec<String>) -> (r: Vec<String>)
    ensures
        r.deep_view() == p.deep_view(),
{
    let mut r: Vec<String> = Vec::new();
    let n = p.len();
    let mut i: usize = 0;
    while i < n
        invariant
            n == p.len(),
            i <= n,
            r.len() == i,
            forall|k: int| 0 <= k < i ==> #[trigger] r@[k]@ == p@[k]@,
        decreases n - i,
    {
        r.push(p[i].clone());
        i = i + 1;
    }
    proof {
        assert forall|k: int| 0 <= k < r.deep_view().len() implies r.deep_view()[k]
            == p.deep_view()[k] by {
            assert(r.deep_view()[k] == r@[k]@);
            assert(p.deep_view()[k] == p@[k]@);
        }
        assert(r.deep_view() =~= p.deep_view());
    }
    r
}

/// A copy of `base` with `name` appended: the local path of a child
/// entry.
pub fn child_path(base: &Vec<String>, name: &String) -> (r: Vec<String>)
    ensures
        r.deep_view() == base.deep_view().push(name@),
{
    let mut r: Vec<String> = Vec::new();
    let n = base.len();
    let mut i: usize = 0;
    while i < n
        invariant
            n == base.len(),
            i <= n,
            r.len() == i,
            forall|k: int| 0 <= k < i ==> #[trigger] r@[k]@ == base@[k]@,
        decreases n - i,
    {
        r.push(base[i].clone());
        i = i + 1;
    }
    r.push(name.clone());
    proof {
        assert forall|k: int| 0 <= k < r.deep_view().len() implies r.deep_view()[k]
            == base.deep_view().push(name@)[k] by {
            assert(r.deep_view()[k] == r@[k]@);
            if k < n {
                assert(base.deep_view()[k] == base@[k]@);
            }
        }
        assert(r.deep_view() =~= base.deep_view().push(name@));
    }
    r
}

impl LocalStore {
    /// The mirrored files, as a map from path to content.
    pub open spec fn files_view(self) -> Map<PathSpec, Seq<u8>> {
        files_map_of(self.files@)
    }

    /// The created directories, as a set of paths.
    pub open spec fn dirs_view(self) -> Set<PathSpec> {
        dirs_set_of(self.dirs@)
    }

    /// Every stored path is held exactly once.
    pub open spec fn wf(self) -> bool {
        files_unique(self.files@) && dirs_unique(self.dirs@)
    }

    /// An empty local destination.
    pub fn new() -> (st: LocalStore)
        ensures
            st.wf(),
            st.files_view() == Map::<PathSpec, Seq<u8>>::empty(),
            st.dirs_view() == Set::<PathSpec>::empty(),
            st.files@.len() == 0,
            st.dirs@.len() == 0,
    {
        LocalStore { files: Vec::new(), dirs: Vec::new() }
    }

    /// The index of the file stored at `path`, if any.
    fn find_file(&self, path: &Vec<String>) -> (r: Option<usize>)
        ensures
            match r {
                Some(i) => i < self.files@.len() && self.files@[i as int].path.deep_view()
                    == path.deep_view(),
                None => forall|k: int|
                    0 <= k < self.files@.len() ==> (#[trigger] self.files@[k].path.deep_view())
                        != path.deep_view(),
            },
    {
        let n = self.files.len();
        let mut i: usize = 0;
        while i < n
            invariant
                n == self.files@.len(),
                i <= n,
                forall|k: int| 0 <= k < i ==> (#[trigger] self.files@[k].path.deep_view())
                    != path.deep_view(),
            decreases n - i,
        {
            if path_eq(&self.files[i].path, path) {
                return Some(i);
            }
            i = i + 1;
        }
        None
    }

    /// The index of the directory stored at `path`, if any.
    fn find_dir(&self, path: &Vec<String>) -> (r: Option<usize>)
        ensures
            match r {
                Some(i) => i < self.dirs@.len() && self.dirs@[i as int].deep_view()
                    == path.deep_view(),
                None => forall|k: int|
                    0 <= k < self.dirs@.len() ==> (#[trigger] self.dirs@[k].deep_view())
                        != path.deep_view(),
            },
    {
        let n = self.dirs.len();
        let mut i: usize = 0;
        while i < n
            invariant
                n == self.dirs@.len(),
                i <= n,
                forall|k: int| 0 <= k < i ==> (#[trigger] self.dirs@[k].deep_view())
                    != path.deep_view(),
            decreases n - i,
        {
            if path_eq(&self.dirs[i], path) {
                return Some(i);
            }
            i = i + 1;
        }
        None
    }

    /// Write a file at `path`, replacing any file already there
    /// (create-or-truncate semantics).
    pub fn upsert_file(&mut self, path: Vec<String>, content: &Vec<u8>)
        requires
            old(self).wf(),
        ensures
            final(self).wf(),
            final(self).files_view() == old(self).files_view().insert(path.deep_view(), content@),
            final(self).dirs == old(self).dirs,
    {
        let found = self.find_file(&path);
        match found {
            Some(i) => {
                let ghost s = self.files@;
                let replacement = LocalFile { path, content: slice_to_vec(content.as_slice()) };
                proof {
                    lemma_files_map_update(s, i as int, replacement);
                }
                self.files.set(i, replacement);
                proof {
                    assert(self.files@ == s.update(i as int, replacement));
                    assert forall|k: int, l: int|
                        0 <= k < l < self.files@.len() implies (
                    #[trigger] self.files@[k].path.deep_view()) != (
                    #[trigger] self.files@[l].path.deep_view()) by {
                        assert(s[k].path.deep_view() != s[l].path.deep_view());
                        assert(self.files@[k].path.deep_view() == s[k].path.deep_view());
                        assert(self.files@[l].path.deep_view() == s[l].path.deep_view());
                    }
                }
            },
            None => {
                let ghost s = self.files@;
                let added = LocalFile { path, content: slice_to_vec(content.as_slice()) };
                proof {
                    lemma_files_map_push(s, added);
                }
                self.files.push(added);
                proof {
                    assert(self.files@ == s.push(added));
                    assert forall|k: int, l: int|
                        0 <= k < l < self.files@.len() implies (
                    #[trigger] self.files@[k].path.deep_view()) != (
                    #[trigger] self.files@[l].path.deep_view()) by {
                        if l < s.len() {
                            assert(s[k].path.deep_view() != s[l].path.deep_view());
                        } else {
                            assert(self.files@[l] == added);
                            assert(s[k].path.deep_view() != added.path.deep_view());
                        }
                    }
                }
            },
        }
    }

    /// Ensure a directory exists at `path` (created once, kept once).
    pub fn ensure_dir(&mut self, path: Vec<String>)
        requires
            old(self).wf(),
        ensures
            final(self).wf(),
            final(self).dirs_view() == old(self).dirs_view().insert(path.deep_view()),
            final(self).files == old(self).files,
    {
        let found = self.find_dir(&path);
        match found {
            Some(i) => {
                proof {
                    lemma_dirs_set_contains(self.dirs@, path.deep_view());
                    assert(self.dirs_view().insert(path.deep_view()) =~= self.dirs_view());
                }
            },
            None => {
                let ghost s = self.dirs@;
                proof {
                    lemma_dirs_set_push(s, path);
                }
                self.dirs.push(path);
                proof {
                    assert forall|k: int, l: int|
                        0 <= k < l < self.dirs@.len() implies (
                    #[trigger] self.dirs@[k].deep_view()) != (
                    #[trigger] self.dirs@[l].deep_view()) by {
                        if l < s.len() {
                            assert(s[k].deep_view() != s[l].deep_view());
                        } else {
                            assert(s[k].deep_view() != self.dirs@[l].deep_view());
                        }
                    }
                }
            },
        }
    }

    /// Look up the content stored at `path`.
    pub fn get_file(&self, path: &Vec<String>) -> (r: Option<&Vec<u8>>)
        requires
            self.wf(),
        ensures
            match r {
                Some(c) => self.files_view().contains_key(path.deep_view()) && c@
                    == self.files_view()[path.deep_view()],
                None => !self.files_view().contains_key(path.deep_view()),
            },
    {
        let found = self.find_file(path);
        match found {
            Some(i) => {
                proof {
                    lemma_files_map_index(self.files@, i as int);
                }
                Some(&self.files[i].content)
            },
            None => {
                proof {
                    lemma_files_map_contains(self.files@, path.deep_view());
                }
                None
            },
        }
    }

    /// Whether a directory was created at `path`.
    pub fn dir_present(&self, path: &Vec<String>) -> (r: bool)
        ensures
            r == self.dirs_view().contains(path.deep_view()),
    {
        let found = self.find_dir(path);
        proof {
            lemma_dirs_set_contains(self.dirs@, path.deep_view());
        }
        match found {
            Some(_) => true,
            None => false,
        }
    }

    /// How many distinct files the store holds.
    pub fn file_count(&self) -> (n: usize)
        ensures
            n == self.files@.len(),
    {
        self.files.len()
    }
}

} // verus!

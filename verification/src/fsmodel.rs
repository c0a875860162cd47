//! A snapshot of the file system handed to the analyzer as a value: the
//! regular files and the directories that exist on disk, each under its
//! canonical (walked) spelling. Every resolution decision is a pure
//! function of this snapshot.

use vstd::prelude::*;

use crate::strutil::str_eq;

verus! {

/// The paths that exist, split into regular files and directories.
pub struct FileSystem {
    file_entries: Vec<String>,
    dir_entries: Vec<String>,
}

impl FileSystem {
    /// The set of existing regular files.
    pub closed spec fn file_set(&self) -> Set<Seq<char>> {
        self.file_entries@.map_values(|p: String| p@).to_set()
    }

    /// The set of existing directories.
    pub closed spec fn dir_set(&self) -> Set<Seq<char>> {
        self.dir_entries@.map_values(|p: String| p@).to_set()
    }

    /// The set of existing paths of either kind.
    pub open spec fn paths(&self) -> Set<Seq<char>> {
        self.file_set().union(self.dir_set())
    }

    /// Build a snapshot from the existing files and directories.
    pub fn new(files: Vec<String>, dirs: Vec<String>) -> (r: Self)
        ensures
            r.file_set() == files@.map_values(|p: String| p@).to_set(),
            r.dir_set() == dirs@.map_values(|p: String| p@).to_set(),
            r.entry_count_spec() == files@.len() + dirs@.len(),
    {
        FileSystem { file_entries: files, dir_entries: dirs }
    }

    /// An empty snapshot: nothing exists.
    pub fn empty() -> (r: Self)
        ensures
            r.file_set() == Set::<Seq<char>>::empty(),
            r.dir_set() == Set::<Seq<char>>::empty(),
            r.entry_count_spec() == 0,
    {
        proof {
            assert(Seq::<String>::empty().map_values(|p: String| p@).to_set()
                =~= Set::<Seq<char>>::empty());
        }
        FileSystem { file_entries: Vec::new(), dir_entries: Vec::new() }
    }

    /// Whether a regular file exists in the snapshot.
    pub fn file_exists(&self, path: &str) -> (r: bool)
        ensures
            r == self.file_set().contains(path@),
    {
        contains_view(&self.file_entries, path)
    }

    /// Whether a path of either kind exists in the snapshot.
    pub fn path_exists(&self, path: &str) -> (r: bool)
        ensures
            r == self.paths().contains(path@),
    {
        let in_files = contains_view(&self.file_entries, path);
        let in_dirs = contains_view(&self.dir_entries, path);
        in_files || in_dirs
    }

    /// How many path entries the snapshot holds.
    pub fn entry_count(&self) -> (r: usize)
        requires
            self.entry_count_spec() <= usize::MAX,
        ensures
            r == self.entry_count_spec(),
    {
        self.file_entries.len() + self.dir_entries.len()
    }

    /// The number of path entries (an upper bound on `paths().len()`).
    pub closed spec fn entry_count_spec(&self) -> nat {
        self.file_entries@.len() + self.dir_entries@.len()
    }
}

/// Whether some string of `v` reads `path`.
fn contains_view(v: &Vec<String>, path: &str) -> (r: bool)
    ensures
        r == v@.map_values(|p: String| p@).to_set().contains(path@),
{
    let ghost views = v@.map_values(|p: String| p@);
    let mut i: usize = 0;
    while i < v.len()
        invariant
            0 <= i <= v@.len(),
            views == v@.map_values(|p: String| p@),
            forall|j: int| 0 <= j < i ==> views[j] != path@,
        decreases v@.len() - i,
    {
        if str_eq(v[i].as_str(), path) {
            proof {
                assert(views[i as int] == path@);
            }
            return true;
        }
        i += 1;
    }
    proof {
        if views.to_set().contains(path@) {
            let j = choose|j: int| 0 <= j < views.len() && views[j] == path@;
            assert(false);
        }
    }
    false
}

} // verus!

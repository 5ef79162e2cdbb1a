//! Domain entity: how many files and directories a path holds.
use vstd::prelude::*;

verus! {

/// Statistics of a path: the number of files and of directories directly
/// inside it.
#[derive(Debug)]
pub struct PathStats {
    pub path: String,
    pub files: u64,
    pub directories: u64,
}

impl Clone for PathStats {
    fn clone(&self) -> (r: Self)
        ensures
            r == *self,
    {
        PathStats { path: self.path.clone(), files: self.files, directories: self.directories }
    }
}

impl PathStats {
    /// Builds the statistics of `path`.
    pub fn new(path: String, files: u64, directories: u64) -> (r: Self)
        ensures
            r.path == path,
            r.files == files,
            r.directories == directories,
    {
        PathStats { path, files, directories }
    }

    /// Number of entries: files plus directories. The sum must fit in a `u64`
    /// (on a larger one the addition overflows).
    pub fn total(&self) -> (r: u64)
        requires
            self.files + self.directories <= u64::MAX,
        ensures
            r == self.files + self.directories,
    {
        self.files + self.directories
    }
}

} // verus!

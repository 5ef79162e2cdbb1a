//! Port: access to a file system.
use vstd::prelude::*;

verus! {

/// Access to a file system, implemented by adapters.
pub trait FileSystemPort {
    /// The number of files and of directories directly inside `path`.
    fn get_path_stats(&self, path: &str) -> Result<(u64, u64), String>;
}

} // verus!

//! Output adapter: the real file system. Reading a directory is I/O and is
//! done by the application around this library; what is decided here is how
//! the entries that were read are counted.
use vstd::prelude::*;

verus! {

/// What a directory entry turned out to be.
#[derive(Debug, Clone, Copy, PartialEq, Eq, Structural)]
pub enum EntryKind {
    File,
    Directory,
    /// Neither a regular file nor a directory (a symbolic link to nothing, a
    /// socket, ...), or an entry whose metadata could not be read.
    Other,
}

/// How many entries of `s` are of kind `k`.
pub open spec fn count_of(s: Seq<EntryKind>, k: EntryKind) -> nat {
    s.filter(of_kind(k)).len()
}

/// Entries of kind `k`.
pub open spec fn of_kind(k: EntryKind) -> spec_fn(EntryKind) -> bool {
    |x: EntryKind| x == k
}

/// File system adapter.
pub struct FileSystemAdapter;

impl FileSystemAdapter {
    /// Counts the files and the directories among the entries of a
    /// directory; other entries are not counted.
    pub fn count_entries(kinds: &Vec<EntryKind>) -> (r: (u64, u64))
        ensures
            r.0 == count_of(kinds@, EntryKind::File),
            r.1 == count_of(kinds@, EntryKind::Directory),
    {
        broadcast use Seq::lemma_filter_push;

        let mut files: u64 = 0;
        let mut directories: u64 = 0;
        let mut i: usize = 0;
        while i < kinds.len()
            invariant
                i <= kinds.len(),
                files == count_of(kinds@.take(i as int), EntryKind::File),
                directories == count_of(kinds@.take(i as int), EntryKind::Directory),
                files + directories <= i,
            decreases kinds.len() - i,
        {
            let ghost p = kinds@.take(i as int);
            assert(kinds@.take(i + 1) =~= p.push(kinds@[i as int]));
            proof {
                p.lemma_filter_push(kinds@[i as int], of_kind(EntryKind::File));
                p.lemma_filter_push(kinds@[i as int], of_kind(EntryKind::Directory));
            }
            match kinds[i] {
                EntryKind::File => {
                    files = files + 1;
                },
                EntryKind::Directory => {
                    directories = directories + 1;
                },
                EntryKind::Other => {},
            }
            i = i + 1;
        }
        assert(kinds@.take(kinds.len() as int) =~= kinds@);
        (files, directories)
    }
}

} // verus!

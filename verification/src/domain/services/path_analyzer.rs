//! Domain service: statistics of a path.
use crate::domain::models::path_stats::PathStats;
use crate::domain::ports::file_system_port::FileSystemPort;
use vstd::prelude::*;
use vstd::string::StringExecFns;

verus! {

/// Analyses paths through a file system port.
pub struct PathAnalyzerService;

impl PathAnalyzerService {
    /// The statistics of `path`: the counts that `fs_port` reports for it,
    /// or the error it reports.
    pub fn analyze<P: FileSystemPort + ?Sized>(fs_port: &P, path: &str) -> (r: Result<
        PathStats,
        String,
    >)
        ensures
            r matches Ok(st) ==> st.path@ == path@ && call_ensures(
                P::get_path_stats,
                (fs_port, path),
                Ok((st.files, st.directories)),
            ),
            r matches Err(e) ==> call_ensures(P::get_path_stats, (fs_port, path), Err(e)),
    {
        let counts = fs_port.get_path_stats(path);
        match counts {
            Ok((files, directories)) => Ok(PathStats::new(String::from_str(path), files, directories)),
            Err(e) => Err(e),
        }
    }
}

} // verus!

//! Use case: analyse a path.
use crate::domain::models::path_stats::PathStats;
use crate::domain::ports::file_system_port::FileSystemPort;
use crate::domain::services::path_analyzer::PathAnalyzerService;
use vstd::prelude::*;

verus! {

/// Analyses a path.
pub struct AnalyzePathUseCase;

impl AnalyzePathUseCase {
    /// The statistics of `path` as `fs_port` reports them (see
    /// `PathAnalyzerService::analyze`).
    pub fn execute<P: FileSystemPort + ?Sized>(fs_port: &P, path: &str) -> (r: Result<
        PathStats,
        String,
    >)
        ensures
            r matches Ok(st) ==> st.path@ == path@ && call_ensures(
                P::get_path_stats,
                (fs_port, path),
                Ok((st.files, st.directories)),
            ),
            r matches Err(e) ==> call_ensures(P::get_path_stats, (fs_port, path), Err(e)),
    {
        PathAnalyzerService::analyze(fs_port, path)
    }
}

} // verus!

//! Output of the path-analysis command line: the lines it prints.
use crate::domain::models::path_stats::PathStats;
use crate::text::decimal;
use crate::text::decimal_text;
use vstd::prelude::*;
use vstd::string::StringExecFns;

verus! {

/// Console output. Printing is done by the application around this
/// library; the lines are built here.
pub struct CliOutput;

impl CliOutput {
    /// The lines printed for the statistics of a path: the path being
    /// analysed, a blank line, then the folder with its files and its
    /// directories.
    pub fn stats_lines(stats: &PathStats) -> (r: Vec<String>)
        ensures
            r.len() == 5,
            r[0]@ == "Analizando ruta: "@ + stats.path@,
            r[1]@ == Seq::<char>::empty(),
            r[2]@ == "\u{1f4c2} Carpeta: "@ + stats.path@,
            r[3]@ == "\u{251c} \u{1f4c4} Archivos: "@ + decimal(stats.files as nat),
            r[4]@ == "\u{2514} \u{1f4c1} Carpetas: "@ + decimal(stats.directories as nat),
    {
        let mut r: Vec<String> = Vec::new();
        r.push(String::from_str("Analizando ruta: ").concat(stats.path.as_str()));
        r.push(String::new());
        r.push(String::from_str("\u{1f4c2} Carpeta: ").concat(stats.path.as_str()));
        r.push(String::from_str("\u{251c} \u{1f4c4} Archivos: ").concat(decimal_text(stats.files).as_str()));
        r.push(
            String::from_str("\u{2514} \u{1f4c1} Carpetas: ").concat(
                decimal_text(stats.directories).as_str(),
            ),
        );
        r
    }

    /// The line printed for an error: `Error: <error>`.
    pub fn error_line(error: &str) -> (r: String)
        ensures
            r@ == "Error: "@ + error@,
    {
        String::from_str("Error: ").concat(error)
    }
}

} // verus!

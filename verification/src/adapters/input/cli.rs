//! Input adapter: the path-analysis command line.
use vstd::prelude::*;
use vstd::string::StringExecFns;

verus! {

/// Command-line input. Collecting the program's arguments is done by the
/// application around this library; which argument is the path is decided
/// here.
pub struct CliInput;

impl CliInput {
    /// The path to analyse: the first argument after the program name, or
    /// the usage text when there is none.
    pub fn path_from_args(args: &Vec<String>) -> (r: Result<String, String>)
        ensures
            args.len() < 2 ==> (r matches Err(e) && e@ == "Usage: cargo run <path>"@),
            args.len() >= 2 ==> r == Ok::<String, String>(args[1]),
    {
        if args.len() < 2 {
            return Err(String::from_str("Usage: cargo run <path>"));
        }
        Ok(args[1].clone())
    }
}

} // verus!

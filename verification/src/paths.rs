//! The files a run works on: those named on the command line, or the
//! defaults.

use vstd::prelude::*;

verus! {

/// Where the input is read from when the command line does not say.
pub const DEFAULT_INPUT: &'static str = "/nfs_dir/input/info.csv";

/// Where the output is written to when the command line does not say.
pub const DEFAULT_OUTPUT: &'static str = "/nfs_dir/output/output.txt";

/// The two files of a run.
#[derive(Debug, PartialEq, Eq)]
pub struct Paths {
    /// The comma-delimited text to read.
    pub input: String,
    /// The fixed-width text to write.
    pub output: String,
}

/// Chooses the files of a run from the arguments that follow the program's
/// name. Exactly two arguments name the input and the output, in that
/// order. With any other number of arguments both defaults are taken: a
/// single argument overrides nothing.
pub fn select_paths(arguments: &[String]) -> (paths: Paths)
    ensures
        arguments@.len() == 2 ==> paths.input@ == arguments@[0]@ && paths.output@
            == arguments@[1]@,
        arguments@.len() != 2 ==> paths.input@ == DEFAULT_INPUT@ && paths.output@
            == DEFAULT_OUTPUT@,
{
    if arguments.len() == 2 {
        Paths { input: arguments[0].clone(), output: arguments[1].clone() }
    } else {
        Paths { input: DEFAULT_INPUT.to_owned(), output: DEFAULT_OUTPUT.to_owned() }
    }
}

} // verus!

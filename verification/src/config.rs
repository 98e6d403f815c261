//! The command line: the program takes one argument, the path of its
//! configuration file. Reading and decoding the file is transport-side
//! work; the library only carries the path.

use vstd::prelude::*;

verus! {

/// Relies on std's `PathBuf` being an owned filesystem path; declared so a
/// path can stand in a field. Nothing is assumed about its contents.
#[verifier::external_type_specification]
#[verifier::external_body]
pub struct ExPathBuf(std::path::PathBuf);

/// The parsed command line.
pub struct Args {
    /// Where the configuration file stands.
    pub config: std::path::PathBuf,
}

} // verus!

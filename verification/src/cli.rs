//! The command line of the program.

use vstd::prelude::*;

verus! {

/// The parsed command line.
pub struct Cli {
    pub command: Command,
}

/// A command of the program.
pub enum Command {
    /// Build the source directory `dir`.
    Build { dir: String },
}

} // verus!

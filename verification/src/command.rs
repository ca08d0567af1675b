//! The commands on a source directory.

use vstd::prelude::*;

verus! {

/// An error of a command on a source directory.
pub enum CommandError {
    /// Errors were detected in the source directory `dir`.
    Check { dir: String },
    /// The source directory `dir` could not be built.
    Build { dir: String },
}

/// Checks the source directory `dir`. No check is defined yet: it always succeeds.
pub fn check(dir: &str) -> (r: Result<(), CommandError>)
    ensures
        r is Ok,
{
    Ok(())
}

/// Builds the source directory `dir`. No step is defined yet: it always succeeds.
pub fn build(dir: &str) -> (r: Result<(), CommandError>)
    ensures
        r is Ok,
{
    Ok(())
}

} // verus!

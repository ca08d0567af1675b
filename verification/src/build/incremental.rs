//! The error of the incremental build of a unit.

use vstd::prelude::*;

verus! {

/// The incremental build of the unit of `dir` could not be prepared.
pub struct IncrementalBuildError {
    pub dir: String,
}

} // verus!

//! The build of a source directory into the output directory.

pub mod clean;
pub mod convert;
pub mod finalize;
pub mod hash;
pub mod incremental;
pub mod index;
pub mod load;
pub mod normalize;
pub mod prepare;
pub mod process;
pub mod raw;
pub mod replaygain;
pub mod skip;
pub mod summary;
pub mod unit;

pub use raw::UnitTrack;

use vstd::prelude::*;
use crate::paths::{same_path, spec_path_components};

verus! {

/// Whether an item of the build directory is the index file, which the start
/// of a build keeps while it deletes every other item there.
pub fn is_index_file(item: &str, index_file: &str) -> (r: bool)
    ensures
        r == (spec_path_components(item@) == spec_path_components(index_file@)),
{
    same_path(item, index_file)
}

/// The source directory `dir` could not be built.
pub struct BuildError {
    pub dir: String,
}

} // verus!

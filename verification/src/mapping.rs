//! The mapping manifest of a release: the source file of each track.

use vstd::prelude::*;

verus! {

/// The source files of a release, disc by disc.
pub struct MappingManifest {
    pub discs: Vec<MappingDisc>,
}

/// The source files of a disc, track by track.
pub struct MappingDisc {
    pub tracks: Vec<MappingTrack>,
}

/// The source file of a track.
pub struct MappingTrack {
    pub file: String,
}

} // verus!

//! The tracklist of a release manifest.

use vstd::prelude::*;

verus! {

/// A disc of a tracklist.
pub struct Disc {
    pub tracks: Vec<Track>,
}

/// A track of a tracklist.
pub struct Track {
    pub title: String,
}

} // verus!

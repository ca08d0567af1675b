//! The source tree as it was read: the directories and the manifests in them.

use vstd::prelude::*;

verus! {

/// A source directory: its configuration manifest and its albums.
pub struct Source {
    pub dir: String,
    pub config: ConfigManifest,
    pub albums: Vec<AlbumSource>,
}

/// An album directory: its manifest and its releases.
pub struct AlbumSource {
    pub dir: String,
    pub manifest: AlbumManifest,
    pub releases: Vec<ReleaseSource>,
}

/// A release directory and its manifest.
pub struct ReleaseSource {
    pub dir: String,
    pub manifest: ReleaseManifest,
}

/// The configuration manifest of a source directory.
pub struct ConfigManifest {
    pub output_dir: String,
}

/// The manifest of an album.
pub struct AlbumManifest {
    pub artist: String,
    pub year: u16,
    pub title: String,
}

/// The manifest of a release.
pub struct ReleaseManifest {
    pub year: u16,
    pub catalog_number: String,
    pub media_type: String,
    pub audio_channels: String,
    pub provenance: String,
    pub discs: Vec<DiscManifest>,
}

/// A disc of a release manifest.
pub struct DiscManifest {
    pub tracks: Vec<TrackManifest>,
}

/// A track of a release manifest and the file that holds it.
pub struct TrackManifest {
    pub title: String,
    pub file: String,
}

} // verus!

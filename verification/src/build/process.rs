//! Processed units: normalized units after their processing, which does
//! nothing to the files yet.

use vstd::prelude::*;
use crate::build::normalize::NormalizedUnit;
use crate::build::raw::UnitTrack;
use crate::model::{AlbumInfo, Config, ReleaseInfo};

verus! {

/// A unit whose track files were processed.
pub struct ProcessedUnit<'a> {
    pub dir: String,
    pub config: &'a Config,
    pub album_info: &'a AlbumInfo,
    pub release_info: &'a ReleaseInfo,
    pub tracks: Vec<UnitTrack<'a>>,
    pub hash: [u8; 32],
}

impl<'a> ProcessedUnit<'a> {
    /// Processes a normalized unit: every part of it is kept as it is.
    pub fn new(unit: NormalizedUnit<'a>) -> (r: Self)
        ensures
            r.dir == unit.dir,
            r.config == unit.config,
            r.album_info == unit.album_info,
            r.release_info == unit.release_info,
            r.tracks == unit.tracks,
            r.hash == unit.hash,
    {
        ProcessedUnit {
            dir: unit.dir,
            config: unit.config,
            album_info: unit.album_info,
            release_info: unit.release_info,
            tracks: unit.tracks,
            hash: unit.hash,
        }
    }
}

} // verus!

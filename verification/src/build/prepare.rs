//! Prepared units, and the errors of the build steps that load modules and
//! clean the output directory.

use vstd::prelude::*;
use crate::build::raw::UnitTrack;
use crate::model::{AlbumInfo, Config, ReleaseInfo};

verus! {

/// A unit whose track files were copied into its build directory `dir`.
pub struct PreparedUnit<'a> {
    pub dir: String,
    pub config: &'a Config,
    pub album_info: &'a AlbumInfo,
    pub release_info: &'a ReleaseInfo,
    pub tracks: Vec<UnitTrack<'a>>,
    pub hash: [u8; 32],
}

/// The module of `dir` could not be loaded.
pub struct LoadModuleError {
    pub dir: String,
}

/// An error of cleaning the output directory.
pub enum CleanOutputDirError {
    /// The cleaning of the output directory `dir` could not be prepared.
    Prepare { dir: String },
    /// The directory `dir` could not be cleaned.
    CleanDir { dir: String },
}

/// An error of building a source directory.
pub enum PrepareBuildError {
    /// The source directory `dir` could not be built.
    Build { dir: String },
}

} // verus!

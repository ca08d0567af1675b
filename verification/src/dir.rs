//! The directories of a source: a source directory, its album directories and
//! their release directories, each with the manifest file it holds.

use vstd::prelude::*;
use crate::paths::{path_join, spec_path_join};

verus! {

/// A source directory and its configuration file.
pub struct SourceDir {
    dir: String,
    config_file: String,
    albums: Vec<AlbumDir>,
}

/// An album directory and its manifest file.
pub struct AlbumDir {
    dir: String,
    manifest_file: String,
    releases: Vec<ReleaseDir>,
}

/// A release directory and its manifest file.
pub struct ReleaseDir {
    dir: String,
    manifest_file: String,
}

impl ReleaseDir {
    /// The directory.
    pub closed spec fn spec_dir(&self) -> Seq<char> {
        self.dir@
    }

    /// The manifest file of the directory.
    pub closed spec fn spec_manifest_file(&self) -> Seq<char> {
        self.manifest_file@
    }

    /// The directory.
    pub fn dir(&self) -> (r: &str)
        ensures
            r@ == self.spec_dir(),
    {
        self.dir.as_str()
    }

    /// The manifest file of the directory.
    pub fn manifest_file(&self) -> (r: &str)
        ensures
            r@ == self.spec_manifest_file(),
    {
        self.manifest_file.as_str()
    }

    /// Resolves `dir` as a release directory: its manifest is `release.toml` in it.
    pub fn resolve(dir: &str) -> (r: Self)
        ensures
            r.spec_dir() == dir@,
            r.spec_manifest_file() == spec_path_join(dir@, "release.toml"@),
    {
        ReleaseDir { dir: dir.to_string(), manifest_file: path_join(dir, "release.toml") }
    }
}

/// An error of resolving directories.
pub enum DirError {
    /// `dir` could not be resolved as a source directory.
    SourceDirResolve { dir: String },
    /// `dir` could not be resolved as an album directory.
    AlbumDirResolve { dir: String },
}

} // verus!

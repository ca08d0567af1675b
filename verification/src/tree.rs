//! The tree of a source: a source directory, its album directories and their
//! release directories, each with the manifest file it holds.

use vstd::prelude::*;
use crate::paths::{path_join, spec_path_join};

verus! {

/// A source directory and its configuration file.
pub struct SourceTree {
    dir: String,
    config_file: String,
    albums: Vec<AlbumTree>,
}

/// An album directory and its manifest file.
pub struct AlbumTree {
    dir: String,
    manifest_file: String,
    releases: Vec<ReleaseTree>,
}

/// A release directory and its manifest file.
pub struct ReleaseTree {
    dir: String,
    manifest_file: String,
}

impl ReleaseTree {
    /// The directory.
    pub closed spec fn spec_dir(&self) -> Seq<char> {
        self.dir@
    }

    /// The manifest file of the directory.
    pub closed spec fn spec_manifest_file(&self) -> Seq<char> {
        self.manifest_file@
    }

    /// The directory.
    pub fn dir(&self) -> (r: &str)
        ensures
            r@ == self.spec_dir(),
    {
        self.dir.as_str()
    }

    /// The manifest file of the directory.
    pub fn manifest_file(&self) -> (r: &str)
        ensures
            r@ == self.spec_manifest_file(),
    {
        self.manifest_file.as_str()
    }

    /// The tree of the release directory `dir`: its manifest is `release.toml` in it.
    pub fn from_dir(dir: &str) -> (r: Self)
        ensures
            r.spec_dir() == dir@,
            r.spec_manifest_file() == spec_path_join(dir@, "release.toml"@),
    {
        ReleaseTree { dir: dir.to_string(), manifest_file: path_join(dir, "release.toml") }
    }
}

/// An error of making a tree of directories.
pub enum TreeError {
    /// No source tree could be made of `dir`.
    SourceTreeFrom { dir: String },
    /// No album tree could be made of `dir`.
    AlbumTreeFrom { dir: String },
}

} // verus!

//! A project: a directory holding an `albumctl.toml` manifest and album
//! directories.

use vstd::prelude::*;
use crate::album::{Album, AlbumError};
use crate::filesystem::FilesystemError;
use crate::manifest::ManifestError;
use crate::paths::{path_join, spec_path_join};
use crate::text::literal;

verus! {

/// A loaded project.
pub struct Project {
    root: String,
    manifest: ProjectManifest,
}

/// The manifest of a project.
pub struct ProjectManifest {
    pub output_dir: String,
}

/// An error of a project.
pub enum ProjectError {
    /// No project could be initialized at `path`.
    Init { path: String },
    /// The project at `path` could not be loaded.
    Load { path: String },
    /// The albums of the project at `path` could not be loaded.
    LoadAlbums { path: String },
}

/// Every album directory was loaded.
pub open spec fn all_albums_loaded(s: Seq<Result<Album, AlbumError>>) -> bool {
    forall|i: int| 0 <= i < s.len() ==> #[trigger] s[i] is Ok
}

/// The loaded albums.
pub open spec fn loaded_albums(s: Seq<Result<Album, AlbumError>>) -> Seq<Album> {
    s.map_values(|x: Result<Album, AlbumError>| x->Ok_0)
}

impl Project {
    /// The root directory of the project.
    pub closed spec fn spec_root(&self) -> Seq<char> {
        self.root@
    }

    /// The manifest of the project.
    pub closed spec fn spec_manifest(&self) -> ProjectManifest {
        self.manifest
    }

    /// The manifest file of the project directory `path`.
    pub fn manifest_file(path: &str) -> (r: String)
        ensures
            r@ == spec_path_join(path@, "albumctl.toml"@),
    {
        path_join(path, "albumctl.toml")
    }

    /// The manifest that a new project starts with: the output directory is `~/Music`.
    pub fn default_manifest() -> (m: ProjectManifest)
        ensures
            m.output_dir@ == "~/Music"@,
    {
        ProjectManifest { output_dir: literal("~/Music") }
    }

    /// Initializes a project at `path` with `manifest`, from what was done on
    /// disk: making the directory exist and finding no manifest file in it,
    /// then saving the manifest (`None` where it was not tried). Any failure is
    /// reported as the initialization error.
    pub fn init(
        path: &str,
        manifest: ProjectManifest,
        prepared: Result<(), FilesystemError>,
        saved: Option<Result<(), ManifestError>>,
    ) -> (r: Result<Project, ProjectError>)
        ensures
            match (prepared, saved) {
                (Ok(_), Some(Ok(_))) => r matches Ok(p) && p.spec_root() == path@ && p.spec_manifest()
                    == manifest,
                _ => r matches Err(ProjectError::Init { path: e }) && e@ == path@,
            },
    {
        match (prepared, saved) {
            (Ok(_), Some(Ok(_))) => Ok(Project { root: path.to_string(), manifest }),
            _ => Err(ProjectError::Init { path: path.to_string() }),
        }
    }

    /// Loads the project at `path` from what was read of it: whether it is a
    /// directory, and its manifest file. Any failure is reported as the
    /// project's load error.
    pub fn load(
        path: &str,
        dir: Result<(), FilesystemError>,
        manifest: Result<ProjectManifest, ManifestError>,
    ) -> (r: Result<Project, ProjectError>)
        ensures
            match (dir, manifest) {
                (Ok(_), Ok(m)) => r matches Ok(p) && p.spec_root() == path@ && p.spec_manifest()
                    == m,
                _ => r matches Err(ProjectError::Load { path: e }) && e@ == path@,
            },
    {
        match (dir, manifest) {
            (Ok(_), Ok(m)) => Ok(Project { root: path.to_string(), manifest: m }),
            _ => Err(ProjectError::Load { path: path.to_string() }),
        }
    }

    /// The albums of the project, from the listing of its directory and the
    /// loading of each album directory in it, in the order of the listing.
    /// Fails where the listing or a load failed.
    pub fn load_albums(
        &self,
        listed: Result<(), FilesystemError>,
        loaded: Vec<Result<Album, AlbumError>>,
    ) -> (r: Result<Vec<Album>, ProjectError>)
        ensures
            match r {
                Ok(v) => listed is Ok && all_albums_loaded(loaded@) && v@ == loaded_albums(loaded@),
                Err(e) => {
                    &&& !(listed is Ok && all_albums_loaded(loaded@))
                    &&& e matches ProjectError::LoadAlbums { path: p } && p@ == self.spec_root()
                },
            },
    {
        if listed.is_err() {
            return Err(ProjectError::LoadAlbums { path: self.root.clone() });
        }
        let ghost s = loaded@;
        let mut albums: Vec<Album> = Vec::new();
        for x in it: loaded.into_iter()
            invariant
                it.seq() == s,
                listed is Ok,
                albums@ == loaded_albums(s.take(it.index())),
                forall|i: int| 0 <= i < it.index() ==> #[trigger] s[i] is Ok,
        {
            let ghost j = it.index();
            assert(x == s[j]);
            match x {
                Ok(album) => {
                    albums.push(album);
                    assert(loaded_albums(s.take(j + 1)) =~= loaded_albums(s.take(j)).push(album));
                },
                Err(_) => {
                    return Err(ProjectError::LoadAlbums { path: self.root.clone() });
                },
            }
        }
        proof {
            assert(s.take(s.len() as int) =~= s);
        }
        Ok(albums)
    }
}

} // verus!

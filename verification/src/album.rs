//! An album directory: its manifest and the release directories in it.

use vstd::prelude::*;
use crate::filesystem::FilesystemError;
use crate::manifest::ManifestError;
use crate::paths::{path_join, spec_path_join};
use crate::release::{Release, ReleaseError};
use crate::text::{append_str, decimal, decimal_string};

verus! {

/// A loaded album directory.
pub struct Album {
    path: String,
    manifest: AlbumManifest,
}

/// The manifest of an album: its identifier.
pub struct AlbumManifest {
    pub id: AlbumIdentifier,
}

/// The identifier of an album.
pub struct AlbumIdentifier {
    pub title: String,
    pub artist: String,
    pub year: u16,
}

/// An error of an album.
pub enum AlbumError {
    /// The album at `path` could not be loaded.
    Load { path: String },
    /// The releases of the album `id` could not be loaded.
    LoadReleases { id: AlbumIdentifier },
}

impl AlbumIdentifier {
    /// Two identifiers are equal: they hold the same texts and year.
    pub open spec fn same(self, other: Self) -> bool {
        self.title@ == other.title@ && self.artist@ == other.artist@ && self.year == other.year
    }

    /// The text of the identifier: `artist - (year) title`.
    pub open spec fn text(self) -> Seq<char> {
        self.artist@ + " - ("@ + decimal(self.year as nat) + ") "@ + self.title@
    }

    /// Renders the identifier as its text.
    pub fn to_string(&self) -> (s: String)
        ensures
            s@ == self.text(),
    {
        let mut s = self.artist.clone();
        append_str(&mut s, " - (");
        append_str(&mut s, decimal_string(self.year as usize).as_str());
        append_str(&mut s, ") ");
        append_str(&mut s, self.title.as_str());
        s
    }

    /// A copy of the identifier.
    pub fn duplicate(&self) -> (r: Self)
        ensures
            r == *self,
    {
        AlbumIdentifier { title: self.title.clone(), artist: self.artist.clone(), year: self.year }
    }
}

impl PartialEq for AlbumIdentifier {
    fn eq(&self, other: &Self) -> (r: bool) {
        self.title == other.title && self.artist == other.artist && self.year == other.year
    }
}

impl vstd::std_specs::cmp::PartialEqSpecImpl for AlbumIdentifier {
    open spec fn obeys_eq_spec() -> bool {
        true
    }

    open spec fn eq_spec(&self, other: &Self) -> bool {
        self.same(*other)
    }
}

impl Eq for AlbumIdentifier {

}

/// Every release directory was loaded.
pub open spec fn all_loaded(s: Seq<Result<Release, ReleaseError>>) -> bool {
    forall|i: int| 0 <= i < s.len() ==> #[trigger] s[i] is Ok
}

/// The loaded releases.
pub open spec fn loaded_releases(s: Seq<Result<Release, ReleaseError>>) -> Seq<Release> {
    s.map_values(|x: Result<Release, ReleaseError>| x->Ok_0)
}

/// Two of the releases share an identifier.
pub open spec fn has_repeated_release(s: Seq<Release>) -> bool {
    exists|i: int, j: int|
        0 <= i < j < s.len() && #[trigger] s[i].spec_manifest().id.same(
            #[trigger] s[j].spec_manifest().id,
        )
}

impl Album {
    /// The directory of the album.
    pub closed spec fn spec_path(&self) -> Seq<char> {
        self.path@
    }

    /// The manifest of the album.
    pub closed spec fn spec_manifest(&self) -> AlbumManifest {
        self.manifest
    }

    /// The manifest file of the album directory `path`.
    pub fn manifest_file(path: &str) -> (r: String)
        ensures
            r@ == spec_path_join(path@, "album.toml"@),
    {
        path_join(path, "album.toml")
    }

    /// Loads the album directory `path` from what was read of it: whether it
    /// is a directory, and its manifest file. Any failure is reported as the
    /// album's load error.
    pub fn load(
        path: &str,
        dir: Result<(), FilesystemError>,
        manifest: Result<AlbumManifest, ManifestError>,
    ) -> (r: Result<Album, AlbumError>)
        ensures
            match (dir, manifest) {
                (Ok(_), Ok(m)) => r matches Ok(a) && a.spec_path() == path@ && a.spec_manifest()
                    == m,
                _ => r matches Err(AlbumError::Load { path: e }) && e@ == path@,
            },
    {
        match (dir, manifest) {
            (Ok(_), Ok(m)) => Ok(Album { path: path.to_string(), manifest: m }),
            _ => Err(AlbumError::Load { path: path.to_string() }),
        }
    }

    /// The releases of the album, from the listing of its directory and the
    /// loading of each release directory in it, in the order of the listing.
    /// Fails where the listing or a load failed, or where two releases share
    /// an identifier.
    pub fn load_releases(
        &self,
        listed: Result<(), FilesystemError>,
        loaded: Vec<Result<Release, ReleaseError>>,
    ) -> (r: Result<Vec<Release>, AlbumError>)
        ensures
            match r {
                Ok(v) => {
                    &&& listed is Ok
                    &&& all_loaded(loaded@)
                    &&& v@ == loaded_releases(loaded@)
                    &&& !has_repeated_release(v@)
                },
                Err(e) => {
                    &&& !(listed is Ok && all_loaded(loaded@) && !has_repeated_release(
                        loaded_releases(loaded@),
                    ))
                    &&& e == AlbumError::LoadReleases { id: self.spec_manifest().id }
                },
            },
    {
        if listed.is_err() {
            return Err(AlbumError::LoadReleases { id: self.manifest.id.duplicate() });
        }
        let ghost s = loaded@;
        let mut releases: Vec<Release> = Vec::new();
        for x in it: loaded.into_iter()
            invariant
                it.seq() == s,
                listed is Ok,
                releases@ == loaded_releases(s.take(it.index())),
                forall|i: int| 0 <= i < it.index() ==> #[trigger] s[i] is Ok,
                !has_repeated_release(releases@),
        {
            let ghost j = it.index();
            assert(x == s[j]);
            let release = match x {
                Ok(release) => release,
                Err(_) => {
                    assert(!all_loaded(s));
                    return Err(AlbumError::LoadReleases { id: self.manifest.id.duplicate() });
                },
            };
            let mut k: usize = 0;
            while k < releases.len()
                invariant
                    k <= releases@.len(),
                    0 <= j < s.len(),
                    releases@ == loaded_releases(s.take(j)),
                    s[j] == Ok::<Release, ReleaseError>(release),
                    s == loaded@,
                    listed is Ok,
                    forall|a: int|
                        0 <= a < k ==> !releases@[a].spec_manifest().id.same(
                            release.spec_manifest().id,
                        ),
                decreases releases@.len() - k,
            {
                if releases[k] == release {
                    proof {
                        let t = loaded_releases(s);
                        if all_loaded(s) {
                            assert(s.take(j)[k as int] == s[k as int]);
                            assert(t[k as int] == releases@[k as int]);
                            assert(t[j] == release);
                            assert(t[k as int].spec_manifest().id.same(t[j].spec_manifest().id));
                            assert(has_repeated_release(t));
                        }
                    }
                    return Err(AlbumError::LoadReleases { id: self.manifest.id.duplicate() });
                }
                k += 1;
            }
            let ghost before = releases@;
            releases.push(release);
            proof {
                assert(loaded_releases(s.take(j + 1)) =~= before.push(release));
                assert forall|a: int, b: int|
                    0 <= a < b < releases@.len() implies !releases@[a].spec_manifest().id.same(
                    releases@[b].spec_manifest().id,
                ) by {
                    if b < before.len() {
                        assert(releases@[a] == before[a] && releases@[b] == before[b]);
                    }
                }
            }
        }
        proof {
            assert(s.take(s.len() as int) =~= s);
        }
        Ok(releases)
    }

    /// The directory of the album.
    pub fn path(&self) -> (r: &str)
        ensures
            r@ == self.spec_path(),
    {
        self.path.as_str()
    }

    /// The text of the album: that of its identifier.
    pub fn to_string(&self) -> (s: String)
        ensures
            s@ == self.spec_manifest().id.text(),
    {
        self.manifest.id.to_string()
    }
}

impl PartialEq for Album {
    fn eq(&self, other: &Self) -> (r: bool) {
        self.manifest.id == other.manifest.id
    }
}

impl vstd::std_specs::cmp::PartialEqSpecImpl for Album {
    open spec fn obeys_eq_spec() -> bool {
        true
    }

    open spec fn eq_spec(&self, other: &Self) -> bool {
        self.spec_manifest().id.same(other.spec_manifest().id)
    }
}

impl Eq for Album {

}

} // verus!

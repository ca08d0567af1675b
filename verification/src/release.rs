//! A release directory: its manifest and its mapping of tracks to files.

use vstd::prelude::*;
use crate::filesystem::FilesystemError;
use crate::manifest::ManifestError;
use crate::mapping::MappingManifest;
use crate::paths::{path_join, spec_path_join};
use crate::text::{append_str, decimal, decimal_string, literal};
use crate::tracklist::Disc;

verus! {

/// A loaded release directory.
pub struct Release {
    path: String,
    manifest: ReleaseManifest,
    mapping: MappingManifest,
}

/// The manifest of a release: its identifier and its tracklist.
pub struct ReleaseManifest {
    pub id: ReleaseIdentifier,
    pub discs: Vec<Disc>,
}

/// The identifier of a release.
pub struct ReleaseIdentifier {
    pub year: u16,
    pub catalog_number: String,
    pub media_type: String,
    pub audio_channels: String,
    pub provenance: String,
}

/// An error of loading a release.
pub enum ReleaseError {
    /// The release at `path` could not be loaded.
    Load { path: String },
}

impl ReleaseIdentifier {
    /// Two identifiers are equal: they hold the same year and texts.
    pub open spec fn same(self, other: Self) -> bool {
        &&& self.year == other.year
        &&& self.catalog_number@ == other.catalog_number@
        &&& self.media_type@ == other.media_type@
        &&& self.audio_channels@ == other.audio_channels@
        &&& self.provenance@ == other.provenance@
    }

    /// The text of the identifier:
    /// `(year) catalog_number [media_type, audio_channels, provenance]`.
    pub open spec fn text(self) -> Seq<char> {
        "("@ + decimal(self.year as nat) + ") "@ + self.catalog_number@ + " ["@ + self.media_type@
            + ", "@ + self.audio_channels@ + ", "@ + self.provenance@ + "]"@
    }

    /// Renders the identifier as its text.
    pub fn to_string(&self) -> (s: String)
        ensures
            s@ == self.text(),
    {
        let mut s = literal("(");
        append_str(&mut s, decimal_string(self.year as usize).as_str());
        append_str(&mut s, ") ");
        append_str(&mut s, self.catalog_number.as_str());
        append_str(&mut s, " [");
        append_str(&mut s, self.media_type.as_str());
        append_str(&mut s, ", ");
        append_str(&mut s, self.audio_channels.as_str());
        append_str(&mut s, ", ");
        append_str(&mut s, self.provenance.as_str());
        append_str(&mut s, "]");
        s
    }
}

impl PartialEq for ReleaseIdentifier {
    fn eq(&self, other: &Self) -> (r: bool) {
        self.year == other.year && self.catalog_number == other.catalog_number && self.media_type
            == other.media_type && self.audio_channels == other.audio_channels && self.provenance
            == other.provenance
    }
}

impl vstd::std_specs::cmp::PartialEqSpecImpl for ReleaseIdentifier {
    open spec fn obeys_eq_spec() -> bool {
        true
    }

    open spec fn eq_spec(&self, other: &Self) -> bool {
        self.same(*other)
    }
}

impl Eq for ReleaseIdentifier {

}

impl Release {
    /// The directory of the release.
    pub closed spec fn spec_path(&self) -> Seq<char> {
        self.path@
    }

    /// The manifest of the release.
    pub closed spec fn spec_manifest(&self) -> ReleaseManifest {
        self.manifest
    }

    /// The mapping of the release.
    pub closed spec fn spec_mapping(&self) -> MappingManifest {
        self.mapping
    }

    /// The manifest file of the release directory `path`.
    pub fn manifest_file(path: &str) -> (r: String)
        ensures
            r@ == spec_path_join(path@, "release.toml"@),
    {
        path_join(path, "release.toml")
    }

    /// The mapping file of the release directory `path`.
    pub fn mapping_file(path: &str) -> (r: String)
        ensures
            r@ == spec_path_join(path@, "mapping.toml"@),
    {
        path_join(path, "mapping.toml")
    }

    /// Loads the release directory `path` from what was read of it: whether it
    /// is a directory, and its manifest and mapping files. Any failure is
    /// reported as the release's load error.
    pub fn load(
        path: &str,
        dir: Result<(), FilesystemError>,
        manifest: Result<ReleaseManifest, ManifestError>,
        mapping: Result<MappingManifest, ManifestError>,
    ) -> (r: Result<Release, ReleaseError>)
        ensures
            match (dir, manifest, mapping) {
                (Ok(_), Ok(m), Ok(p)) => r matches Ok(rel) && rel.spec_path() == path@
                    && rel.spec_manifest() == m && rel.spec_mapping() == p,
                _ => r matches Err(ReleaseError::Load { path: e }) && e@ == path@,
            },
    {
        match (dir, manifest, mapping) {
            (Ok(_), Ok(m), Ok(p)) => Ok(Release { path: path.to_string(), manifest: m, mapping: p }),
            _ => Err(ReleaseError::Load { path: path.to_string() }),
        }
    }

    /// The directory of the release.
    pub fn path(&self) -> (r: &str)
        ensures
            r@ == self.spec_path(),
    {
        self.path.as_str()
    }

    /// The identifier of the release.
    pub fn id(&self) -> (r: &ReleaseIdentifier)
        ensures
            *r == self.spec_manifest().id,
    {
        &self.manifest.id
    }

    /// The text of the release: that of its identifier.
    pub fn to_string(&self) -> (s: String)
        ensures
            s@ == self.spec_manifest().id.text(),
    {
        self.manifest.id.to_string()
    }
}

impl PartialEq for Release {
    fn eq(&self, other: &Self) -> (r: bool) {
        self.manifest.id == other.manifest.id
    }
}

impl vstd::std_specs::cmp::PartialEqSpecImpl for Release {
    open spec fn obeys_eq_spec() -> bool {
        true
    }

    open spec fn eq_spec(&self, other: &Self) -> bool {
        self.spec_manifest().id.same(other.spec_manifest().id)
    }
}

impl Eq for Release {

}

} // verus!

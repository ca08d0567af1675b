//! Errors of reading and writing TOML manifests.

use vstd::prelude::*;

verus! {

/// An error of a manifest file.
pub enum ManifestError {
    /// The manifest could not be read from `file` or parsed.
    LoadManifest { file: String },
    /// The manifest could not be serialized or written to `file`.
    SaveManifest { file: String },
}

} // verus!

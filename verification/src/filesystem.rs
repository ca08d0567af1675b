//! Errors of filesystem operations, and the decisions made on what reading a
//! path's metadata found.

use vstd::prelude::*;

verus! {

/// `std::time::SystemTime`, carried through as an opaque value.
#[verifier::external_type_specification]
#[verifier::external_body]
pub struct ExSystemTime(std::time::SystemTime);

/// An error of a filesystem operation.
pub enum FilesystemError {
    /// The modification time and size of `path` could not be read.
    GetMtimeSize { path: String },
    /// `file` is not a file.
    RequireFile { file: String },
    /// No file could be made to exist at `file`.
    EnsureFile { file: String },
    /// No directory could be made to exist at `dir`.
    EnsureDir { dir: String },
    /// `dir` could not be deleted.
    DeleteDir { dir: String },
    /// `from` could not be copied to `to`.
    CopyFile { from: String, to: String },
    /// `from` could not be moved to `to`.
    MoveFile { from: String, to: String },
}

/// What reading the metadata of a path found.
pub enum MetadataProbe {
    /// Something exists at the path: whether it is a file, its size in bytes,
    /// and its modification time where the platform gives one.
    Found { is_file: bool, len: u64, modified: Option<std::time::SystemTime> },
    /// Nothing exists at the path.
    NotFound,
    /// The metadata could not be read.
    Unreadable,
}

/// The modification time and size of `path`, from what reading its metadata
/// found: an error unless something exists there and has a modification time.
pub fn get_mtime_size(path: &str, probe: MetadataProbe) -> (r: Result<
    (std::time::SystemTime, u64),
    FilesystemError,
>)
    ensures
        match probe {
            MetadataProbe::Found { len, modified: Some(t), .. } => r == Ok::<
                (std::time::SystemTime, u64),
                FilesystemError,
            >((t, len)),
            _ => r matches Err(FilesystemError::GetMtimeSize { path: p }) && p@ == path@,
        },
{
    match probe {
        MetadataProbe::Found { len, modified: Some(t), .. } => Ok((t, len)),
        _ => Err(FilesystemError::GetMtimeSize { path: path.to_string() }),
    }
}

/// Whether `file` is a file, from what reading its metadata found.
pub fn require_file(file: &str, probe: MetadataProbe) -> (r: Result<(), FilesystemError>)
    ensures
        match probe {
            MetadataProbe::Found { is_file: true, .. } => r is Ok,
            _ => r matches Err(FilesystemError::RequireFile { file: f }) && f@ == file@,
        },
{
    match probe {
        MetadataProbe::Found { is_file: true, .. } => Ok(()),
        _ => Err(FilesystemError::RequireFile { file: file.to_string() }),
    }
}

} // verus!

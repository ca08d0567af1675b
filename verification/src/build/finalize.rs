//! Finalized units: the processed track files moved from the unit's build
//! directory into the unit's output directory.

use vstd::prelude::*;
use crate::build::normalize::all_moved;
use crate::build::process::ProcessedUnit;
use crate::build::raw::UnitTrack;
use crate::filesystem::FilesystemError;
use crate::model::{AlbumId, ReleaseId, album_id_text, release_id_text};
use crate::paths::{path_join, spec_path_file_name, spec_path_join};
use crate::text::append_str;

verus! {

/// A unit whose track files are in its output directory `dir`.
pub struct FinalizedUnit {
    pub dir: String,
    pub hash: [u8; 32],
}

/// An error of finalizing a unit.
pub enum FinalizeError {
    /// The unit of the release `release` of the album `album` could not be finalized.
    FinalizeUnit { album: AlbumId, release: ReleaseId },
}

/// The output directory of a unit: `{album}/{release}` in the configured
/// output directory, each named by the text of its identifier.
pub open spec fn finalized_dir(unit: ProcessedUnit) -> Seq<char> {
    spec_path_join(
        unit.config.output_dir@,
        album_id_text(unit.album_info.id) + "/"@ + release_id_text(unit.release_info.id),
    )
}

/// Where a track's file goes in `dir`: under its file name, where it has one.
pub open spec fn finalized_file(dir: Seq<char>, t: UnitTrack) -> Option<Seq<char>> {
    match spec_path_file_name(t.file@) {
        Some(n) => Some(spec_path_join(dir, n)),
        None => None,
    }
}

/// Every one of `tracks` has a file name.
pub open spec fn all_named(tracks: Seq<UnitTrack>) -> bool {
    forall|i: int| 0 <= i < tracks.len() ==> #[trigger] spec_path_file_name(tracks[i].file@) is Some
}

impl FinalizedUnit {
    /// The output directory of a unit.
    pub fn output_dir(unit: &ProcessedUnit) -> (r: String)
        ensures
            r@ == finalized_dir(*unit),
    {
        let mut name = unit.album_info.id.to_string();
        append_str(&mut name, "/");
        append_str(&mut name, unit.release_info.id.to_string().as_str());
        path_join(unit.config.output_dir.as_str(), name.as_str())
    }

    /// Where `track`'s file goes in `dir`, if it has a file name.
    pub fn track_target(dir: &str, track: &UnitTrack) -> (r: Option<String>)
        ensures
            match r {
                Some(f) => finalized_file(dir@, *track) == Some(f@),
                None => finalized_file(dir@, *track) is None,
            },
    {
        match track.file_name() {
            Some(n) => Some(path_join(dir, n.as_str())),
            None => None,
        }
    }

    /// Finalizes a processed unit, from making its output directory exist and
    /// the moves of its track files there, done in order until one failed.
    /// Fails where the directory was not made, a track's file has no file
    /// name, or a move was not done.
    pub fn new(
        unit: ProcessedUnit<'_>,
        made: Result<(), FilesystemError>,
        moved: &Vec<Result<(), FilesystemError>>,
    ) -> (r: Result<FinalizedUnit, FinalizeError>)
        ensures
            match r {
                Ok(f) => {
                    &&& made is Ok
                    &&& all_named(unit.tracks@)
                    &&& all_moved(moved@, unit.tracks@.len() as int)
                    &&& f.dir@ == finalized_dir(unit)
                    &&& f.hash == unit.hash
                },
                Err(e) => {
                    &&& !(made is Ok && all_named(unit.tracks@) && all_moved(
                        moved@,
                        unit.tracks@.len() as int,
                    ))
                    &&& e == FinalizeError::FinalizeUnit {
                        album: unit.album_info.id,
                        release: unit.release_info.id,
                    }
                },
            },
    {
        let dir = FinalizedUnit::output_dir(&unit);
        if made.is_err() {
            return Err(
                FinalizeError::FinalizeUnit {
                    album: unit.album_info.id.duplicate(),
                    release: unit.release_info.id.duplicate(),
                },
            );
        }
        let mut i: usize = 0;
        while i < unit.tracks.len()
            invariant
                i <= unit.tracks@.len(),
                made is Ok,
                forall|j: int| 0 <= j < i ==> spec_path_file_name(#[trigger] unit.tracks@[j].file@) is Some,
                forall|j: int| 0 <= j < i ==> j < moved@.len() && #[trigger] moved@[j] is Ok,
            decreases unit.tracks@.len() - i,
        {
            let target = FinalizedUnit::track_target(dir.as_str(), &unit.tracks[i]);
            if target.is_none() || i >= moved.len() || moved[i].is_err() {
                proof {
                    if target.is_none() {
                        assert(!all_named(unit.tracks@));
                    } else {
                        assert(!(i < moved@.len() && moved@[i as int] is Ok));
                        assert(!all_moved(moved@, unit.tracks@.len() as int));
                    }
                }
                return Err(
                    FinalizeError::FinalizeUnit {
                        album: unit.album_info.id.duplicate(),
                        release: unit.release_info.id.duplicate(),
                    },
                );
            }
            i += 1;
        }
        Ok(FinalizedUnit { dir, hash: unit.hash })
    }
}

} // verus!

//! Normalized units: each track's file renamed to
//! `{disc_number}.{track_number:02} {title}` with its original extension.

use vstd::prelude::*;
use crate::build::prepare::PreparedUnit;
use crate::build::raw::UnitTrack;
use crate::filesystem::FilesystemError;
use crate::model::{AlbumId, AlbumInfo, Config, ReleaseId, ReleaseInfo};
use crate::paths::{
    contains_separator, has_separator, path_join, path_with_added_extension, spec_path_extension,
    spec_path_join, spec_path_with_added_extension,
};
use crate::text::{append_str, decimal, decimal_pad2, decimal_pad2_string, decimal_string, literal};

verus! {

/// A unit whose track files carry their normalized names.
pub struct NormalizedUnit<'a> {
    pub dir: String,
    pub config: &'a Config,
    pub album_info: &'a AlbumInfo,
    pub release_info: &'a ReleaseInfo,
    pub tracks: Vec<UnitTrack<'a>>,
    pub hash: [u8; 32],
}

/// An error of normalizing a unit.
pub enum NormalizeError {
    /// The unit of the release `release` of the album `album` could not be normalized.
    NormalizeUnit { album: AlbumId, release: ReleaseId },
}

/// The normalized name of a track: `{disc_number}.{track_number:02} {title}`,
/// numbered from one.
pub open spec fn normalized_name(t: UnitTrack) -> Seq<char> {
    decimal((t.disc_index + 1) as nat) + "."@ + decimal_pad2((t.track_index + 1) as nat) + " "@
        + t.track_info.title@
}

/// The extension that a track's normalized file takes: that of its file, or
/// an empty extension where it has none.
pub open spec fn normalized_extension(t: UnitTrack) -> Seq<char> {
    match spec_path_extension(t.file@) {
        Some(e) => e,
        None => Seq::empty(),
    }
}

/// The normalized file of a track in `dir`: its normalized name with its
/// normalized extension added. An extension that holds a path separator
/// cannot be added to a file name: then there is none.
pub open spec fn normalized_file(dir: Seq<char>, t: UnitTrack) -> Option<Seq<char>> {
    if has_separator(normalized_extension(t)) {
        None
    } else {
        Some(
            spec_path_with_added_extension(
                spec_path_join(dir, normalized_name(t)),
                normalized_extension(t),
            ),
        )
    }
}

/// Every one of `tracks` has a normalized file in `dir`.
pub open spec fn all_normalizable(dir: Seq<char>, tracks: Seq<UnitTrack>) -> bool {
    forall|i: int| 0 <= i < tracks.len() ==> #[trigger] normalized_file(dir, tracks[i]) is Some
}

/// The places of a track can be numbered from one.
pub open spec fn numbered(t: UnitTrack) -> bool {
    t.disc_index < usize::MAX && t.track_index < usize::MAX
}

/// Every move of the first `n` moves was done.
pub open spec fn all_moved(moved: Seq<Result<(), FilesystemError>>, n: int) -> bool {
    forall|i: int| 0 <= i < n ==> i < moved.len() && #[trigger] moved[i] is Ok
}

/// `t` is the track `u` held by `file`.
pub open spec fn moved_track(t: UnitTrack, u: UnitTrack, file: Option<Seq<char>>) -> bool {
    &&& t.disc_index == u.disc_index
    &&& t.track_index == u.track_index
    &&& t.disc_info == u.disc_info
    &&& t.track_info == u.track_info
    &&& file == Some(t.file@)
}

impl<'a> NormalizedUnit<'a> {
    /// The normalized file of `track` in `dir`, if its extension can be added.
    pub fn track_file(dir: &str, track: &UnitTrack) -> (r: Option<String>)
        requires
            numbered(*track),
        ensures
            match r {
                Some(f) => normalized_file(dir@, *track) == Some(f@),
                None => normalized_file(dir@, *track) is None,
            },
    {
        let mut name = decimal_string(track.disc_index + 1);
        append_str(&mut name, ".");
        append_str(&mut name, decimal_pad2_string(track.track_index + 1).as_str());
        append_str(&mut name, " ");
        append_str(&mut name, track.track_info.title.as_str());
        let extension = match track.extension() {
            Some(e) => e,
            None => literal(""),
        };
        proof {
            reveal_strlit("");
            assert(name@ =~= normalized_name(*track));
            assert(""@ =~= Seq::<char>::empty());
        }
        if contains_separator(extension.as_str()) {
            return None;
        }
        let joined = path_join(dir, name.as_str());
        Some(path_with_added_extension(joined.as_str(), extension.as_str()))
    }

    /// Normalizes a prepared unit, from the moves of its track files to their
    /// normalized files in the unit's directory, done in order until one
    /// failed. Fails where a track's file has no normalized file (its
    /// extension holds a path separator) or a move of a track's file was not
    /// done.
    pub fn new(unit: PreparedUnit<'a>, moved: &Vec<Result<(), FilesystemError>>) -> (r: Result<
        NormalizedUnit<'a>,
        NormalizeError,
    >)
        requires
            forall|i: int| 0 <= i < unit.tracks@.len() ==> #[trigger] numbered(unit.tracks@[i]),
        ensures
            match r {
                Ok(u) => {
                    &&& all_normalizable(unit.dir@, unit.tracks@)
                    &&& all_moved(moved@, unit.tracks@.len() as int)
                    &&& u.dir == unit.dir
                    &&& u.config == unit.config
                    &&& u.album_info == unit.album_info
                    &&& u.release_info == unit.release_info
                    &&& u.hash == unit.hash
                    &&& u.tracks@.len() == unit.tracks@.len()
                    &&& forall|i: int|
                        0 <= i < u.tracks@.len() ==> #[trigger] moved_track(
                            u.tracks@[i],
                            unit.tracks@[i],
                            normalized_file(unit.dir@, unit.tracks@[i]),
                        )
                },
                Err(e) => {
                    &&& !(all_normalizable(unit.dir@, unit.tracks@) && all_moved(
                        moved@,
                        unit.tracks@.len() as int,
                    ))
                    &&& e == NormalizeError::NormalizeUnit {
                        album: unit.album_info.id,
                        release: unit.release_info.id,
                    }
                },
            },
    {
        let mut tracks: Vec<UnitTrack<'a>> = Vec::new();
        let mut i: usize = 0;
        while i < unit.tracks.len()
            invariant
                i <= unit.tracks@.len(),
                forall|j: int| 0 <= j < unit.tracks@.len() ==> #[trigger] numbered(unit.tracks@[j]),
                tracks@.len() == i,
                forall|j: int| 0 <= j < i ==> j < moved@.len() && #[trigger] moved@[j] is Ok,
                forall|j: int| 0 <= j < i ==> #[trigger] normalized_file(unit.dir@, unit.tracks@[j]) is Some,
                forall|j: int|
                    0 <= j < i ==> #[trigger] moved_track(
                        tracks@[j],
                        unit.tracks@[j],
                        normalized_file(unit.dir@, unit.tracks@[j]),
                    ),
            decreases unit.tracks@.len() - i,
        {
            let track = &unit.tracks[i];
            proof {
                assert(numbered(unit.tracks@[i as int]));
            }
            let file = match NormalizedUnit::track_file(unit.dir.as_str(), track) {
                Some(f) => f,
                None => {
                    proof {
                        assert(!all_normalizable(unit.dir@, unit.tracks@));
                    }
                    return Err(
                        NormalizeError::NormalizeUnit {
                            album: unit.album_info.id.duplicate(),
                            release: unit.release_info.id.duplicate(),
                        },
                    );
                },
            };
            if i >= moved.len() || moved[i].is_err() {
                proof {
                    assert(!(i < moved@.len() && moved@[i as int] is Ok));
                    assert(!all_moved(moved@, unit.tracks@.len() as int));
                }
                return Err(
                    NormalizeError::NormalizeUnit {
                        album: unit.album_info.id.duplicate(),
                        release: unit.release_info.id.duplicate(),
                    },
                );
            }
            tracks.push(track.with_file(file.as_str()));
            i += 1;
        }
        Ok(
            NormalizedUnit {
                dir: unit.dir,
                config: unit.config,
                album_info: unit.album_info,
                release_info: unit.release_info,
                tracks,
                hash: unit.hash,
            },
        )
    }
}

} // verus!

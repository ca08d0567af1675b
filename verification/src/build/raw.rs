//! Raw units: the tracks of a release, with each file resolved in the release
//! directory, and the BLAKE3 hash of the unit's fingerprint.

use vstd::prelude::*;
use crate::build::hash::{blake3_digest, blake3_hash};
use crate::model::{AlbumId, AlbumInfo, Config, Disc, DiscInfo, ReleaseId, ReleaseInfo, TrackInfo};
use crate::paths::{
    path_extension, path_file_name, path_join, spec_path_extension, spec_path_file_name,
    spec_path_join,
};

verus! {

/// A track of a unit: its place in the tracklist, what the model knows of its
/// disc and of it, and the file that holds it.
pub struct UnitTrack<'a> {
    pub disc_index: usize,
    pub track_index: usize,
    pub disc_info: &'a DiscInfo,
    pub track_info: &'a TrackInfo,
    pub file: String,
}

impl<'a> UnitTrack<'a> {
    /// The extension of the track's file, if it has one.
    pub fn extension(&self) -> (r: Option<String>)
        ensures
            match r {
                Some(e) => spec_path_extension(self.file@) == Some(e@),
                None => spec_path_extension(self.file@) is None,
            },
    {
        path_extension(self.file.as_str())
    }

    /// The file name of the track's file, if it has one.
    pub fn file_name(&self) -> (r: Option<String>)
        ensures
            match r {
                Some(n) => spec_path_file_name(self.file@) == Some(n@),
                None => spec_path_file_name(self.file@) is None,
            },
    {
        path_file_name(self.file.as_str())
    }

    /// The same track, held by `file`.
    pub fn with_file(&self, file: &str) -> (r: UnitTrack<'a>)
        ensures
            r.disc_index == self.disc_index,
            r.track_index == self.track_index,
            r.disc_info == self.disc_info,
            r.track_info == self.track_info,
            r.file@ == file@,
    {
        UnitTrack {
            disc_index: self.disc_index,
            track_index: self.track_index,
            disc_info: self.disc_info,
            track_info: self.track_info,
            file: file.to_string(),
        }
    }
}

/// The places of the tracks of `discs`, disc by disc and track by track.
pub open spec fn track_places(discs: Seq<Disc>) -> Seq<(int, int)>
    decreases discs.len(),
{
    if discs.len() == 0 {
        Seq::empty()
    } else {
        track_places(discs.drop_last()) + Seq::new(
            discs.last().tracks@.len(),
            |t: int| (discs.len() - 1, t),
        )
    }
}

/// `u` is the track at `place` of `discs`, with its file resolved in `release_dir`.
pub open spec fn is_unit_track(
    u: UnitTrack,
    discs: Seq<Disc>,
    place: (int, int),
    release_dir: Seq<char>,
) -> bool {
    let track = discs[place.0].tracks@[place.1];
    &&& u.disc_index == place.0
    &&& u.track_index == place.1
    &&& *u.disc_info == discs[place.0].info
    &&& *u.track_info == track.info
    &&& u.file@ == spec_path_join(release_dir, track.file@)
}

/// `tracks` are the tracks of `discs`, in order, with their files resolved in `release_dir`.
pub open spec fn are_unit_tracks(tracks: Seq<UnitTrack>, discs: Seq<Disc>, release_dir: Seq<char>) -> bool {
    &&& tracks.len() == track_places(discs).len()
    &&& forall|k: int|
        0 <= k < tracks.len() ==> #[trigger] is_unit_track(
            tracks[k],
            discs,
            track_places(discs)[k],
            release_dir,
        )
}

/// A unit made of a release of an album.
pub struct RawUnit<'a> {
    config: &'a Config,
    album_info: &'a AlbumInfo,
    release_info: &'a ReleaseInfo,
    tracks: Vec<UnitTrack<'a>>,
    hash: [u8; 32],
}

/// An error of making a raw unit.
pub enum RawError {
    /// No unit could be made of the release `release` of the album `album`.
    NewUnit { album: AlbumId, release: ReleaseId },
}

impl AlbumId {
    /// A copy of the identifier.
    pub fn duplicate(&self) -> (r: Self)
        ensures
            r == *self,
    {
        AlbumId { artist: self.artist.clone(), year: self.year, title: self.title.clone() }
    }
}

impl ReleaseId {
    /// A copy of the identifier.
    pub fn duplicate(&self) -> (r: Self)
        ensures
            r == *self,
    {
        ReleaseId {
            year: self.year,
            catalog_number: self.catalog_number.clone(),
            media_type: self.media_type.clone(),
            audio_channels: self.audio_channels.clone(),
            provenance: self.provenance.clone(),
        }
    }
}

proof fn lemma_track_places_len(discs: Seq<Disc>, d: int)
    requires
        0 <= d < discs.len(),
    ensures
        track_places(discs.take(d + 1)) == track_places(discs.take(d)) + Seq::new(
            discs[d].tracks@.len(),
            |t: int| (d, t),
        ),
{
    assert(discs.take(d + 1).drop_last() =~= discs.take(d));
}

proof fn lemma_track_places_in(discs: Seq<Disc>)
    ensures
        forall|k: int|
            #![trigger track_places(discs)[k]]
            0 <= k < track_places(discs).len() ==> {
                let p = track_places(discs)[k];
                0 <= p.0 < discs.len() && 0 <= p.1 < discs[p.0].tracks@.len()
            },
    decreases discs.len(),
{
    if discs.len() > 0 {
        let t = discs.drop_last();
        lemma_track_places_in(t);
        assert forall|k: int|
            #![trigger track_places(discs)[k]]
            0 <= k < track_places(discs).len() implies {
                let p = track_places(discs)[k];
                0 <= p.0 < discs.len() && 0 <= p.1 < discs[p.0].tracks@.len()
            } by {
            if k < track_places(t).len() {
                let p = track_places(t)[k];
                assert(track_places(discs)[k] == p);
                assert(t[p.0] == discs[p.0]);
            }
        }
    }
}

impl<'a> RawUnit<'a> {
    /// The configuration of the unit.
    pub closed spec fn spec_config(&self) -> &'a Config {
        self.config
    }

    /// The album of the unit.
    pub closed spec fn spec_album_info(&self) -> &'a AlbumInfo {
        self.album_info
    }

    /// The release of the unit.
    pub closed spec fn spec_release_info(&self) -> &'a ReleaseInfo {
        self.release_info
    }

    /// The tracks of the unit.
    pub closed spec fn spec_tracks(&self) -> Seq<UnitTrack<'a>> {
        self.tracks@
    }

    /// The hash of the unit.
    pub closed spec fn spec_hash(&self) -> Seq<u8> {
        self.hash@
    }

    /// The tracks of the unit.
    pub fn unit_tracks(&self) -> (r: &Vec<UnitTrack<'a>>)
        ensures
            r@ == self.spec_tracks(),
    {
        &self.tracks
    }

    /// The hash of the unit.
    pub fn hash(&self) -> (r: &[u8; 32])
        ensures
            r@ == self.spec_hash(),
    {
        &self.hash
    }

    /// Makes the unit of a release: its tracks, with files resolved in
    /// `release_dir`, and the BLAKE3 hash of its fingerprint. `fingerprint` is
    /// the encoding of the unit's configuration, album, release and tracks, or
    /// `None` where it could not be encoded.
    pub fn new(
        config: &'a Config,
        album_info: &'a AlbumInfo,
        release_info: &'a ReleaseInfo,
        discs: &'a Vec<Disc>,
        release_dir: &str,
        fingerprint: Option<Vec<u8>>,
    ) -> (r: Result<RawUnit<'a>, RawError>)
        ensures
            match fingerprint {
                Some(bytes) => r matches Ok(u) && {
                    &&& u.spec_config() == config
                    &&& u.spec_album_info() == album_info
                    &&& u.spec_release_info() == release_info
                    &&& are_unit_tracks(u.spec_tracks(), discs@, release_dir@)
                    &&& u.spec_hash() == blake3_digest(bytes@)
                },
                None => r matches Err(RawError::NewUnit { album, release }) && album
                    == album_info.id && release == release_info.id,
            },
    {
        let tracks = RawUnit::tracks(discs, release_dir);
        match fingerprint {
            Some(bytes) => {
                let hash = blake3_hash(bytes.as_slice());
                Ok(RawUnit { config, album_info, release_info, tracks, hash })
            },
            None => Err(
                RawError::NewUnit {
                    album: album_info.id.duplicate(),
                    release: release_info.id.duplicate(),
                },
            ),
        }
    }

    /// The tracks of `discs`, disc by disc and track by track, with each file
    /// resolved in `release_dir`.
    pub fn tracks(discs: &'a Vec<Disc>, release_dir: &str) -> (r: Vec<UnitTrack<'a>>)
        ensures
            are_unit_tracks(r@, discs@, release_dir@),
    {
        let mut tracks: Vec<UnitTrack<'a>> = Vec::new();
        let mut d: usize = 0;
        while d < discs.len()
            invariant
                d <= discs@.len(),
                are_unit_tracks(tracks@, discs@.take(d as int), release_dir@),
            decreases discs@.len() - d,
        {
            let disc = &discs[d];
            let ghost before = tracks@;
            let ghost row = Seq::new(disc.tracks@.len(), |t: int| (d as int, t));
            proof {
                lemma_track_places_len(discs@, d as int);
            }
            let mut t: usize = 0;
            while t < disc.tracks.len()
                invariant
                    d < discs@.len(),
                    disc == discs@[d as int],
                    t <= disc.tracks@.len(),
                    row == Seq::new(disc.tracks@.len(), |t: int| (d as int, t)),
                    before.len() == track_places(discs@.take(d as int)).len(),
                    tracks@.len() == before.len() + t,
                    forall|k: int| 0 <= k < before.len() ==> tracks@[k] == before[k],
                    forall|k: int|
                        0 <= k < before.len() ==> #[trigger] is_unit_track(
                            before[k],
                            discs@.take(d as int),
                            track_places(discs@.take(d as int))[k],
                            release_dir@,
                        ),
                    forall|k: int|
                        0 <= k < t ==> #[trigger] is_unit_track(
                            tracks@[before.len() + k],
                            discs@,
                            row[k],
                            release_dir@,
                        ),
                decreases disc.tracks@.len() - t,
            {
                let track = &disc.tracks[t];
                let u = UnitTrack {
                    disc_index: d,
                    track_index: t,
                    disc_info: &disc.info,
                    track_info: &track.info,
                    file: path_join(release_dir, track.file.as_str()),
                };
                tracks.push(u);
                t += 1;
            }
            proof {
                let places = track_places(discs@.take(d + 1));
                assert forall|k: int| 0 <= k < tracks@.len() implies #[trigger] is_unit_track(
                    tracks@[k],
                    discs@.take(d + 1),
                    places[k],
                    release_dir@,
                ) by {
                    if k < before.len() {
                        assert(is_unit_track(
                            before[k],
                            discs@.take(d as int),
                            track_places(discs@.take(d as int))[k],
                            release_dir@,
                        ));
                        let p = places[k];
                        assert(p == track_places(discs@.take(d as int))[k]);
                        lemma_track_places_in(discs@.take(d as int));
                        assert(discs@.take(d + 1)[p.0] == discs@.take(d as int)[p.0]);
                    } else {
                        assert(is_unit_track(
                            tracks@[before.len() + (k - before.len())],
                            discs@,
                            row[k - before.len()],
                            release_dir@,
                        ));
                    }
                }
            }
            d += 1;
        }
        proof {
            assert(discs@.take(discs@.len() as int) =~= discs@);
        }
        tracks
    }
}

} // verus!

use albumctl::build::finalize::{FinalizeError, FinalizedUnit};
use albumctl::build::normalize::{NormalizeError, NormalizedUnit};
use albumctl::build::prepare::PreparedUnit;
use albumctl::build::process::ProcessedUnit;
use albumctl::build::raw::{RawError, RawUnit};
use albumctl::build::UnitTrack;
use albumctl::filesystem::FilesystemError;
use albumctl::model::{
    AlbumId, AlbumInfo, Config, Disc, DiscInfo, ReleaseId, ReleaseInfo, Track, TrackInfo,
};

fn album_info() -> AlbumInfo {
    AlbumInfo {
        id: AlbumId {
            artist: "Wayne Shorter".to_string(),
            year: 1966,
            title: "Speak No Evil".to_string(),
        },
    }
}

fn release_info() -> ReleaseInfo {
    ReleaseInfo {
        id: ReleaseId {
            year: 2015,
            catalog_number: "MMBST-84194".to_string(),
            media_type: "CD".to_string(),
            audio_channels: "Stereo".to_string(),
            provenance: "Lossless".to_string(),
        },
    }
}

fn model_track(title: &str, file: &str) -> Track {
    Track { info: TrackInfo { title: title.to_string() }, file: file.to_string() }
}

fn discs() -> Vec<Disc> {
    vec![
        Disc {
            info: DiscInfo {},
            tracks: vec![model_track("Witch Hunt", "a/1.flac"), model_track("Fee-Fi-Fo-Fum", "a/2.flac")],
        },
        Disc { info: DiscInfo {}, tracks: vec![] },
        Disc { info: DiscInfo {}, tracks: vec![model_track("Infant Eyes", "b/1.wav")] },
    ]
}

fn failed_move() -> Result<(), FilesystemError> {
    Err(FilesystemError::MoveFile { from: "a".to_string(), to: "b".to_string() })
}

#[test]
fn raw_tracks_are_numbered_by_disc_and_track_and_resolved() {
    let d = discs();
    let tracks = RawUnit::tracks(&d, "release");
    let places: Vec<(usize, usize, &str, &str)> = tracks
        .iter()
        .map(|t| (t.disc_index, t.track_index, t.track_info.title.as_str(), t.file.as_str()))
        .collect();
    assert_eq!(
        places,
        vec![
            (0, 0, "Witch Hunt", "release/a/1.flac"),
            (0, 1, "Fee-Fi-Fo-Fum", "release/a/2.flac"),
            (2, 0, "Infant Eyes", "release/b/1.wav"),
        ]
    );
}

#[test]
fn raw_unit_hashes_its_fingerprint_with_blake3() {
    let config = Config { output_dir: "/music".to_string() };
    let (a, r, d) = (album_info(), release_info(), discs());
    let u = RawUnit::new(&config, &a, &r, &d, "release", Some(b"fingerprint".to_vec())).ok().unwrap();
    assert_eq!(u.hash(), blake3::hash(b"fingerprint").as_bytes());
    assert_ne!(u.hash(), &[0u8; 32]);
    assert_eq!(u.unit_tracks().len(), 3);
}

#[test]
fn raw_unit_fails_without_a_fingerprint() {
    let config = Config { output_dir: "/music".to_string() };
    let (a, r, d) = (album_info(), release_info(), discs());
    match RawUnit::new(&config, &a, &r, &d, "release", None) {
        Err(RawError::NewUnit { album, release }) => {
            assert_eq!(album.to_string(), "Wayne Shorter - (1966) Speak No Evil");
            assert_eq!(release.catalog_number, "MMBST-84194");
        },
        _ => panic!("expected the unit error"),
    }
}

fn prepared<'a>(
    config: &'a Config,
    album: &'a AlbumInfo,
    release: &'a ReleaseInfo,
    d: &'a Vec<Disc>,
) -> PreparedUnit<'a> {
    PreparedUnit {
        dir: "build".to_string(),
        config,
        album_info: album,
        release_info: release,
        tracks: RawUnit::tracks(d, "build"),
        hash: [7u8; 32],
    }
}

#[test]
fn normalized_file_is_numbered_titled_and_keeps_the_extension() {
    let d = discs();
    let tracks = RawUnit::tracks(&d, "build");
    assert_eq!(NormalizedUnit::track_file("build", &tracks[0]).unwrap(), "build/1.01 Witch Hunt.flac");
    assert_eq!(NormalizedUnit::track_file("build", &tracks[1]).unwrap(), "build/1.02 Fee-Fi-Fo-Fum.flac");
    assert_eq!(NormalizedUnit::track_file("build", &tracks[2]).unwrap(), "build/3.01 Infant Eyes.wav");
}

#[test]
fn normalized_file_of_a_file_without_extension_has_none() {
    let info = DiscInfo {};
    let title = TrackInfo { title: "Untitled".to_string() };
    let t = UnitTrack { disc_index: 9, track_index: 10, disc_info: &info, track_info: &title, file: "x/noext".to_string() };
    assert_eq!(NormalizedUnit::track_file("b", &t).unwrap(), "b/10.11 Untitled");
}

#[test]
fn normalizing_moves_every_track_file() {
    let config = Config { output_dir: "/music".to_string() };
    let (a, r, d) = (album_info(), release_info(), discs());
    let u = NormalizedUnit::new(prepared(&config, &a, &r, &d), &vec![Ok(()), Ok(()), Ok(())])
        .ok()
        .unwrap();
    let files: Vec<&str> = u.tracks.iter().map(|t| t.file.as_str()).collect();
    assert_eq!(
        files,
        vec!["build/1.01 Witch Hunt.flac", "build/1.02 Fee-Fi-Fo-Fum.flac", "build/3.01 Infant Eyes.wav"]
    );
    assert_eq!(u.hash, [7u8; 32]);
    assert_eq!(u.dir, "build");
}

#[test]
fn normalizing_fails_on_a_move_not_done() {
    let config = Config { output_dir: "/music".to_string() };
    let (a, r, d) = (album_info(), release_info(), discs());
    let e = NormalizedUnit::new(prepared(&config, &a, &r, &d), &vec![Ok(()), failed_move()]);
    assert!(matches!(e, Err(NormalizeError::NormalizeUnit { .. })));
    let e = NormalizedUnit::new(prepared(&config, &a, &r, &d), &vec![Ok(()), Ok(())]);
    assert!(matches!(e, Err(NormalizeError::NormalizeUnit { .. })));
}

fn processed<'a>(
    config: &'a Config,
    album: &'a AlbumInfo,
    release: &'a ReleaseInfo,
    d: &'a Vec<Disc>,
) -> ProcessedUnit<'a> {
    let n = NormalizedUnit::new(prepared(config, album, release, d), &vec![Ok(()), Ok(()), Ok(())])
        .ok()
        .unwrap();
    ProcessedUnit::new(n)
}

#[test]
fn processing_keeps_the_unit() {
    let config = Config { output_dir: "/music".to_string() };
    let (a, r, d) = (album_info(), release_info(), discs());
    let p = processed(&config, &a, &r, &d);
    assert_eq!(p.tracks.len(), 3);
    assert_eq!(p.dir, "build");
    assert_eq!(p.hash, [7u8; 32]);
}

#[test]
fn finalized_directory_names_album_and_release() {
    let config = Config { output_dir: "/music".to_string() };
    let (a, r, d) = (album_info(), release_info(), discs());
    let p = processed(&config, &a, &r, &d);
    assert_eq!(
        FinalizedUnit::output_dir(&p),
        "/music/Wayne Shorter - (1966) Speak No Evil/(2015) MMBST-84194 [CD, Stereo, Lossless]"
    );
    assert_eq!(FinalizedUnit::track_target("out", &p.tracks[0]).unwrap(), "out/1.01 Witch Hunt.flac");
}

#[test]
fn finalizing_needs_the_directory_and_every_move() {
    let config = Config { output_dir: "/music".to_string() };
    let (a, r, d) = (album_info(), release_info(), discs());
    let f = FinalizedUnit::new(processed(&config, &a, &r, &d), Ok(()), &vec![Ok(()), Ok(()), Ok(())])
        .ok()
        .unwrap();
    assert_eq!(f.hash, [7u8; 32]);
    assert!(f.dir.ends_with("(2015) MMBST-84194 [CD, Stereo, Lossless]"));
    let e = FinalizedUnit::new(
        processed(&config, &a, &r, &d),
        Err(FilesystemError::EnsureDir { dir: "x".to_string() }),
        &vec![Ok(()), Ok(()), Ok(())],
    );
    assert!(matches!(e, Err(FinalizeError::FinalizeUnit { .. })));
    let e = FinalizedUnit::new(processed(&config, &a, &r, &d), Ok(()), &vec![Ok(()), failed_move(), Ok(())]);
    assert!(matches!(e, Err(FinalizeError::FinalizeUnit { .. })));
}

#[test]
fn finalizing_fails_on_a_track_file_without_a_name() {
    let config = Config { output_dir: "/music".to_string() };
    let (a, r) = (album_info(), release_info());
    let info = DiscInfo {};
    let title = TrackInfo { title: "T".to_string() };
    let p = ProcessedUnit {
        dir: "build".to_string(),
        config: &config,
        album_info: &a,
        release_info: &r,
        tracks: vec![UnitTrack { disc_index: 0, track_index: 0, disc_info: &info, track_info: &title, file: "..".to_string() }],
        hash: [0u8; 32],
    };
    assert!(FinalizedUnit::track_target("out", &p.tracks[0]).is_none());
    let e = FinalizedUnit::new(p, Ok(()), &vec![Ok(())]);
    assert!(matches!(e, Err(FinalizeError::FinalizeUnit { .. })));
}

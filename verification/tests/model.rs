use albumctl::model::{
    Album, AlbumId, AlbumModel, Config, Disc, Model, ModelError, Release, ReleaseId,
    ReleaseModel, Track,
};
use albumctl::source::{
    AlbumManifest, AlbumSource, ConfigManifest, DiscManifest, ReleaseManifest, ReleaseSource,
    Source, TrackManifest,
};

fn track(title: &str, file: &str) -> TrackManifest {
    TrackManifest { title: title.to_string(), file: file.to_string() }
}

fn release(dir: &str, year: u16, catalog_number: &str) -> ReleaseSource {
    ReleaseSource {
        dir: dir.to_string(),
        manifest: ReleaseManifest {
            year,
            catalog_number: catalog_number.to_string(),
            media_type: "CD".to_string(),
            audio_channels: "Stereo".to_string(),
            provenance: "Lossless".to_string(),
            discs: vec![DiscManifest {
                tracks: vec![track("Witch Hunt", "01.flac"), track("Fee-Fi-Fo-Fum", "02.flac")],
            }],
        },
    }
}

fn album(dir: &str, artist: &str, year: u16, title: &str, releases: Vec<ReleaseSource>) -> AlbumSource {
    AlbumSource {
        dir: dir.to_string(),
        manifest: AlbumManifest { artist: artist.to_string(), year, title: title.to_string() },
        releases,
    }
}

fn source(albums: Vec<AlbumSource>) -> Source {
    Source {
        dir: "library".to_string(),
        config: ConfigManifest { output_dir: "/music".to_string() },
        albums,
    }
}

#[test]
fn album_id_renders_artist_year_and_title() {
    let id = AlbumId {
        artist: "Wayne Shorter".to_string(),
        year: 1966,
        title: "Speak No Evil".to_string(),
    };
    assert_eq!(id.to_string(), "Wayne Shorter - (1966) Speak No Evil");
}

#[test]
fn release_id_renders_year_catalog_number_and_tags() {
    let id = ReleaseId {
        year: 2015,
        catalog_number: "MMBST-84194".to_string(),
        media_type: "CD".to_string(),
        audio_channels: "Stereo".to_string(),
        provenance: "Lossless".to_string(),
    };
    assert_eq!(id.to_string(), "(2015) MMBST-84194 [CD, Stereo, Lossless]");
}

#[test]
fn release_id_renders_a_small_year_without_padding() {
    let id = ReleaseId {
        year: 7,
        catalog_number: "A".to_string(),
        media_type: "B".to_string(),
        audio_channels: "C".to_string(),
        provenance: "D".to_string(),
    };
    assert_eq!(id.to_string(), "(7) A [B, C, D]");
}

#[test]
fn track_and_disc_move_the_manifest_into_the_model() {
    let t = Track::from_manifest(track("Dance Cadaverous", "03.flac"));
    assert_eq!(t.info.title, "Dance Cadaverous");
    assert_eq!(t.file, "03.flac");
    let d = Disc::from_manifest(DiscManifest {
        tracks: vec![track("A", "a.flac"), track("B", "b.flac")],
    });
    assert_eq!(d.tracks.len(), 2);
    assert_eq!(d.tracks[1].info.title, "B");
    assert_eq!(d.tracks[1].file, "b.flac");
}

#[test]
fn release_album_and_config_move_the_manifest_into_the_model() {
    let r = Release::from_manifest(release("r", 2015, "MMBST-84194").manifest);
    assert_eq!(r.info.id.year, 2015);
    assert_eq!(r.info.id.catalog_number, "MMBST-84194");
    assert_eq!(r.discs.len(), 1);
    assert_eq!(r.discs[0].tracks[0].info.title, "Witch Hunt");
    let a = Album::from_manifest(AlbumManifest {
        artist: "Wayne Shorter".to_string(),
        year: 1966,
        title: "Speak No Evil".to_string(),
    });
    assert_eq!(a.info.id.artist, "Wayne Shorter");
    assert_eq!(a.info.id.year, 1966);
    let c = Config::from_manifest(ConfigManifest { output_dir: "/music".to_string() });
    assert_eq!(c.output_dir, "/music");
}

#[test]
fn release_model_keeps_the_directory() {
    let m = ReleaseModel::from_source(release("speak/2015", 2015, "MMBST-84194"));
    assert_eq!(m.dir, "speak/2015");
    assert_eq!(m.info.id.catalog_number, "MMBST-84194");
    assert_eq!(m.discs[0].tracks[1].file, "02.flac");
}

#[test]
fn album_model_orders_releases_by_identifier() {
    let a = album(
        "speak",
        "Wayne Shorter",
        1966,
        "Speak No Evil",
        vec![
            release("r2015b", 2015, "TOCJ-9001"),
            release("r1966", 1966, "BLP 4194"),
            release("r2015a", 2015, "MMBST-84194"),
        ],
    );
    let m = AlbumModel::from_source(a).ok().unwrap();
    let dirs: Vec<&str> = m.releases.iter().map(|r| r.dir.as_str()).collect();
    assert_eq!(dirs, vec!["r1966", "r2015a", "r2015b"]);
    assert_eq!(m.info.id.title, "Speak No Evil");
    assert_eq!(m.dir, "speak");
}

#[test]
fn album_model_refuses_two_releases_with_one_identifier() {
    let a = album(
        "speak",
        "Wayne Shorter",
        1966,
        "Speak No Evil",
        vec![
            release("first", 2015, "MMBST-84194"),
            release("other", 1999, "X"),
            release("second", 2015, "MMBST-84194"),
        ],
    );
    match AlbumModel::from_source(a) {
        Err(ModelError::ModelAlbum { dir, id, existing, duplicate }) => {
            assert_eq!(dir, "speak");
            assert_eq!(id, "(2015) MMBST-84194 [CD, Stereo, Lossless]");
            assert_eq!(existing, "first");
            assert_eq!(duplicate, "second");
        },
        _ => panic!("expected a duplicate release error"),
    }
}

#[test]
fn model_orders_albums_by_artist_then_year_then_title() {
    let s = source(vec![
        album("c", "Wayne Shorter", 1966, "Speak No Evil", vec![]),
        album("a", "Miles Davis", 1959, "Kind of Blue", vec![]),
        album("b", "Wayne Shorter", 1964, "Night Dreamer", vec![]),
        album("d", "Wayne Shorter", 1964, "JuJu", vec![]),
    ]);
    let m = Model::from_source(s).ok().unwrap();
    let dirs: Vec<&str> = m.albums.iter().map(|a| a.dir.as_str()).collect();
    assert_eq!(dirs, vec!["a", "d", "b", "c"]);
    assert_eq!(m.dir, "library");
    assert_eq!(m.config.output_dir, "/music");
}

#[test]
fn model_refuses_two_albums_with_one_identifier() {
    let s = source(vec![
        album("one", "Wayne Shorter", 1966, "Speak No Evil", vec![]),
        album("two", "Wayne Shorter", 1966, "Speak No Evil", vec![]),
    ]);
    match Model::from_source(s) {
        Err(ModelError::ModelSource { dir, id, existing, duplicate }) => {
            assert_eq!(dir, "library");
            assert_eq!(id, "Wayne Shorter - (1966) Speak No Evil");
            assert_eq!(existing, "one");
            assert_eq!(duplicate, "two");
        },
        _ => panic!("expected a duplicate album error"),
    }
}

#[test]
fn model_reports_the_first_album_at_which_it_stops() {
    let s = source(vec![
        album("one", "Wayne Shorter", 1966, "Speak No Evil", vec![]),
        album(
            "two",
            "Miles Davis",
            1959,
            "Kind of Blue",
            vec![release("x", 1997, "CK 64935"), release("y", 1997, "CK 64935")],
        ),
        album("three", "Wayne Shorter", 1966, "Speak No Evil", vec![]),
    ]);
    match Model::from_source(s) {
        Err(ModelError::ModelAlbum { dir, existing, duplicate, .. }) => {
            assert_eq!(dir, "two");
            assert_eq!(existing, "x");
            assert_eq!(duplicate, "y");
        },
        _ => panic!("expected the duplicate release error of the second album"),
    }
}

#[test]
fn model_of_an_empty_source_has_no_albums() {
    let m = Model::from_source(source(vec![])).ok().unwrap();
    assert!(m.albums.is_empty());
}

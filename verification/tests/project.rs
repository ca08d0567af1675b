use albumctl::album::{Album, AlbumError, AlbumIdentifier, AlbumManifest};
use albumctl::command;
use albumctl::commands::{self, CommandError};
use albumctl::dir::ReleaseDir;
use albumctl::filesystem::{get_mtime_size, require_file, FilesystemError, MetadataProbe};
use albumctl::manifest::ManifestError;
use albumctl::mapping::{MappingDisc, MappingManifest, MappingTrack};
use albumctl::project::{Project, ProjectError, ProjectManifest};
use albumctl::release::{Release, ReleaseError, ReleaseIdentifier, ReleaseManifest};
use albumctl::tracklist::{Disc, Track};
use albumctl::tree::ReleaseTree;
use std::path::Path;
use std::time::{Duration, SystemTime};

fn album_manifest() -> AlbumManifest {
    AlbumManifest {
        id: AlbumIdentifier {
            title: "Speak No Evil".to_string(),
            artist: "Wayne Shorter".to_string(),
            year: 1966,
        },
    }
}

fn release_manifest(catalog_number: &str) -> ReleaseManifest {
    ReleaseManifest {
        id: ReleaseIdentifier {
            year: 2015,
            catalog_number: catalog_number.to_string(),
            media_type: "CD".to_string(),
            audio_channels: "Stereo".to_string(),
            provenance: "Lossless".to_string(),
        },
        discs: vec![Disc { tracks: vec![Track { title: "Witch Hunt".to_string() }] }],
    }
}

fn mapping() -> MappingManifest {
    MappingManifest {
        discs: vec![MappingDisc { tracks: vec![MappingTrack { file: "01.flac".to_string() }] }],
    }
}

fn loaded_release(path: &str, catalog_number: &str) -> Result<Release, ReleaseError> {
    Release::load(path, Ok(()), Ok(release_manifest(catalog_number)), Ok(mapping()))
}

fn loaded_album() -> Album {
    Album::load("speak", Ok(()), Ok(album_manifest())).ok().unwrap()
}

fn joined(base: &str, name: &str) -> String {
    Path::new(base).join(name).to_string_lossy().into_owned()
}

#[test]
fn album_identifier_renders_artist_year_and_title() {
    assert_eq!(album_manifest().id.to_string(), "Wayne Shorter - (1966) Speak No Evil");
}

#[test]
fn release_identifier_renders_year_catalog_number_and_tags() {
    assert_eq!(
        release_manifest("MMBST-84194").id.to_string(),
        "(2015) MMBST-84194 [CD, Stereo, Lossless]"
    );
}

#[test]
fn identifiers_compare_by_their_fields() {
    assert!(release_manifest("A").id == release_manifest("A").id);
    assert!(release_manifest("A").id != release_manifest("B").id);
    assert!(album_manifest().id == album_manifest().id);
}

#[test]
fn album_manifest_file_is_album_toml_in_the_directory() {
    assert_eq!(Album::manifest_file("music/speak"), joined("music/speak", "album.toml"));
}

#[test]
fn album_loads_when_the_directory_and_manifest_were_read() {
    let a = loaded_album();
    assert_eq!(a.path(), "speak");
    assert_eq!(a.to_string(), "Wayne Shorter - (1966) Speak No Evil");
}

#[test]
fn album_load_fails_on_a_missing_directory_or_manifest() {
    let e = Album::load(
        "speak",
        Err(FilesystemError::RequireFile { file: "speak".to_string() }),
        Ok(album_manifest()),
    );
    assert!(matches!(e, Err(AlbumError::Load { path }) if path == "speak"));
    let e = Album::load(
        "speak",
        Ok(()),
        Err(ManifestError::LoadManifest { file: "speak/album.toml".to_string() }),
    );
    assert!(matches!(e, Err(AlbumError::Load { path }) if path == "speak"));
}

#[test]
fn albums_with_one_identifier_are_equal() {
    let a = loaded_album();
    let b = Album::load("elsewhere", Ok(()), Ok(album_manifest())).ok().unwrap();
    assert!(a == b);
}

#[test]
fn album_releases_keep_the_listing_order() {
    let a = loaded_album();
    let r = a
        .load_releases(Ok(()), vec![loaded_release("x", "B"), loaded_release("y", "A")])
        .ok()
        .unwrap();
    assert_eq!(r.len(), 2);
    assert_eq!(r[0].path(), "x");
    assert_eq!(r[1].path(), "y");
}

#[test]
fn album_releases_fail_on_a_repeated_identifier() {
    let a = loaded_album();
    let r = a.load_releases(
        Ok(()),
        vec![loaded_release("x", "A"), loaded_release("y", "B"), loaded_release("z", "A")],
    );
    match r {
        Err(AlbumError::LoadReleases { id }) => assert!(id == album_manifest().id),
        _ => panic!("expected the releases error"),
    }
}

#[test]
fn album_releases_fail_on_a_failed_listing_or_load() {
    let a = loaded_album();
    let r = a.load_releases(Err(FilesystemError::EnsureDir { dir: "speak".to_string() }), vec![]);
    assert!(matches!(r, Err(AlbumError::LoadReleases { .. })));
    let r = a.load_releases(
        Ok(()),
        vec![loaded_release("x", "A"), Err(ReleaseError::Load { path: "y".to_string() })],
    );
    assert!(matches!(r, Err(AlbumError::LoadReleases { .. })));
}

#[test]
fn release_files_are_in_the_directory() {
    assert_eq!(Release::manifest_file("r"), joined("r", "release.toml"));
    assert_eq!(Release::mapping_file("r"), joined("r", "mapping.toml"));
}

#[test]
fn release_loads_only_when_everything_was_read() {
    let r = loaded_release("r", "A").ok().unwrap();
    assert_eq!(r.path(), "r");
    assert_eq!(r.to_string(), "(2015) A [CD, Stereo, Lossless]");
    assert!(r.id() == &release_manifest("A").id);
    let e = Release::load(
        "r",
        Ok(()),
        Ok(release_manifest("A")),
        Err(ManifestError::LoadManifest { file: "r/mapping.toml".to_string() }),
    );
    assert!(matches!(e, Err(ReleaseError::Load { path }) if path == "r"));
}

#[test]
fn project_files_and_default_manifest() {
    assert_eq!(Project::manifest_file("lib"), joined("lib", "albumctl.toml"));
    assert_eq!(Project::default_manifest().output_dir, "~/Music");
}

#[test]
fn project_init_needs_the_directory_and_the_saved_manifest() {
    let ok = Project::init("lib", Project::default_manifest(), Ok(()), Some(Ok(())));
    assert!(ok.is_ok());
    let e = Project::init(
        "lib",
        Project::default_manifest(),
        Err(FilesystemError::EnsureDir { dir: "lib".to_string() }),
        None,
    );
    assert!(matches!(e, Err(ProjectError::Init { path }) if path == "lib"));
    let e = Project::init("lib", Project::default_manifest(), Ok(()), None);
    assert!(matches!(e, Err(ProjectError::Init { .. })));
    let e = Project::init(
        "lib",
        Project::default_manifest(),
        Ok(()),
        Some(Err(ManifestError::SaveManifest { file: "lib/albumctl.toml".to_string() })),
    );
    assert!(matches!(e, Err(ProjectError::Init { .. })));
}

#[test]
fn project_load_and_its_albums() {
    let p = Project::load("lib", Ok(()), Ok(ProjectManifest { output_dir: "/out".to_string() }))
        .ok()
        .unwrap();
    let albums = p.load_albums(Ok(()), vec![Ok(loaded_album())]).ok().unwrap();
    assert_eq!(albums.len(), 1);
    assert_eq!(albums[0].path(), "speak");
    let e = p.load_albums(
        Ok(()),
        vec![Ok(loaded_album()), Err(AlbumError::Load { path: "x".to_string() })],
    );
    assert!(matches!(e, Err(ProjectError::LoadAlbums { path }) if path == "lib"));
    let e = p.load_albums(Err(FilesystemError::EnsureDir { dir: "lib".to_string() }), vec![]);
    assert!(matches!(e, Err(ProjectError::LoadAlbums { .. })));
    let e = Project::load("lib", Err(FilesystemError::EnsureDir { dir: "lib".to_string() }), Ok(ProjectManifest { output_dir: "/out".to_string() }));
    assert!(matches!(e, Err(ProjectError::Load { path }) if path == "lib"));
}

#[test]
fn commands_report_their_messages() {
    let p = Project::init("lib", Project::default_manifest(), Ok(()), Some(Ok(())));
    assert_eq!(
        commands::init("lib", p).ok().unwrap(),
        "Successfully initialized albumctl project at lib"
    );
    let e = commands::init("lib", Err(ProjectError::Init { path: "lib".to_string() }));
    assert!(matches!(e, Err(CommandError::Init)));
    let p = Project::load("lib", Ok(()), Ok(ProjectManifest { output_dir: "/out".to_string() }));
    assert_eq!(
        commands::check("lib", p).ok().unwrap(),
        "Successfully validated albumctl project at lib"
    );
    let e = commands::check("lib", Err(ProjectError::Load { path: "lib".to_string() }));
    assert!(matches!(e, Err(CommandError::Check)));
}

#[test]
fn source_directory_commands_succeed() {
    assert!(command::check("lib").is_ok());
    assert!(command::build("lib").is_ok());
}

#[test]
fn release_directories_hold_release_toml() {
    let d = ReleaseDir::resolve("lib/speak/2015");
    assert_eq!(d.dir(), "lib/speak/2015");
    assert_eq!(d.manifest_file(), "lib/speak/2015/release.toml");
    let t = ReleaseTree::from_dir("lib/speak/2015");
    assert_eq!(t.dir(), "lib/speak/2015");
    assert_eq!(t.manifest_file(), "lib/speak/2015/release.toml");
}

#[test]
fn mtime_and_size_need_an_existing_path_with_a_modification_time() {
    let t = SystemTime::UNIX_EPOCH + Duration::from_secs(1000);
    let r = get_mtime_size("f", MetadataProbe::Found { is_file: true, len: 42, modified: Some(t) });
    assert!(matches!(r, Ok((m, 42)) if m == t));
    let r = get_mtime_size("f", MetadataProbe::Found { is_file: true, len: 42, modified: None });
    assert!(matches!(r, Err(FilesystemError::GetMtimeSize { path }) if path == "f"));
    let r = get_mtime_size("f", MetadataProbe::NotFound);
    assert!(matches!(r, Err(FilesystemError::GetMtimeSize { .. })));
    let r = get_mtime_size("f", MetadataProbe::Unreadable);
    assert!(matches!(r, Err(FilesystemError::GetMtimeSize { .. })));
}

#[test]
fn a_required_file_must_be_a_file() {
    assert!(require_file("f", MetadataProbe::Found { is_file: true, len: 0, modified: None }).is_ok());
    let r = require_file("d", MetadataProbe::Found { is_file: false, len: 0, modified: None });
    assert!(matches!(r, Err(FilesystemError::RequireFile { file }) if file == "d"));
    assert!(require_file("f", MetadataProbe::NotFound).is_err());
    assert!(require_file("f", MetadataProbe::Unreadable).is_err());
}

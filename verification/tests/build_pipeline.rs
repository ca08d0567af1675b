use albumctl::build::clean::{clean_item, prepare_clean, CleanError, FsTree, ItemAction};
use albumctl::build::convert::Convert;
use albumctl::build::index::BuildIndex;
use albumctl::build::load::{load_units, load_units_from_tree, tree_matches, LoadError, LoadIssue, LoadedUnit, ModuleNode};
use albumctl::build::replaygain::{ClipMode, Replaygain};
use albumctl::build::skip::{outputs_exist, skip_units};
use albumctl::build::summary::summarize_build;
use albumctl::build::unit::{Unit, UnitError};
use albumctl::module::{Children, Disc, File, Metadata, Module, RootChildren, RootModule, Track};

fn md(pairs: &[(&str, &str)]) -> Metadata {
    let mut m = Metadata::new();
    for (k, v) in pairs {
        m.insert(k.to_string(), v.to_string());
    }
    m
}

fn titled(title: &str) -> Track {
    Track { metadata: md(&[("title", title)]) }
}

fn tracklist() -> Vec<Disc> {
    vec![Disc { metadata: Metadata::new(), tracks: vec![titled("Witch Hunt"), titled("Infant Eyes")] }]
}

fn file(name: &str, disc: usize, track: usize) -> File {
    File { file: name.to_string(), disc_number: disc, track_number: track }
}

fn root(children: &[&str]) -> RootModule {
    RootModule {
        output_directory: "/out".to_string(),
        convert: None,
        replaygain: None,
        metadata: md(&[("artist", "Wayne Shorter")]),
        children: RootChildren { modules: children.iter().map(|c| c.to_string()).collect() },
    }
}

fn leaf(dir: &str, metadata: Metadata, discs: Option<Vec<Disc>>, files: Vec<File>) -> ModuleNode {
    ModuleNode::Loaded {
        dir: dir.to_string(),
        module: Module { metadata, discs, children: Children::Files { files } },
        children: vec![],
    }
}

fn branch(dir: &str, metadata: Metadata, discs: Option<Vec<Disc>>, children: &[&str], nodes: Vec<ModuleNode>) -> ModuleNode {
    ModuleNode::Loaded {
        dir: dir.to_string(),
        module: Module {
            metadata,
            discs,
            children: Children::Modules { modules: children.iter().map(|c| c.to_string()).collect() },
        },
        children: nodes,
    }
}

fn full_metadata() -> Metadata {
    md(&[
        ("artist", "Wayne Shorter"),
        ("album", "Speak No Evil"),
        ("year", "1966"),
        ("release_year", "2015"),
        ("catalog_number", "MMBST-84194"),
        ("media_type", "CD"),
        ("audio_channels", "Stereo"),
        ("provenance", "Lossless"),
    ])
}

fn unit(hash_input: &[u8]) -> Unit {
    let loaded = LoadedUnit {
        unit_dir: "src/speak".to_string(),
        metadata: full_metadata(),
        tracklist: tracklist(),
        files: vec![file("a.flac", 1, 1), file("b.flac", 1, 2)],
    };
    Unit::new(loaded, None, None, &vec![hash_input.to_vec()])
}

#[test]
fn metadata_insert_replaces_and_get_reads_back() {
    let mut m = md(&[("artist", "A"), ("year", "1966")]);
    m.insert("artist".to_string(), "B".to_string());
    assert_eq!(m.get("artist").unwrap(), "B");
    assert_eq!(m.get("year").unwrap(), "1966");
    assert!(m.get("album").is_none());
    assert_eq!(m.len(), 2);
}

#[test]
fn child_metadata_overrides_the_parent() {
    let parent = md(&[("artist", "Parent"), ("year", "1966")]);
    let own = md(&[("artist", "Child"), ("album", "Speak No Evil")]);
    let m = Metadata::inherit(&parent, &own);
    assert_eq!(m.get("artist").unwrap(), "Child");
    assert_eq!(m.get("year").unwrap(), "1966");
    assert_eq!(m.get("album").unwrap(), "Speak No Evil");
    assert_eq!(m.len(), 3);
}

#[test]
fn load_units_inherits_metadata_and_tracklist_and_sorts_files() {
    let r = root(&["speak"]);
    let nodes = vec![branch(
        "src/speak",
        md(&[("album", "Speak No Evil")]),
        Some(tracklist()),
        &["2015"],
        vec![leaf("src/speak/2015", md(&[("year", "2015")]), None, vec![file("b.flac", 1, 2), file("a.flac", 1, 1)])],
    )];
    let p = load_units("src", &r, &nodes).ok().unwrap();
    assert_eq!(p.total_modules, 3);
    assert_eq!(p.loaded_modules, 3);
    assert!(p.errors.is_empty());
    assert_eq!(p.units.len(), 1);
    let u = &p.units[0];
    assert_eq!(u.unit_dir, "src/speak/2015");
    assert_eq!(u.metadata.get("artist").unwrap(), "Wayne Shorter");
    assert_eq!(u.metadata.get("album").unwrap(), "Speak No Evil");
    assert_eq!(u.metadata.get("year").unwrap(), "2015");
    assert_eq!(u.tracklist.len(), 1);
    assert_eq!(u.files[0].file, "a.flac");
    assert_eq!(u.files[1].file, "b.flac");
}

#[test]
fn load_units_refuses_a_root_child_declared_twice() {
    let r = root(&["speak", "speak"]);
    let nodes = vec![
        ModuleNode::Unreadable { dir: "src/speak".to_string(), reason: "r".to_string() },
        ModuleNode::Unreadable { dir: "src/speak".to_string(), reason: "r".to_string() },
    ];
    match load_units("src", &r, &nodes) {
        Err(LoadError::RootModule { dir, issue: LoadIssue::DuplicateChild { child } }) => {
            assert_eq!(dir, "src");
            assert_eq!(child, "speak");
        },
        _ => panic!("expected a duplicate child error"),
    }
}

#[test]
fn load_units_reports_failed_modules_and_goes_on() {
    let r = root(&["a", "b", "c", "d", "e"]);
    let nodes = vec![
        ModuleNode::Unreadable { dir: "src/a".to_string(), reason: "missing".to_string() },
        leaf("src/b", Metadata::new(), None, vec![file("x.flac", 1, 1)]),
        leaf("src/c", Metadata::new(), Some(tracklist()), vec![file("x.flac", 1, 1), file("x.flac", 1, 2)]),
        leaf("src/d", Metadata::new(), Some(tracklist()), vec![file("x.flac", 1, 1)]),
        leaf("src/e", Metadata::new(), Some(tracklist()), vec![file("x.flac", 1, 1), file("y.flac", 1, 2)]),
    ];
    let p = load_units("src", &r, &nodes).ok().unwrap();
    assert_eq!(p.total_modules, 6);
    assert_eq!(p.loaded_modules, 2);
    assert_eq!(p.units.len(), 1);
    assert_eq!(p.units[0].unit_dir, "src/e");
    assert_eq!(p.errors.len(), 4);
    assert!(matches!(&p.errors[0], LoadError::DescendantModule { issue: LoadIssue::Unreadable { .. }, .. }));
    assert!(matches!(&p.errors[1], LoadError::DescendantModule { issue: LoadIssue::MissingTracklist, .. }));
    match &p.errors[2] {
        LoadError::DescendantModule { dir, issue: LoadIssue::DuplicateFile { first_disc, first_track, second_disc, second_track, file } } => {
            assert_eq!(dir, "src/c");
            assert_eq!((*first_disc, *first_track, *second_disc, *second_track), (1, 1, 1, 2));
            assert_eq!(file, "x.flac");
        },
        _ => panic!("expected a duplicate file error"),
    }
    assert!(matches!(&p.errors[3], LoadError::DescendantModule { issue: LoadIssue::MappingMismatch, .. }));
}

#[test]
fn load_units_refuses_a_descendant_child_declared_twice() {
    let r = root(&["a"]);
    let x = || ModuleNode::Unreadable { dir: "src/a/x".to_string(), reason: "r".to_string() };
    let nodes = vec![branch("src/a", Metadata::new(), None, &["x", "x"], vec![x(), x()])];
    let p = load_units("src", &r, &nodes).ok().unwrap();
    assert_eq!(p.total_modules, 2);
    assert_eq!(p.loaded_modules, 1);
    assert!(matches!(&p.errors[0], LoadError::DescendantModule { issue: LoadIssue::DuplicateChild { child }, .. } if child == "x"));
}

#[test]
fn unit_hash_is_the_blake3_hash_of_the_fingerprint_in_hex() {
    let u = unit(b"fingerprint");
    assert_eq!(&u.hash, blake3::hash(b"fingerprint").as_bytes());
    assert_eq!(u.hash_hex, blake3::hash(b"fingerprint").to_hex().as_str());
    assert_eq!(u.hash_hex.len(), 64);
}

#[test]
fn unit_fields_and_missing_fields() {
    let u = unit(b"x");
    assert_eq!(u.get_field("album").ok().unwrap(), "Speak No Evil");
    match u.get_field("genre") {
        Err(UnitError::MissingField { dir, field }) => {
            assert_eq!(dir, "src/speak");
            assert_eq!(field, "genre");
        },
        _ => panic!("expected a missing field error"),
    }
    assert_eq!(u.get_track_field(1, 2, "title").ok().unwrap(), "Infant Eyes");
    assert!(matches!(
        u.get_track_field(1, 1, "composer"),
        Err(UnitError::MissingTrackField { disc_number: 1, track_number: 1, .. })
    ));
}

#[test]
fn unit_plan_names_the_output_directory_and_files() {
    let u = unit(b"x");
    let p = u.plan("/out").ok().unwrap();
    assert_eq!(p.build_dir, format!("/out/.albumctl/{}", u.hash_hex));
    assert_eq!(
        p.output_dir,
        "/out/Wayne Shorter - (1966) Speak No Evil/(2015) MMBST-84194 [CD, Stereo, Lossless]"
    );
    assert!(p.failure.is_none());
    assert_eq!(p.steps.len(), 2);
    assert_eq!(p.steps[0].original, "src/speak/a.flac");
    assert_eq!(p.steps[0].copied, format!("{}/a.flac", p.build_dir));
    assert_eq!(p.steps[0].build, format!("{}/1.01 Witch Hunt.flac", p.build_dir));
    assert_eq!(p.steps[1].output, format!("{}/1.02 Infant Eyes.flac", p.output_dir));
    assert!(p.steps[1].conversion.is_none());
    assert_eq!(p.steps[1].final_build(), &p.steps[1].build);
}

#[test]
fn unit_plan_with_conversion_renames_to_the_target_format() {
    let convert = Convert {
        ffmpeg_command: "ffmpeg".to_string(),
        target_format: "opus".to_string(),
        sample_rate: 48000,
        sample_format: "s16".to_string(),
    };
    let loaded = LoadedUnit {
        unit_dir: "src/speak".to_string(),
        metadata: full_metadata(),
        tracklist: tracklist(),
        files: vec![file("a.flac", 1, 1), file("b.flac", 1, 2)],
    };
    let u = Unit::new(loaded, Some(&convert), None, &vec![b"x".to_vec()]);
    let p = u.plan("/out").ok().unwrap();
    let c = p.steps[0].conversion.as_ref().unwrap();
    assert_eq!(c.converted, format!("{}/1.01 Witch Hunt.flac.opus", p.build_dir));
    assert_eq!(c.renamed, format!("{}/1.01 Witch Hunt.opus", p.build_dir));
    assert_eq!(p.steps[0].output, format!("{}/1.01 Witch Hunt.opus", p.output_dir));
    assert_eq!(p.steps[0].final_build(), &c.renamed);
}

#[test]
fn unit_plan_stops_at_a_missing_output_field_or_extension() {
    let loaded = LoadedUnit {
        unit_dir: "src/speak".to_string(),
        metadata: md(&[("artist", "Wayne Shorter")]),
        tracklist: tracklist(),
        files: vec![file("a.flac", 1, 1), file("b.flac", 1, 2)],
    };
    let u = Unit::new(loaded, None, None, &vec![]);
    assert!(matches!(u.plan("/out"), Err(UnitError::MissingField { field, .. }) if field == "album"));
    let loaded = LoadedUnit {
        unit_dir: "src/speak".to_string(),
        metadata: full_metadata(),
        tracklist: tracklist(),
        files: vec![file("a.flac", 1, 1), file("noext", 1, 2)],
    };
    let u = Unit::new(loaded, None, None, &vec![]);
    let p = u.plan("/out").ok().unwrap();
    assert_eq!(p.steps.len(), 1);
    assert!(p.failure.is_some());
}

#[test]
fn a_recorded_unit_is_skipped_by_the_next_build() {
    let u = unit(b"x");
    let p = u.plan("/out").ok().unwrap();
    let mut recorded = BuildIndex::new();
    u.record(&p, &mut recorded);
    let outputs = recorded.get(&u.hash_hex).unwrap();
    assert_eq!(outputs.len(), 2);
    assert_eq!(outputs[0], p.steps[0].output);

    let mut current = BuildIndex::new();
    let to_build = skip_units(vec![unit(b"x"), unit(b"y")], &recorded, &mut current, &vec![true, true]);
    assert_eq!(to_build.len(), 1);
    assert_eq!(to_build[0].hash_hex, unit(b"y").hash_hex);
    assert_eq!(current.get(&u.hash_hex).unwrap(), outputs);
    assert_eq!(current.len(), 1);

    let mut current = BuildIndex::new();
    let to_build = skip_units(vec![unit(b"x")], &recorded, &mut current, &vec![false]);
    assert_eq!(to_build.len(), 1);
    assert_eq!(current.len(), 0);
}

#[test]
fn build_index_reads_back_what_was_written() {
    let mut i = BuildIndex::new();
    i.insert("h1".to_string(), vec!["a".to_string()]);
    i.insert("h2".to_string(), vec![]);
    i.insert("h1".to_string(), vec!["b".to_string(), "c".to_string()]);
    assert_eq!(i.len(), 2);
    assert_eq!(i.get("h1").unwrap(), &vec!["b".to_string(), "c".to_string()]);
    assert!(i.get("h2").unwrap().is_empty());
    assert!(i.get("h3").is_none());
    let (k, _) = i.pair(0);
    assert_eq!(k, "h1");
}

#[test]
fn prefix_tree_holds_every_prefix_of_inserted_paths() {
    let mut t = FsTree::new();
    t.insert("/out/a/b.flac");
    assert!(t.traverse("/out/a").is_some());
    assert!(t.traverse("/out/a/b.flac").is_some());
    assert!(t.traverse("/out").is_some());
    assert!(t.traverse("/out/c").is_none());
    let node = t.traverse("/out").unwrap();
    assert!(node.child("a").is_some());
    assert!(node.child("b.flac").is_none());
}

#[test]
fn cleaning_keeps_outputs_and_the_build_directory_and_deletes_the_rest() {
    let mut index = BuildIndex::new();
    index.insert("h".to_string(), vec!["/out/Album/1.01 A.flac".to_string()]);
    let tree = prepare_clean(&index, "/out").ok().unwrap();
    let node = tree.traverse("/out").unwrap();
    assert!(matches!(clean_item("/out", "/out", ".albumctl", node), ItemAction::Reserved));
    match clean_item("/out", "/out", "Album", node) {
        ItemAction::Keep { child } => {
            assert!(matches!(clean_item("/out/Album", "/out", "1.01 A.flac", child), ItemAction::Keep { .. }));
            assert!(matches!(clean_item("/out/Album", "/out", "stale.flac", child), ItemAction::Delete));
            assert!(matches!(clean_item("/out/Album", "/out", ".albumctl", child), ItemAction::Delete));
        },
        _ => panic!("expected the album directory to be kept"),
    }
    assert!(matches!(clean_item("/out", "/out", "Stale Album", node), ItemAction::Delete));
}

#[test]
fn cleaning_cannot_prepare_an_output_directory_off_every_output() {
    let mut index = BuildIndex::new();
    index.insert("h".to_string(), vec!["/elsewhere/x.flac".to_string()]);
    assert!(matches!(prepare_clean(&index, "/out"), Err(CleanError::Prepare { dir }) if dir == "/out"));
}

#[test]
fn summary_counts_failed_units() {
    let s = summarize_build("src", "/out", 5, 4, 10, 6, 3, Ok(2));
    assert_eq!(s.failed_units, 1);
    assert_eq!(s.deleted_items, Some(2));
    assert_eq!(s.source_dir, "src");
    let s = summarize_build("src", "/out", 5, 4, 3, 0, 3, Err(CleanError::Dir { dir: "/out".to_string() }));
    assert_eq!(s.failed_units, 0);
    assert_eq!(s.deleted_items, None);
}

#[test]
fn ffmpeg_arguments() {
    let c = Convert {
        ffmpeg_command: "ffmpeg".to_string(),
        target_format: "opus".to_string(),
        sample_rate: 48000,
        sample_format: "s16".to_string(),
    };
    assert_eq!(
        c.arguments("in.flac", "out.opus"),
        vec!["-i", "in.flac", "-ar", "48000", "-sample_fmt", "s16", "out.opus"]
    );
}

#[test]
fn rsgain_arguments() {
    let r = Replaygain {
        rsgain_command: "rsgain".to_string(),
        album_gain: true,
        target_lufs_bits: (-18.0f32).to_bits(),
        clip_mode: ClipMode::PositiveGain,
    };
    assert_eq!(
        r.arguments("-18", &vec!["a.flac".to_string(), "b.flac".to_string()]),
        vec!["custom", "-s", "i", "-a", "-l", "-18", "-c", "p", "a.flac", "b.flac"]
    );
    let r = Replaygain { album_gain: false, clip_mode: ClipMode::Disabled, ..r };
    assert_eq!(r.arguments("-18", &vec![]), vec!["custom", "-s", "i", "-l", "-18", "-c", "n"]);
}

#[test]
fn outputs_stand_unless_one_is_known_gone() {
    assert!(outputs_exist(&vec![]));
    assert!(outputs_exist(&vec![Some(true), None, Some(true)]));
    assert!(!outputs_exist(&vec![Some(true), Some(false), None]));
}

#[test]
fn unit_plan_refuses_a_target_format_holding_a_path_separator() {
    let convert = Convert {
        ffmpeg_command: "ffmpeg".to_string(),
        target_format: "a/b".to_string(),
        sample_rate: 48000,
        sample_format: "s16".to_string(),
    };
    let loaded = LoadedUnit {
        unit_dir: "src/speak".to_string(),
        metadata: full_metadata(),
        tracklist: tracklist(),
        files: vec![file("a.flac", 1, 1), file("b.flac", 1, 2)],
    };
    let u = Unit::new(loaded, Some(&convert), None, &vec![b"x".to_vec()]);
    let p = u.plan("/out").ok().unwrap();
    assert!(p.steps.is_empty());
    assert!(matches!(p.failure, Some(UnitError::Build { dir }) if dir == "src/speak"));
}

#[test]
fn separators_are_found_in_text() {
    assert!(albumctl::paths::contains_separator("a/b"));
    assert!(!albumctl::paths::contains_separator("flac"));
    assert!(!albumctl::paths::contains_separator(""));
}

#[test]
fn an_unchanged_build_builds_nothing() {
    let (a, b) = (unit(b"a"), unit(b"b"));
    let mut previous = BuildIndex::new();
    a.record(&a.plan("/out").ok().unwrap(), &mut previous);
    b.record(&b.plan("/out").ok().unwrap(), &mut previous);
    let mut current = BuildIndex::new();
    let to_build = skip_units(vec![unit(b"a"), unit(b"b")], &previous, &mut current, &vec![true, true]);
    assert!(to_build.is_empty());
    assert_eq!(current.get(&a.hash_hex), previous.get(&a.hash_hex));
    assert_eq!(current.get(&b.hash_hex), previous.get(&b.hash_hex));
}

#[test]
fn a_tree_must_be_read_from_the_listed_directories() {
    let r = root(&["speak"]);
    let good = vec![branch(
        "src/speak",
        Metadata::new(),
        Some(tracklist()),
        &["2015"],
        vec![leaf("src/speak/2015", Metadata::new(), None, vec![file("a.flac", 1, 1), file("b.flac", 1, 2)])],
    )];
    assert!(tree_matches("src", &r.children.modules, &good));
    let p = load_units_from_tree("src", &r, &good).unwrap().ok().unwrap();
    assert_eq!(p.units.len(), 1);

    let wrong_dir = vec![leaf("src/other", Metadata::new(), Some(tracklist()), vec![])];
    assert!(!tree_matches("src", &r.children.modules, &wrong_dir));
    assert!(load_units_from_tree("src", &r, &wrong_dir).is_none());

    let missing_child = vec![branch("src/speak", Metadata::new(), None, &["2015"], vec![])];
    assert!(!tree_matches("src", &r.children.modules, &missing_child));
    assert!(!tree_matches("src", &r.children.modules, &vec![]));
}

#[test]
fn hash_hex_is_lowercase_two_digits_per_byte() {
    let mut bytes = [0u8; 32];
    bytes[0] = 0xab;
    bytes[1] = 0x05;
    bytes[31] = 0xff;
    let hex = albumctl::build::hash::hash_to_hex(&bytes);
    assert_eq!(hex, blake3::Hash::from_bytes(bytes).to_hex().as_str());
    assert!(hex.starts_with("ab05"));
    assert!(hex.ends_with("ff"));
}

//! Build units: loaded leaf modules with their fingerprint hash, and the plan
//! of the files a unit's build copies, converts and moves.

use vstd::prelude::*;
use vstd::string::*;
use crate::build::convert::Convert;
use crate::build::index::BuildIndex;
use crate::build::hash::{blake3_digest, concat_chunks, hash_chunks, hash_to_hex, lower_hex};
use crate::build::load::{LoadedUnit, UnitView, expected_keys, file_keys, files_match_tracklist, lemma_expected_keys_in_range};
use crate::build::replaygain::Replaygain;
use crate::module::{Disc, DiscView, File, Metadata, tracklist_view};
use crate::paths::{
    contains_separator, has_separator, path_extension, path_join, path_with_added_extension,
    spec_path_extension, spec_path_join, spec_path_with_added_extension,
};
use crate::text::{
    digit_char,
    append_str, decimal, decimal_pad2, decimal_pad2_string, decimal_string, literal, strings_view,
};

verus! {

/// An error of a unit.
pub enum UnitError {
    /// The unit of `dir` could not be fingerprinted.
    New { dir: String },
    /// The unit of `dir` could not be built.
    Build { dir: String },
    /// The metadata of the unit of `dir` has no value for `field`.
    MissingField { dir: String, field: String },
    /// The track `disc_number`.`track_number` of the unit of `dir` has no value for `field`.
    MissingTrackField { disc_number: usize, track_number: usize, dir: String, field: String },
}

/// A unit: a loaded leaf module, the processing settings, and the BLAKE3 hash
/// of its fingerprint.
pub struct Unit {
    pub unit_dir: String,
    pub metadata: Metadata,
    pub tracklist: Vec<Disc>,
    pub files: Vec<File>,
    pub convert: Option<Convert>,
    pub replaygain: Option<Replaygain>,
    pub hash: [u8; 32],
    pub hash_hex: String,
}

/// A borrowed optional value, copied.
pub open spec fn copied<T>(o: Option<&T>) -> Option<T> {
    match o {
        Some(v) => Some(*v),
        None => None,
    }
}

/// The metadata keys that name a unit's output directory, in the order they are looked up.
pub open spec fn first_missing_field(md: Map<Seq<char>, Seq<char>>) -> Option<Seq<char>> {
    if !md.contains_key("artist"@) {
        Some("artist"@)
    } else if !md.contains_key("album"@) {
        Some("album"@)
    } else if !md.contains_key("year"@) {
        Some("year"@)
    } else if !md.contains_key("catalog_number"@) {
        Some("catalog_number"@)
    } else if !md.contains_key("release_year"@) {
        Some("release_year"@)
    } else if !md.contains_key("media_type"@) {
        Some("media_type"@)
    } else if !md.contains_key("audio_channels"@) {
        Some("audio_channels"@)
    } else if !md.contains_key("provenance"@) {
        Some("provenance"@)
    } else {
        None
    }
}

/// The output directory of a unit, relative to the output directory:
/// `{artist} - ({year}) {album}/({release_year}) {catalog_number} [{media_type}, {audio_channels}, {provenance}]`.
pub open spec fn output_subdir(md: Map<Seq<char>, Seq<char>>) -> Seq<char> {
    md["artist"@] + " - ("@ + md["year"@] + ") "@ + md["album"@] + "/("@ + md["release_year"@]
        + ") "@ + md["catalog_number"@] + " ["@ + md["media_type"@] + ", "@
        + md["audio_channels"@] + ", "@ + md["provenance"@] + "]"@
}

/// The name of a track's file, without extension: `{disc}.{track:02} {title}`.
pub open spec fn consistent_filename(disc: nat, track: nat, title: Seq<char>) -> Seq<char> {
    decimal(disc) + "."@ + decimal_pad2(track) + " "@ + title
}

/// The track number of a consistent file name takes two digits: a track below
/// ten is written with a leading zero, and a track from ten on is written as it
/// is, with no zero put before it.
pub proof fn lemma_track_number_two_digits(disc: nat, track: nat, title: Seq<char>)
    ensures
        track < 10 ==> consistent_filename(disc, track, title) == decimal(disc) + seq![
            '.',
            '0',
            digit_char(track),
            ' ',
        ] + title,
        track >= 10 ==> consistent_filename(disc, track, title) == decimal(disc) + seq!['.']
            + decimal(track) + seq![' '] + title,
{
    reveal_strlit(".");
    reveal_strlit(" ");
    reveal_strlit("0");
    if track < 10 {
        assert(decimal(track) == seq![digit_char(track)]);
        assert(consistent_filename(disc, track, title) =~= decimal(disc) + seq![
            '.',
            '0',
            digit_char(track),
            ' ',
        ] + title);
    } else {
        assert(consistent_filename(disc, track, title) =~= decimal(disc) + seq!['.'] + decimal(
            track,
        ) + seq![' '] + title);
    }
}

/// The title of the track that a file is mapped to, if the track has one.
pub open spec fn title_of(tl: Seq<DiscView>, f: File) -> Option<Seq<char>> {
    let m = tl[f.disc_number - 1].tracks[f.track_number - 1];
    if m.contains_key("title"@) {
        Some(m["title"@])
    } else {
        None
    }
}

/// The paths that the build of one file goes through.
pub struct FileStepView {
    pub original: Seq<char>,
    pub copied: Seq<char>,
    pub build: Seq<char>,
    pub conversion: Option<(Seq<char>, Seq<char>)>,
    pub output: Seq<char>,
}

/// How the build of one file is planned.
pub enum StepOutcome {
    Planned(FileStepView),
    NoTitle,
    NoExtension,
    /// The source extension or the target format holds a path separator.
    SeparatorInExtension,
}

/// The plan of one file: copy the source file from the unit directory into the
/// unit build directory, rename it to its consistent name with the source
/// extension, convert it to the target format if conversion is set (then
/// rename the converted file to its consistent name with the target
/// extension), and finally move it into the unit output directory. An
/// extension that holds a path separator cannot be added to a file name, so a
/// source extension or target format that holds one is refused.
pub open spec fn plan_file(
    unit_dir: Seq<char>,
    tl: Seq<DiscView>,
    f: File,
    build_dir: Seq<char>,
    out_dir: Seq<char>,
    target: Option<Seq<char>>,
) -> StepOutcome {
    match title_of(tl, f) {
        None => StepOutcome::NoTitle,
        Some(title) => {
            let cf = consistent_filename(f.disc_number as nat, f.track_number as nat, title);
            match spec_path_extension(f.file@) {
                None => StepOutcome::NoExtension,
                Some(ext) => if has_separator(ext) || (target matches Some(t) && has_separator(t)) {
                    StepOutcome::SeparatorInExtension
                } else {
                    let build_file = spec_path_with_added_extension(cf, ext);
                    let build_full = spec_path_join(build_dir, build_file);
                    let original = spec_path_join(unit_dir, f.file@);
                    let copied = spec_path_join(build_dir, f.file@);
                    match target {
                        None => StepOutcome::Planned(
                            FileStepView {
                                original,
                                copied,
                                build: build_full,
                                conversion: None,
                                output: spec_path_join(out_dir, build_file),
                            },
                        ),
                        Some(t) => {
                            let renamed_file = spec_path_with_added_extension(cf, t);
                            StepOutcome::Planned(
                                FileStepView {
                                    original,
                                    copied,
                                    build: build_full,
                                    conversion: Some(
                                        (
                                            spec_path_with_added_extension(build_full, t),
                                            spec_path_join(build_dir, renamed_file),
                                        ),
                                    ),
                                    output: spec_path_join(out_dir, renamed_file),
                                },
                            )
                        },
                    }
                },
            }
        },
    }
}

/// The conversion of one file: convert `converted` from the built file, then
/// rename it to `renamed`.
pub struct ConversionStep {
    pub converted: String,
    pub renamed: String,
}

/// The build of one file: copy `original` to `copied`, move it to `build`,
/// convert it if `conversion` is set, and move the result to `output`.
pub struct FileStep {
    pub original: String,
    pub copied: String,
    pub build: String,
    pub conversion: Option<ConversionStep>,
    pub output: String,
}

impl View for FileStep {
    type V = FileStepView;

    open spec fn view(&self) -> FileStepView {
        FileStepView {
            original: self.original@,
            copied: self.copied@,
            build: self.build@,
            conversion: match self.conversion {
                Some(c) => Some((c.converted@, c.renamed@)),
                None => None,
            },
            output: self.output@,
        }
    }
}

impl FileStep {
    /// The file that is moved into the output directory: the converted and
    /// renamed file if there is a conversion, else the built file.
    pub fn final_build(&self) -> (r: &String)
        ensures
            r@ == match self@.conversion {
                Some(c) => c.1,
                None => self@.build,
            },
    {
        match &self.conversion {
            Some(c) => &c.renamed,
            None => &self.build,
        }
    }
}

/// The plan of a unit's build: the unit build and output directories, and the
/// steps of its files in order. When the step of a file cannot be planned,
/// `failure` says why and the steps stop before that file.
pub struct UnitPlan {
    pub build_dir: String,
    pub output_dir: String,
    pub steps: Vec<FileStep>,
    pub failure: Option<UnitError>,
}

impl UnitPlan {
    /// The output files of the planned steps, in order.
    pub fn output_files(&self) -> (r: Vec<String>)
        ensures
            r@.len() == self.steps@.len(),
            forall|k: int| 0 <= k < r@.len() ==> #[trigger] r@[k]@ == self.steps@[k]@.output,
    {
        let mut r: Vec<String> = Vec::new();
        let mut k: usize = 0;
        while k < self.steps.len()
            invariant
                k <= self.steps@.len(),
                r@.len() == k,
                forall|j: int| 0 <= j < k ==> #[trigger] r@[j]@ == self.steps@[j]@.output,
            decreases self.steps@.len() - k,
        {
            r.push(self.steps[k].output.clone());
            k += 1;
        }
        r
    }
}

impl Unit {
    /// The loaded unit that this unit was made from, as a value.
    pub open spec fn unit_view(&self) -> UnitView {
        UnitView {
            dir: self.unit_dir@,
            metadata: self.metadata@,
            tracklist: tracklist_view(self.tracklist@),
            files: self.files@,
        }
    }

    /// Makes a unit from a loaded unit and the processing settings. Its hash is
    /// the BLAKE3 hash of the fingerprint chunks, fed in order.
    pub fn new(
        loaded: LoadedUnit,
        convert: Option<&Convert>,
        replaygain: Option<&Replaygain>,
        fingerprint: &Vec<Vec<u8>>,
    ) -> (u: Unit)
        ensures
            u.unit_view() == loaded@,
            u.convert == copied(convert),
            u.replaygain == copied(replaygain),
            u.hash@ == blake3_digest(concat_chunks(fingerprint@)),
            u.hash_hex@ == lower_hex(u.hash@),
    {
        let hash = hash_chunks(fingerprint);
        let hash_hex = hash_to_hex(&hash);
        let convert = match convert {
            Some(c) => Some(c.duplicate()),
            None => None,
        };
        let replaygain = match replaygain {
            Some(r) => Some(r.duplicate()),
            None => None,
        };
        Unit {
            unit_dir: loaded.unit_dir,
            metadata: loaded.metadata,
            tracklist: loaded.tracklist,
            files: loaded.files,
            convert,
            replaygain,
            hash,
            hash_hex,
        }
    }

    /// The value of a metadata field of the unit.
    pub fn get_field(&self, field: &str) -> (r: Result<&String, UnitError>)
        ensures
            match r {
                Ok(v) => self.metadata@.contains_key(field@) && v@ == self.metadata@[field@],
                Err(e) => {
                    &&& !self.metadata@.contains_key(field@)
                    &&& e matches UnitError::MissingField { dir, field: f }
                    &&& dir == self.unit_dir
                    &&& f@ == field@
                },
            },
    {
        match self.metadata.get(field) {
            Some(v) => Ok(v),
            None => Err(
                UnitError::MissingField { dir: self.unit_dir.clone(), field: literal(field) },
            ),
        }
    }

    /// The value of a metadata field of a track of the unit's tracklist.
    pub fn get_track_field(&self, disc_number: usize, track_number: usize, field: &str) -> (r: Result<
        &String,
        UnitError,
    >)
        requires
            1 <= disc_number <= self.tracklist@.len(),
            1 <= track_number <= self.tracklist@[disc_number - 1].tracks@.len(),
        ensures
            ({
                let m = self.tracklist@[disc_number - 1].tracks@[track_number - 1].metadata@;
                match r {
                    Ok(v) => m.contains_key(field@) && v@ == m[field@],
                    Err(e) => {
                        &&& !m.contains_key(field@)
                        &&& e matches UnitError::MissingTrackField {
                            disc_number: d,
                            track_number: t,
                            dir,
                            field: f,
                        }
                        &&& d == disc_number
                        &&& t == track_number
                        &&& dir == self.unit_dir
                        &&& f@ == field@
                    },
                }
            }),
    {
        match self.tracklist[disc_number - 1].tracks[track_number - 1].metadata.get(field) {
            Some(v) => Ok(v),
            None => Err(
                UnitError::MissingTrackField {
                    disc_number,
                    track_number,
                    dir: self.unit_dir.clone(),
                    field: literal(field),
                },
            ),
        }
    }

    /// The target format of the conversion, if any.
    pub open spec fn target_format(&self) -> Option<Seq<char>> {
        match self.convert {
            Some(c) => Some(c.target_format@),
            None => None,
        }
    }

    /// Whether `e` says why the plan of `f` failed.
    pub open spec fn step_failure(&self, outcome: StepOutcome, f: File, e: UnitError) -> bool {
        match outcome {
            StepOutcome::NoTitle => {
                &&& e matches UnitError::MissingTrackField {
                    disc_number: d,
                    track_number: t,
                    dir,
                    field,
                }
                &&& d == f.disc_number
                &&& t == f.track_number
                &&& dir == self.unit_dir
                &&& field@ == "title"@
            },
            StepOutcome::NoExtension => e matches UnitError::Build { dir } && dir == self.unit_dir,
            StepOutcome::SeparatorInExtension => e matches UnitError::Build { dir } && dir
                == self.unit_dir,
            StepOutcome::Planned(_) => false,
        }
    }

    fn plan_step(&self, k: usize, build_dir: &String, out_dir: &String) -> (r: Result<FileStep, UnitError>)
        requires
            k < self.files@.len(),
            files_match_tracklist(self.unit_view()),
        ensures
            ({
                let o = plan_file(
                    self.unit_dir@,
                    tracklist_view(self.tracklist@),
                    self.files@[k as int],
                    build_dir@,
                    out_dir@,
                    self.target_format(),
                );
                match r {
                    Ok(step) => o == StepOutcome::Planned(step@),
                    Err(e) => self.step_failure(o, self.files@[k as int], e),
                }
            }),
    {
        let ghost tl = tracklist_view(self.tracklist@);
        let f = &self.files[k];
        proof {
            lemma_expected_keys_in_range(tl);
            assert(file_keys(self.files@)[k as int] == expected_keys(tl)[k as int]);
            let (d, t) = expected_keys(tl)[k as int];
            assert(tl[d - 1] == self.tracklist@[d - 1]@);
            assert(tl[d - 1].tracks[t - 1] == self.tracklist@[d - 1].tracks@[t - 1].metadata@);
        }
        let title = match self.get_track_field(f.disc_number, f.track_number, "title") {
            Ok(t) => t,
            Err(e) => {
                return Err(e);
            },
        };
        let mut cf = decimal_string(f.disc_number);
        append_str(&mut cf, ".");
        append_str(&mut cf, decimal_pad2_string(f.track_number).as_str());
        append_str(&mut cf, " ");
        append_str(&mut cf, title.as_str());
        let ext = match path_extension(f.file.as_str()) {
            Some(e) => e,
            None => {
                return Err(UnitError::Build { dir: self.unit_dir.clone() });
            },
        };
        if contains_separator(ext.as_str()) {
            return Err(UnitError::Build { dir: self.unit_dir.clone() });
        }
        if let Some(c) = &self.convert {
            if contains_separator(c.target_format.as_str()) {
                return Err(UnitError::Build { dir: self.unit_dir.clone() });
            }
        }
        let build_file = path_with_added_extension(cf.as_str(), ext.as_str());
        let build_full = path_join(build_dir.as_str(), build_file.as_str());
        let original = path_join(self.unit_dir.as_str(), f.file.as_str());
        let copied = path_join(build_dir.as_str(), f.file.as_str());
        match &self.convert {
            None => {
                let output = path_join(out_dir.as_str(), build_file.as_str());
                Ok(FileStep { original, copied, build: build_full, conversion: None, output })
            },
            Some(c) => {
                let converted = path_with_added_extension(build_full.as_str(), c.target_format.as_str());
                let renamed_file = path_with_added_extension(cf.as_str(), c.target_format.as_str());
                let renamed = path_join(build_dir.as_str(), renamed_file.as_str());
                let output = path_join(out_dir.as_str(), renamed_file.as_str());
                Ok(
                    FileStep {
                        original,
                        copied,
                        build: build_full,
                        conversion: Some(ConversionStep { converted, renamed }),
                        output,
                    },
                )
            },
        }
    }

    /// Records a finished build of the unit in the index: the unit's hash now
    /// lists the output files of the plan.
    pub fn record(&self, plan: &UnitPlan, index: &mut BuildIndex)
        ensures
            final(index)@ == old(index)@.insert(
                self.hash_hex@,
                plan.steps@.map_values(|s: FileStep| s@.output),
            ),
    {
        let outputs = plan.output_files();
        proof {
            assert(strings_view(outputs@) =~= plan.steps@.map_values(|s: FileStep| s@.output));
        }
        index.insert(self.hash_hex.clone(), outputs);
    }

    /// Plans the build of the unit into `output_dir`.
    ///
    /// The metadata must hold the fields that name the unit's output directory;
    /// the first missing one is the error. The unit is built in
    /// `.albumctl/{hash}` of the output directory, and its files end in
    /// `{artist} - ({year}) {album}/({release_year}) {catalog_number} [{media_type}, {audio_channels}, {provenance}]`.
    /// Each file is planned as [`plan_file`] says, in order; planning stops at the
    /// first file whose track has no title, whose source file has no extension,
    /// or whose source extension or target format holds a path separator.
    pub fn plan(&self, output_dir: &str) -> (r: Result<UnitPlan, UnitError>)
        requires
            files_match_tracklist(self.unit_view()),
        ensures
            match r {
                Err(e) => {
                    &&& first_missing_field(self.metadata@) matches Some(name)
                    &&& e matches UnitError::MissingField { dir, field }
                    &&& dir == self.unit_dir
                    &&& field@ == name
                },
                Ok(p) => {
                    &&& first_missing_field(self.metadata@) is None
                    &&& p.build_dir@ == spec_path_join(output_dir@, ".albumctl/"@ + self.hash_hex@)
                    &&& p.output_dir@ == spec_path_join(output_dir@, output_subdir(self.metadata@))
                    &&& p.steps@.len() <= self.files@.len()
                    &&& forall|k: int|
                        0 <= k < p.steps@.len() ==> plan_file(
                            self.unit_dir@,
                            tracklist_view(self.tracklist@),
                            self.files@[k],
                            p.build_dir@,
                            p.output_dir@,
                            self.target_format(),
                        ) == StepOutcome::Planned(#[trigger] p.steps@[k]@)
                    &&& match p.failure {
                        None => p.steps@.len() == self.files@.len(),
                        Some(fe) => {
                            &&& p.steps@.len() < self.files@.len()
                            &&& self.step_failure(
                                plan_file(
                                    self.unit_dir@,
                                    tracklist_view(self.tracklist@),
                                    self.files@[p.steps@.len() as int],
                                    p.build_dir@,
                                    p.output_dir@,
                                    self.target_format(),
                                ),
                                self.files@[p.steps@.len() as int],
                                fe,
                            )
                        },
                    }
                },
            },
    {
        let artist = match self.get_field("artist") {
            Ok(v) => v,
            Err(e) => {
                return Err(e);
            },
        };
        let album = match self.get_field("album") {
            Ok(v) => v,
            Err(e) => {
                return Err(e);
            },
        };
        let year = match self.get_field("year") {
            Ok(v) => v,
            Err(e) => {
                return Err(e);
            },
        };
        let catalog_number = match self.get_field("catalog_number") {
            Ok(v) => v,
            Err(e) => {
                return Err(e);
            },
        };
        let release_year = match self.get_field("release_year") {
            Ok(v) => v,
            Err(e) => {
                return Err(e);
            },
        };
        let media_type = match self.get_field("media_type") {
            Ok(v) => v,
            Err(e) => {
                return Err(e);
            },
        };
        let audio_channels = match self.get_field("audio_channels") {
            Ok(v) => v,
            Err(e) => {
                return Err(e);
            },
        };
        let provenance = match self.get_field("provenance") {
            Ok(v) => v,
            Err(e) => {
                return Err(e);
            },
        };

        let mut build_rel = literal(".albumctl/");
        append_str(&mut build_rel, self.hash_hex.as_str());
        let build_dir = path_join(output_dir, build_rel.as_str());

        let mut name = artist.clone();
        append_str(&mut name, " - (");
        append_str(&mut name, year.as_str());
        append_str(&mut name, ") ");
        append_str(&mut name, album.as_str());
        append_str(&mut name, "/(");
        append_str(&mut name, release_year.as_str());
        append_str(&mut name, ") ");
        append_str(&mut name, catalog_number.as_str());
        append_str(&mut name, " [");
        append_str(&mut name, media_type.as_str());
        append_str(&mut name, ", ");
        append_str(&mut name, audio_channels.as_str());
        append_str(&mut name, ", ");
        append_str(&mut name, provenance.as_str());
        append_str(&mut name, "]");
        let out_dir = path_join(output_dir, name.as_str());
        proof {
            assert(name@ =~= output_subdir(self.metadata@));
            assert(first_missing_field(self.metadata@) is None);
        }

        let mut steps: Vec<FileStep> = Vec::new();
        let mut k: usize = 0;
        while k < self.files.len()
            invariant
                k <= self.files@.len(),
                files_match_tracklist(self.unit_view()),
                first_missing_field(self.metadata@) is None,
                build_dir@ == spec_path_join(output_dir@, ".albumctl/"@ + self.hash_hex@),
                out_dir@ == spec_path_join(output_dir@, output_subdir(self.metadata@)),
                steps@.len() == k,
                forall|j: int|
                    0 <= j < k ==> plan_file(
                        self.unit_dir@,
                        tracklist_view(self.tracklist@),
                        self.files@[j],
                        build_dir@,
                        out_dir@,
                        self.target_format(),
                    ) == StepOutcome::Planned(#[trigger] steps@[j]@),
            decreases self.files@.len() - k,
        {
            match self.plan_step(k, &build_dir, &out_dir) {
                Ok(step) => {
                    steps.push(step);
                },
                Err(e) => {
                    let ghost f = self.files@[k as int];
                    let ghost o = plan_file(
                        self.unit_dir@,
                        tracklist_view(self.tracklist@),
                        f,
                        build_dir@,
                        out_dir@,
                        self.target_format(),
                    );
                    assert(self.step_failure(o, f, e));
                    let p = UnitPlan { build_dir, output_dir: out_dir, steps, failure: Some(e) };
                    assert(p.steps@.len() == k);
                    assert(self.files@[p.steps@.len() as int] == f);
                    return Ok(p);
                },
            }
            k += 1;
        }
        Ok(UnitPlan { build_dir, output_dir: out_dir, steps, failure: None })
    }
}

} // verus!

//! The model of a source directory.
//!
//! The manifests of a source are moved into the model structures. Two albums
//! with the same identifier, or two releases of an album with the same
//! identifier, are refused; albums and releases are ordered by identifier.

use vstd::prelude::*;
use crate::order::{
    IdOrder, has_id_repeat, id_repeat_at, lemma_sort_by_id, lemma_sort_keeps_distinct, sort_by_id,
    sort_by_id_spec, sorted_by_id,
};
use crate::source::{
    AlbumManifest, AlbumSource, ConfigManifest, DiscManifest, ReleaseManifest, ReleaseSource,
    Source, TrackManifest,
};
use crate::text::{
    append_str, decimal, decimal_string, lemma_seq_lt_order, literal, seq_lt, str_eq, str_lt,
};

verus! {

/// The identifier of an album.
pub struct AlbumId {
    pub artist: String,
    pub year: u16,
    pub title: String,
}

/// The identifier of a release of an album.
pub struct ReleaseId {
    pub year: u16,
    pub catalog_number: String,
    pub media_type: String,
    pub audio_channels: String,
    pub provenance: String,
}

/// The text of an album identifier: `artist - (year) title`.
pub open spec fn album_id_text(id: AlbumId) -> Seq<char> {
    id.artist@ + " - ("@ + decimal(id.year as nat) + ") "@ + id.title@
}

/// The text of a release identifier:
/// `(year) catalog_number [media_type, audio_channels, provenance]`.
pub open spec fn release_id_text(id: ReleaseId) -> Seq<char> {
    "("@ + decimal(id.year as nat) + ") "@ + id.catalog_number@ + " ["@ + id.media_type@ + ", "@
        + id.audio_channels@ + ", "@ + id.provenance@ + "]"@
}

/// Two texts compared as one key of a lexicographic order: `a` comes first,
/// or the texts are equal and `rest` decides.
pub open spec fn text_key_lt(a: Seq<char>, b: Seq<char>, rest: bool) -> bool {
    seq_lt(a, b) || (a == b && rest)
}

/// One text key obeys the laws of a strict total order, in every arrangement
/// of three texts.
proof fn lemma_text_key(a: Seq<char>, b: Seq<char>, c: Seq<char>)
    ensures
        !seq_lt(a, a) && !seq_lt(b, b) && !seq_lt(c, c),
        seq_lt(a, b) ==> !seq_lt(b, a),
        seq_lt(b, c) ==> !seq_lt(c, b),
        seq_lt(a, c) ==> !seq_lt(c, a),
        a != b ==> seq_lt(a, b) || seq_lt(b, a),
        b != c ==> seq_lt(b, c) || seq_lt(c, b),
        a != c ==> seq_lt(a, c) || seq_lt(c, a),
        seq_lt(a, b) && seq_lt(b, c) ==> seq_lt(a, c),
{
    lemma_seq_lt_order(a, b, c);
    lemma_seq_lt_order(b, c, a);
    lemma_seq_lt_order(c, a, b);
    lemma_seq_lt_order(a, c, b);
}

impl IdOrder for AlbumId {
    /// The order of the derived `Ord`: by artist, then year, then title.
    open spec fn id_lt(self, other: Self) -> bool {
        text_key_lt(
            self.artist@,
            other.artist@,
            self.year < other.year || (self.year == other.year && seq_lt(
                self.title@,
                other.title@,
            )),
        )
    }

    open spec fn id_eq(self, other: Self) -> bool {
        self.artist@ == other.artist@ && self.year == other.year && self.title@ == other.title@
    }

    proof fn lemma_id_order(a: Self, b: Self, c: Self) {
        lemma_text_key(a.artist@, b.artist@, c.artist@);
        lemma_text_key(a.title@, b.title@, c.title@);
    }

    fn id_less(&self, other: &Self) -> (r: bool) {
        proof {
            Self::lemma_id_order(*self, *other, *other);
        }
        if str_lt(self.artist.as_str(), other.artist.as_str()) {
            return true;
        }
        if !str_eq(self.artist.as_str(), other.artist.as_str()) {
            return false;
        }
        if self.year != other.year {
            return self.year < other.year;
        }
        str_lt(self.title.as_str(), other.title.as_str())
    }

    fn id_same(&self, other: &Self) -> (r: bool) {
        str_eq(self.artist.as_str(), other.artist.as_str()) && self.year == other.year && str_eq(
            self.title.as_str(),
            other.title.as_str(),
        )
    }
}

impl IdOrder for ReleaseId {
    /// The order of the derived `Ord`: by year, then catalog number, media
    /// type, audio channels and provenance.
    open spec fn id_lt(self, other: Self) -> bool {
        self.year < other.year || (self.year == other.year && text_key_lt(
            self.catalog_number@,
            other.catalog_number@,
            text_key_lt(
                self.media_type@,
                other.media_type@,
                text_key_lt(
                    self.audio_channels@,
                    other.audio_channels@,
                    seq_lt(self.provenance@, other.provenance@),
                ),
            ),
        ))
    }

    open spec fn id_eq(self, other: Self) -> bool {
        &&& self.year == other.year
        &&& self.catalog_number@ == other.catalog_number@
        &&& self.media_type@ == other.media_type@
        &&& self.audio_channels@ == other.audio_channels@
        &&& self.provenance@ == other.provenance@
    }

    proof fn lemma_id_order(a: Self, b: Self, c: Self) {
        lemma_text_key(a.catalog_number@, b.catalog_number@, c.catalog_number@);
        lemma_text_key(a.media_type@, b.media_type@, c.media_type@);
        lemma_text_key(a.audio_channels@, b.audio_channels@, c.audio_channels@);
        lemma_text_key(a.provenance@, b.provenance@, c.provenance@);
    }

    fn id_less(&self, other: &Self) -> (r: bool) {
        proof {
            Self::lemma_id_order(*self, *other, *other);
        }
        if self.year != other.year {
            return self.year < other.year;
        }
        if !str_eq(self.catalog_number.as_str(), other.catalog_number.as_str()) {
            return str_lt(self.catalog_number.as_str(), other.catalog_number.as_str());
        }
        if !str_eq(self.media_type.as_str(), other.media_type.as_str()) {
            return str_lt(self.media_type.as_str(), other.media_type.as_str());
        }
        if !str_eq(self.audio_channels.as_str(), other.audio_channels.as_str()) {
            return str_lt(self.audio_channels.as_str(), other.audio_channels.as_str());
        }
        str_lt(self.provenance.as_str(), other.provenance.as_str())
    }

    fn id_same(&self, other: &Self) -> (r: bool) {
        self.year == other.year && str_eq(
            self.catalog_number.as_str(),
            other.catalog_number.as_str(),
        ) && str_eq(self.media_type.as_str(), other.media_type.as_str()) && str_eq(
            self.audio_channels.as_str(),
            other.audio_channels.as_str(),
        ) && str_eq(self.provenance.as_str(), other.provenance.as_str())
    }
}

impl AlbumId {
    /// Renders the identifier as `artist - (year) title`.
    pub fn to_string(&self) -> (s: String)
        ensures
            s@ == album_id_text(*self),
    {
        let mut s = self.artist.clone();
        append_str(&mut s, " - (");
        append_str(&mut s, decimal_string(self.year as usize).as_str());
        append_str(&mut s, ") ");
        append_str(&mut s, self.title.as_str());
        s
    }
}

impl ReleaseId {
    /// Renders the identifier as
    /// `(year) catalog_number [media_type, audio_channels, provenance]`.
    pub fn to_string(&self) -> (s: String)
        ensures
            s@ == release_id_text(*self),
    {
        let mut s = literal("(");
        append_str(&mut s, decimal_string(self.year as usize).as_str());
        append_str(&mut s, ") ");
        append_str(&mut s, self.catalog_number.as_str());
        append_str(&mut s, " [");
        append_str(&mut s, self.media_type.as_str());
        append_str(&mut s, ", ");
        append_str(&mut s, self.audio_channels.as_str());
        append_str(&mut s, ", ");
        append_str(&mut s, self.provenance.as_str());
        append_str(&mut s, "]");
        s
    }
}

/// The model of a source directory.
pub struct Model {
    pub dir: String,
    pub config: Config,
    pub albums: Vec<AlbumModel>,
}

/// The model of an album directory.
pub struct AlbumModel {
    pub dir: String,
    pub info: AlbumInfo,
    pub releases: Vec<ReleaseModel>,
}

/// The model of a release directory.
pub struct ReleaseModel {
    pub dir: String,
    pub info: ReleaseInfo,
    pub discs: Vec<Disc>,
}

/// The configuration of a source.
pub struct Config {
    pub output_dir: String,
}

/// An album manifest, moved into the model.
pub struct Album {
    pub info: AlbumInfo,
}

/// What the model knows of an album.
pub struct AlbumInfo {
    pub id: AlbumId,
}

/// A release manifest, moved into the model.
pub struct Release {
    pub info: ReleaseInfo,
    pub discs: Vec<Disc>,
}

/// What the model knows of a release.
pub struct ReleaseInfo {
    pub id: ReleaseId,
}

/// A disc of a release.
pub struct Disc {
    pub info: DiscInfo,
    pub tracks: Vec<Track>,
}

/// What the model knows of a disc.
pub struct DiscInfo {}

/// A track of a disc and the file that holds it.
pub struct Track {
    pub info: TrackInfo,
    pub file: String,
}

/// What the model knows of a track.
pub struct TrackInfo {
    pub title: String,
}

/// An error of modelling a source.
pub enum ModelError {
    /// The source of `dir` holds two albums with the identifier `id`, in the
    /// directories `existing` and `duplicate`.
    ModelSource { dir: String, id: String, existing: String, duplicate: String },
    /// The album of `dir` holds two releases with the identifier `id`, in the
    /// directories `existing` and `duplicate`.
    ModelAlbum { dir: String, id: String, existing: String, duplicate: String },
}

/// The configuration of a configuration manifest.
pub open spec fn config_of(m: ConfigManifest) -> Config {
    Config { output_dir: m.output_dir }
}

/// The identifier of an album manifest.
pub open spec fn album_id_of(m: AlbumManifest) -> AlbumId {
    AlbumId { artist: m.artist, year: m.year, title: m.title }
}

/// The identifier of a release manifest.
pub open spec fn release_id_of(m: ReleaseManifest) -> ReleaseId {
    ReleaseId {
        year: m.year,
        catalog_number: m.catalog_number,
        media_type: m.media_type,
        audio_channels: m.audio_channels,
        provenance: m.provenance,
    }
}

/// The track of a track manifest.
pub open spec fn track_of(m: TrackManifest) -> Track {
    Track { info: TrackInfo { title: m.title }, file: m.file }
}

/// `d` is the disc of the disc manifest `m`.
pub open spec fn disc_of(d: Disc, m: DiscManifest) -> bool {
    d.tracks@ == m.tracks@.map_values(|t: TrackManifest| track_of(t))
}

/// `ds` are the discs of the disc manifests `ms`, one for one.
pub open spec fn discs_of(ds: Seq<Disc>, ms: Seq<DiscManifest>) -> bool {
    ds.len() == ms.len() && forall|i: int| 0 <= i < ms.len() ==> #[trigger] disc_of(ds[i], ms[i])
}

/// `m` is the model of the release directory `s`.
pub open spec fn release_model_of(m: ReleaseModel, s: ReleaseSource) -> bool {
    &&& m.dir == s.dir
    &&& m.info.id == release_id_of(s.manifest)
    &&& discs_of(m.discs@, s.manifest.discs@)
}

/// `ms` are the models of the release directories `ss`, one for one.
pub open spec fn release_models_of(ms: Seq<ReleaseModel>, ss: Seq<ReleaseSource>) -> bool {
    ms.len() == ss.len() && forall|i: int|
        0 <= i < ss.len() ==> #[trigger] release_model_of(ms[i], ss[i])
}

impl IdOrder for ReleaseSource {
    open spec fn id_lt(self, other: Self) -> bool {
        release_id_of(self.manifest).id_lt(release_id_of(other.manifest))
    }

    open spec fn id_eq(self, other: Self) -> bool {
        release_id_of(self.manifest).id_eq(release_id_of(other.manifest))
    }

    proof fn lemma_id_order(a: Self, b: Self, c: Self) {
        ReleaseId::lemma_id_order(
            release_id_of(a.manifest),
            release_id_of(b.manifest),
            release_id_of(c.manifest),
        );
    }

    fn id_less(&self, other: &Self) -> (r: bool) {
        let a = ReleaseId {
            year: self.manifest.year,
            catalog_number: self.manifest.catalog_number.clone(),
            media_type: self.manifest.media_type.clone(),
            audio_channels: self.manifest.audio_channels.clone(),
            provenance: self.manifest.provenance.clone(),
        };
        let b = ReleaseId {
            year: other.manifest.year,
            catalog_number: other.manifest.catalog_number.clone(),
            media_type: other.manifest.media_type.clone(),
            audio_channels: other.manifest.audio_channels.clone(),
            provenance: other.manifest.provenance.clone(),
        };
        a.id_less(&b)
    }

    fn id_same(&self, other: &Self) -> (r: bool) {
        self.manifest.year == other.manifest.year && str_eq(
            self.manifest.catalog_number.as_str(),
            other.manifest.catalog_number.as_str(),
        ) && str_eq(self.manifest.media_type.as_str(), other.manifest.media_type.as_str())
            && str_eq(
            self.manifest.audio_channels.as_str(),
            other.manifest.audio_channels.as_str(),
        ) && str_eq(self.manifest.provenance.as_str(), other.manifest.provenance.as_str())
    }
}

impl IdOrder for ReleaseModel {
    open spec fn id_lt(self, other: Self) -> bool {
        self.info.id.id_lt(other.info.id)
    }

    open spec fn id_eq(self, other: Self) -> bool {
        self.info.id.id_eq(other.info.id)
    }

    proof fn lemma_id_order(a: Self, b: Self, c: Self) {
        ReleaseId::lemma_id_order(a.info.id, b.info.id, c.info.id);
    }

    fn id_less(&self, other: &Self) -> (r: bool) {
        self.info.id.id_less(&other.info.id)
    }

    fn id_same(&self, other: &Self) -> (r: bool) {
        self.info.id.id_same(&other.info.id)
    }
}

impl Config {
    /// The configuration of a configuration manifest.
    pub fn from_manifest(manifest: ConfigManifest) -> (r: Self)
        ensures
            r == config_of(manifest),
    {
        Config { output_dir: manifest.output_dir }
    }
}

impl Album {
    /// Moves an album manifest into the model.
    pub fn from_manifest(manifest: AlbumManifest) -> (r: Self)
        ensures
            r.info.id == album_id_of(manifest),
    {
        Album {
            info: AlbumInfo {
                id: AlbumId { artist: manifest.artist, year: manifest.year, title: manifest.title },
            },
        }
    }
}

impl Track {
    /// Moves a track manifest into the model.
    pub fn from_manifest(manifest: TrackManifest) -> (r: Self)
        ensures
            r == track_of(manifest),
    {
        Track { info: TrackInfo { title: manifest.title }, file: manifest.file }
    }
}

impl Disc {
    /// Moves a disc manifest into the model, track by track.
    pub fn from_manifest(manifest: DiscManifest) -> (r: Self)
        ensures
            disc_of(r, manifest),
    {
        let ghost ms = manifest.tracks@;
        let mut tracks: Vec<Track> = Vec::new();
        for t in it: manifest.tracks.into_iter()
            invariant
                it.seq() == ms,
                tracks@.len() == it.index(),
                forall|i: int| 0 <= i < it.index() ==> tracks@[i] == track_of(ms[i]),
        {
            tracks.push(Track::from_manifest(t));
        }
        assert(tracks@ =~= ms.map_values(|t: TrackManifest| track_of(t)));
        Disc { info: DiscInfo {  }, tracks }
    }
}

impl Release {
    /// Moves a release manifest into the model, disc by disc.
    pub fn from_manifest(manifest: ReleaseManifest) -> (r: Self)
        ensures
            r.info.id == release_id_of(manifest),
            discs_of(r.discs@, manifest.discs@),
    {
        let ghost ms = manifest.discs@;
        let mut discs: Vec<Disc> = Vec::new();
        for d in it: manifest.discs.into_iter()
            invariant
                it.seq() == ms,
                discs@.len() == it.index(),
                forall|i: int| 0 <= i < it.index() ==> #[trigger] disc_of(discs@[i], ms[i]),
        {
            discs.push(Disc::from_manifest(d));
        }
        Release {
            info: ReleaseInfo {
                id: ReleaseId {
                    year: manifest.year,
                    catalog_number: manifest.catalog_number,
                    media_type: manifest.media_type,
                    audio_channels: manifest.audio_channels,
                    provenance: manifest.provenance,
                },
            },
            discs,
        }
    }
}

impl ReleaseModel {
    /// Models a release directory: its manifest, moved into the model.
    pub fn from_source(source: ReleaseSource) -> (r: Self)
        ensures
            release_model_of(r, source),
    {
        let release = Release::from_manifest(source.manifest);
        ReleaseModel { dir: source.dir, info: release.info, discs: release.discs }
    }
}

/// `m` is the model of the album directory `s`: its releases are the models of
/// the release directories of `s`, ordered by identifier.
pub open spec fn album_model_of(m: AlbumModel, s: AlbumSource) -> bool {
    &&& m.dir == s.dir
    &&& m.info.id == album_id_of(s.manifest)
    &&& release_models_of(m.releases@, sort_by_id_spec(s.releases@))
}

/// `ms` are the models of the album directories `ss`, one for one.
pub open spec fn album_models_of(ms: Seq<AlbumModel>, ss: Seq<AlbumSource>) -> bool {
    ms.len() == ss.len() && forall|i: int|
        0 <= i < ss.len() ==> #[trigger] album_model_of(ms[i], ss[i])
}

/// `e` reports that the releases `first` and `second` of the album directory
/// `dir` share an identifier.
pub open spec fn is_duplicate_release(
    e: ModelError,
    dir: String,
    first: ReleaseSource,
    second: ReleaseSource,
) -> bool {
    match e {
        ModelError::ModelAlbum { dir: d, id, existing, duplicate } => {
            &&& d@ == dir@
            &&& id@ == release_id_text(release_id_of(second.manifest))
            &&& existing@ == first.dir@
            &&& duplicate@ == second.dir@
        },
        _ => false,
    }
}

/// `e` reports that the albums `first` and `second` of the source directory
/// `dir` share an identifier.
pub open spec fn is_duplicate_album(
    e: ModelError,
    dir: String,
    first: AlbumSource,
    second: AlbumSource,
) -> bool {
    match e {
        ModelError::ModelSource { dir: d, id, existing, duplicate } => {
            &&& d@ == dir@
            &&& id@ == album_id_text(album_id_of(second.manifest))
            &&& existing@ == first.dir@
            &&& duplicate@ == second.dir@
        },
        _ => false,
    }
}

/// `e` is the error of modelling the album directory `s`: it names the first
/// release whose identifier repeats that of an earlier one, and that one.
pub open spec fn album_model_error(e: ModelError, s: AlbumSource) -> bool {
    exists|i: int, j: int|
        #[trigger] id_repeat_at(s.releases@, i, j) && is_duplicate_release(
            e,
            s.dir,
            s.releases@[i],
            s.releases@[j],
        )
}

/// Modelling stops at the album `k` of `ss`: two of its releases share an
/// identifier, or its identifier is that of an earlier album.
pub open spec fn album_stop_at(ss: Seq<AlbumSource>, k: int) -> bool {
    &&& 0 <= k < ss.len()
    &&& has_id_repeat(ss[k].releases@) || exists|i: int| 0 <= i < k && #[trigger] ss[i].id_eq(ss[k])
}

/// Modelling stops at no album of `ss`.
pub open spec fn albums_accepted(ss: Seq<AlbumSource>) -> bool {
    forall|k: int| 0 <= k < ss.len() ==> !#[trigger] album_stop_at(ss, k)
}

/// `e` is the error of modelling the albums `ss` of the source directory
/// `dir`: that of the first album at which modelling stops.
pub open spec fn model_error(e: ModelError, dir: String, ss: Seq<AlbumSource>) -> bool {
    exists|k: int|
        #[trigger] album_stop_at(ss, k) && (forall|j: int| 0 <= j < k ==> !album_stop_at(ss, j)) && (
        if has_id_repeat(ss[k].releases@) {
            album_model_error(e, ss[k])
        } else {
            exists|i: int|
                0 <= i < k && #[trigger] ss[i].id_eq(ss[k]) && is_duplicate_album(
                    e,
                    dir,
                    ss[i],
                    ss[k],
                )
        })
}

impl IdOrder for AlbumSource {
    open spec fn id_lt(self, other: Self) -> bool {
        album_id_of(self.manifest).id_lt(album_id_of(other.manifest))
    }

    open spec fn id_eq(self, other: Self) -> bool {
        album_id_of(self.manifest).id_eq(album_id_of(other.manifest))
    }

    proof fn lemma_id_order(a: Self, b: Self, c: Self) {
        AlbumId::lemma_id_order(
            album_id_of(a.manifest),
            album_id_of(b.manifest),
            album_id_of(c.manifest),
        );
    }

    fn id_less(&self, other: &Self) -> (r: bool) {
        let a = AlbumId {
            artist: self.manifest.artist.clone(),
            year: self.manifest.year,
            title: self.manifest.title.clone(),
        };
        let b = AlbumId {
            artist: other.manifest.artist.clone(),
            year: other.manifest.year,
            title: other.manifest.title.clone(),
        };
        a.id_less(&b)
    }

    fn id_same(&self, other: &Self) -> (r: bool) {
        str_eq(self.manifest.artist.as_str(), other.manifest.artist.as_str())
            && self.manifest.year == other.manifest.year && str_eq(
            self.manifest.title.as_str(),
            other.manifest.title.as_str(),
        )
    }
}

impl IdOrder for AlbumModel {
    open spec fn id_lt(self, other: Self) -> bool {
        self.info.id.id_lt(other.info.id)
    }

    open spec fn id_eq(self, other: Self) -> bool {
        self.info.id.id_eq(other.info.id)
    }

    proof fn lemma_id_order(a: Self, b: Self, c: Self) {
        AlbumId::lemma_id_order(a.info.id, b.info.id, c.info.id);
    }

    fn id_less(&self, other: &Self) -> (r: bool) {
        self.info.id.id_less(&other.info.id)
    }

    fn id_same(&self, other: &Self) -> (r: bool) {
        self.info.id.id_same(&other.info.id)
    }
}

impl AlbumModel {
    /// Models an album directory. Fails on the first release whose identifier
    /// is that of an earlier release; otherwise the releases are ordered by
    /// identifier.
    pub fn from_source(source: AlbumSource) -> (r: Result<AlbumModel, ModelError>)
        ensures
            match r {
                Ok(m) => {
                    &&& !has_id_repeat(source.releases@)
                    &&& album_model_of(m, source)
                    &&& sorted_by_id(m.releases@)
                    &&& !has_id_repeat(m.releases@)
                },
                Err(e) => has_id_repeat(source.releases@) && album_model_error(e, source),
            },
    {
        let dir = source.dir;
        let album = Album::from_manifest(source.manifest);
        let info = album.info;
        let ghost ss = source.releases@;
        let mut releases: Vec<ReleaseModel> = Vec::new();
        for release_source in it: source.releases.into_iter()
            invariant
                it.seq() == ss,
                dir == source.dir,
                info.id == album_id_of(source.manifest),
                releases@.len() == it.index(),
                forall|i: int|
                    0 <= i < it.index() ==> #[trigger] release_model_of(releases@[i], ss[i]),
                forall|a: int, b: int| 0 <= a < b < it.index() ==> !ss[a].id_eq(ss[b]),
        {
            let ghost j = it.index();
            assert(release_source == ss[j]);
            let release = ReleaseModel::from_source(release_source);
            let mut k: usize = 0;
            while k < releases.len()
                invariant
                    k <= releases@.len(),
                    releases@.len() == j,
                    0 <= j < ss.len(),
                    release_model_of(release, ss[j]),
                    forall|i: int| 0 <= i < j ==> #[trigger] release_model_of(releases@[i], ss[i]),
                    forall|a: int| 0 <= a < k ==> !ss[a].id_eq(ss[j]),
                    forall|a: int, b: int| 0 <= a < b < j ==> !ss[a].id_eq(ss[b]),
                    dir == source.dir,
                    ss == source.releases@,
                decreases releases@.len() - k,
            {
                if releases[k].id_same(&release) {
                    assert(release_model_of(releases@[k as int], ss[k as int]));
                    assert(id_repeat_at(ss, k as int, j));
                    let e = ModelError::ModelAlbum {
                        dir: dir,
                        id: release.info.id.to_string(),
                        existing: releases[k].dir.clone(),
                        duplicate: release.dir.clone(),
                    };
                    assert(is_duplicate_release(e, source.dir, ss[k as int], ss[j]));
                    return Err(e);
                }
                proof {
                    assert(release_model_of(releases@[k as int], ss[k as int]));
                }
                k += 1;
            }
            let ghost before = releases@;
            releases.push(release);
            proof {
                assert forall|i: int| 0 <= i < j + 1 implies #[trigger] release_model_of(
                    releases@[i],
                    ss[i],
                ) by {
                    if i < j {
                        assert(releases@[i] == before[i]);
                    }
                }
            }
        }
        let ghost unsorted = releases@;
        let sorted = sort_by_id(releases);
        proof {
            let rel = |m: ReleaseModel, s: ReleaseSource| release_model_of(m, s);
            assert forall|i: int| 0 <= i < unsorted.len() implies #[trigger] rel(
                unsorted[i],
                ss[i],
            ) by {
                assert(release_model_of(unsorted[i], ss[i]));
            }
            assert forall|a: ReleaseModel, b: ReleaseSource, c: ReleaseModel, d: ReleaseSource|
                #![trigger rel(a, b), rel(c, d)]
                rel(a, b) && rel(c, d) implies a.id_lt(c) == b.id_lt(d) by {
            }
            crate::order::lemma_sort_by_id_corresponds(unsorted, ss, rel);
            lemma_sort_by_id(unsorted);
            assert forall|a: int, b: int| 0 <= a < b < unsorted.len() implies !unsorted[a].id_eq(
                unsorted[b],
            ) by {
                assert(release_model_of(unsorted[a], ss[a]));
                assert(release_model_of(unsorted[b], ss[b]));
                assert(unsorted.len() == ss.len());
                assert(!ss[a].id_eq(ss[b]));
            }
            lemma_sort_keeps_distinct(unsorted);
            assert(forall|i: int|
                0 <= i < sort_by_id_spec(ss).len() ==> #[trigger] release_model_of(
                    sort_by_id_spec(unsorted)[i],
                    sort_by_id_spec(ss)[i],
                ) == rel(sort_by_id_spec(unsorted)[i], sort_by_id_spec(ss)[i]));
        }
        Ok(AlbumModel { dir, info, releases: sorted })
    }
}

impl Model {
    /// Models a source directory. Fails at the first album whose releases
    /// repeat an identifier, or whose identifier is that of an earlier album;
    /// otherwise the albums are ordered by identifier.
    pub fn from_source(source: Source) -> (r: Result<Model, ModelError>)
        ensures
            match r {
                Ok(m) => {
                    &&& albums_accepted(source.albums@)
                    &&& m.dir == source.dir
                    &&& m.config == config_of(source.config)
                    &&& album_models_of(m.albums@, sort_by_id_spec(source.albums@))
                    &&& sorted_by_id(m.albums@)
                    &&& !has_id_repeat(m.albums@)
                },
                Err(e) => model_error(e, source.dir, source.albums@),
            },
    {
        let dir = source.dir;
        let config = Config::from_manifest(source.config);
        let ghost ss = source.albums@;
        let mut albums: Vec<AlbumModel> = Vec::new();
        for album_source in it: source.albums.into_iter()
            invariant
                it.seq() == ss,
                ss == source.albums@,
                dir == source.dir,
                config == config_of(source.config),
                albums@.len() == it.index(),
                forall|i: int| 0 <= i < it.index() ==> #[trigger] album_model_of(albums@[i], ss[i]),
                forall|k: int| 0 <= k < it.index() ==> !#[trigger] album_stop_at(ss, k),
        {
            let ghost j = it.index();
            assert(album_source == ss[j]);
            let album = match AlbumModel::from_source(album_source) {
                Ok(a) => a,
                Err(e) => {
                    assert(album_stop_at(ss, j));
                    return Err(e);
                },
            };
            let mut k: usize = 0;
            while k < albums.len()
                invariant
                    k <= albums@.len(),
                    albums@.len() == j,
                    0 <= j < ss.len(),
                    ss == source.albums@,
                    dir == source.dir,
                    album_model_of(album, ss[j]),
                    !has_id_repeat(ss[j].releases@),
                    forall|i: int| 0 <= i < j ==> #[trigger] album_model_of(albums@[i], ss[i]),
                    forall|a: int| 0 <= a < k ==> !ss[a].id_eq(ss[j]),
                    forall|a: int| 0 <= a < j ==> !#[trigger] album_stop_at(ss, a),
                decreases albums@.len() - k,
            {
                if albums[k].id_same(&album) {
                    assert(album_model_of(albums@[k as int], ss[k as int]));
                    assert(ss[k as int].id_eq(ss[j]));
                    assert(album_stop_at(ss, j));
                    let e = ModelError::ModelSource {
                        dir: dir,
                        id: album.info.id.to_string(),
                        existing: albums[k].dir.clone(),
                        duplicate: album.dir.clone(),
                    };
                    assert(is_duplicate_album(e, source.dir, ss[k as int], ss[j]));
                    return Err(e);
                }
                proof {
                    assert(album_model_of(albums@[k as int], ss[k as int]));
                }
                k += 1;
            }
            proof {
                assert(!album_stop_at(ss, j));
            }
            let ghost before = albums@;
            albums.push(album);
            proof {
                assert forall|i: int| 0 <= i < j + 1 implies #[trigger] album_model_of(
                    albums@[i],
                    ss[i],
                ) by {
                    if i < j {
                        assert(albums@[i] == before[i]);
                    }
                }
            }
        }
        let ghost unsorted = albums@;
        let sorted = sort_by_id(albums);
        proof {
            let rel = |m: AlbumModel, s: AlbumSource| album_model_of(m, s);
            assert forall|i: int| 0 <= i < unsorted.len() implies #[trigger] rel(
                unsorted[i],
                ss[i],
            ) by {
                assert(album_model_of(unsorted[i], ss[i]));
            }
            assert forall|a: AlbumModel, b: AlbumSource, c: AlbumModel, d: AlbumSource|
                #![trigger rel(a, b), rel(c, d)]
                rel(a, b) && rel(c, d) implies a.id_lt(c) == b.id_lt(d) by {
            }
            crate::order::lemma_sort_by_id_corresponds(unsorted, ss, rel);
            lemma_sort_by_id(unsorted);
            assert forall|a: int, b: int| 0 <= a < b < unsorted.len() implies !unsorted[a].id_eq(
                unsorted[b],
            ) by {
                assert(album_model_of(unsorted[a], ss[a]));
                assert(album_model_of(unsorted[b], ss[b]));
                assert(unsorted.len() == ss.len());
                assert(!album_stop_at(ss, b));
                assert(!ss[a].id_eq(ss[b]));
            }
            lemma_sort_keeps_distinct(unsorted);
            assert(forall|i: int|
                0 <= i < sort_by_id_spec(ss).len() ==> #[trigger] album_model_of(
                    sort_by_id_spec(unsorted)[i],
                    sort_by_id_spec(ss)[i],
                ) == rel(sort_by_id_spec(unsorted)[i], sort_by_id_spec(ss)[i]));
        }
        Ok(Model { dir, config, albums: sorted })
    }
}

/// Two release identifiers are the same exactly when all five of their
/// fields are; otherwise they are ordered by the first field in which they
/// differ: year, then catalog number, media type, audio channels and
/// provenance.
pub proof fn lemma_release_id_fields(a: ReleaseId, b: ReleaseId)
    ensures
        a.id_eq(b) <==> (a.year == b.year && a.catalog_number@ == b.catalog_number@
            && a.media_type@ == b.media_type@ && a.audio_channels@ == b.audio_channels@
            && a.provenance@ == b.provenance@),
        a.year != b.year ==> (a.id_lt(b) <==> a.year < b.year),
        a.year == b.year && a.catalog_number@ != b.catalog_number@ ==> (a.id_lt(b) <==> seq_lt(
            a.catalog_number@,
            b.catalog_number@,
        )),
        a.year == b.year && a.catalog_number@ == b.catalog_number@ && a.media_type@
            != b.media_type@ ==> (a.id_lt(b) <==> seq_lt(a.media_type@, b.media_type@)),
        a.year == b.year && a.catalog_number@ == b.catalog_number@ && a.media_type@
            == b.media_type@ && a.audio_channels@ != b.audio_channels@ ==> (a.id_lt(b) <==> seq_lt(
            a.audio_channels@,
            b.audio_channels@,
        )),
        a.year == b.year && a.catalog_number@ == b.catalog_number@ && a.media_type@
            == b.media_type@ && a.audio_channels@ == b.audio_channels@ ==> (a.id_lt(b) <==> seq_lt(
            a.provenance@,
            b.provenance@,
        )),
{
    ReleaseId::lemma_id_order(a, b, b);
}

/// Two release directories share an identifier exactly when all five
/// identifier fields of their manifests are equal.
pub proof fn lemma_release_source_fields(a: ReleaseSource, b: ReleaseSource)
    ensures
        a.id_eq(b) <==> (a.manifest.year == b.manifest.year && a.manifest.catalog_number@
            == b.manifest.catalog_number@ && a.manifest.media_type@ == b.manifest.media_type@
            && a.manifest.audio_channels@ == b.manifest.audio_channels@
            && a.manifest.provenance@ == b.manifest.provenance@),
{
    lemma_release_id_fields(release_id_of(a.manifest), release_id_of(b.manifest));
}

/// Two album identifiers are the same exactly when artist, year and title all
/// are; otherwise they are ordered by the first of these in which they differ.
pub proof fn lemma_album_id_fields(a: AlbumId, b: AlbumId)
    ensures
        a.id_eq(b) <==> (a.artist@ == b.artist@ && a.year == b.year && a.title@ == b.title@),
        a.artist@ != b.artist@ ==> (a.id_lt(b) <==> seq_lt(a.artist@, b.artist@)),
        a.artist@ == b.artist@ && a.year != b.year ==> (a.id_lt(b) <==> a.year < b.year),
        a.artist@ == b.artist@ && a.year == b.year ==> (a.id_lt(b) <==> seq_lt(a.title@, b.title@)),
{
    AlbumId::lemma_id_order(a, b, b);
}

} // verus!

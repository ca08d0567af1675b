//! The module manifests of a source directory, as the build reads them.
//!
//! A module holds metadata, an optional tracklist and either child modules or a
//! mapping of source audio files to tracks. Paths are held as text.

use vstd::prelude::*;
use crate::build::convert::Convert;
use crate::build::replaygain::Replaygain;
use crate::text::str_eq;

verus! {

/// The map that a list of key/value pairs stands for, later pairs overriding earlier ones.
pub open spec fn pairs_map(s: Seq<(String, String)>) -> Map<Seq<char>, Seq<char>>
    decreases s.len(),
{
    if s.len() == 0 {
        Map::empty()
    } else {
        pairs_map(s.drop_last()).insert(s.last().0@, s.last().1@)
    }
}

/// No key occurs twice in the list.
pub open spec fn distinct_keys(s: Seq<(String, String)>) -> bool {
    forall|i: int, j: int| 0 <= i < j < s.len() ==> s[i].0@ != s[j].0@
}

/// A key of the map is the key of a pair, and a pair's value is what the map holds for
/// its key, when no key occurs twice.
pub proof fn lemma_pairs_map(s: Seq<(String, String)>)
    requires
        distinct_keys(s),
    ensures
        forall|k: Seq<char>|
            #[trigger] pairs_map(s).contains_key(k) <==> exists|i: int|
                0 <= i < s.len() && s[i].0@ == k,
        forall|i: int|
            0 <= i < s.len() ==> #[trigger] pairs_map(s).contains_key(s[i].0@) && pairs_map(s)[s[i].0@]
                == s[i].1@,
    decreases s.len(),
{
    if s.len() > 0 {
        let t = s.drop_last();
        assert(distinct_keys(t));
        lemma_pairs_map(t);
        assert forall|k: Seq<char>|
            #[trigger] pairs_map(s).contains_key(k) implies exists|i: int|
                0 <= i < s.len() && s[i].0@ == k by {
            if k != s.last().0@ {
                assert(pairs_map(t).contains_key(k));
                let i = choose|i: int| 0 <= i < t.len() && t[i].0@ == k;
                assert(s[i] == t[i]);
            } else {
                assert(s[s.len() - 1].0@ == k);
            }
        }
        assert forall|i: int| 0 <= i < s.len() implies #[trigger] pairs_map(s).contains_key(
            s[i].0@,
        ) && pairs_map(s)[s[i].0@] == s[i].1@ by {
            if i < s.len() - 1 {
                assert(s[i] == t[i]);
                assert(s[i].0@ != s[s.len() - 1].0@);
                assert(pairs_map(t).contains_key(t[i].0@));
            }
        }
    }
}

/// Metadata: string keys with string values, each key at most once.
pub struct Metadata {
    entries: Vec<(String, String)>,
}

impl View for Metadata {
    type V = Map<Seq<char>, Seq<char>>;

    closed spec fn view(&self) -> Map<Seq<char>, Seq<char>> {
        pairs_map(self.entries@)
    }
}

impl Metadata {
    #[verifier::type_invariant]
    closed spec fn keys_are_distinct(self) -> bool {
        distinct_keys(self.entries@)
    }

    /// The key/value pairs, in the order they were first inserted.
    pub closed spec fn pairs(self) -> Seq<(String, String)> {
        self.entries@
    }

    /// Empty metadata.
    pub fn new() -> (m: Metadata)
        ensures
            m@ == Map::<Seq<char>, Seq<char>>::empty(),
    {
        Metadata { entries: Vec::new() }
    }

    /// The number of keys.
    pub fn len(&self) -> (n: usize)
        ensures
            n == self@.dom().len(),
            n == self.pairs().len(),
    {
        proof {
            use_type_invariant(self);
            self.lemma_dom();
        }
        self.entries.len()
    }

    proof fn lemma_dom(&self)
        requires
            distinct_keys(self.entries@),
        ensures
            self@.dom() == self.entries@.map_values(|p: (String, String)| p.0@).to_set(),
            self@.dom().len() == self.entries@.len(),
            self@.dom().finite(),
    {
        lemma_pairs_map(self.entries@);
        let keys = self.entries@.map_values(|p: (String, String)| p.0@);
        assert forall|k: Seq<char>| self@.dom().contains(k) <==> keys.to_set().contains(k) by {
            if self@.dom().contains(k) {
                let i = choose|i: int| 0 <= i < self.entries@.len() && self.entries@[i].0@ == k;
                assert(keys[i] == k);
            }
            if keys.to_set().contains(k) {
                let i = choose|i: int| 0 <= i < keys.len() && keys[i] == k;
                assert(self@.contains_key(self.entries@[i].0@));
            }
        }
        assert(self@.dom() =~= keys.to_set());
        assert(keys.no_duplicates()) by {
            assert forall|i: int, j: int|
                0 <= i < keys.len() && 0 <= j < keys.len() && i != j implies keys[i] != keys[j] by {
                if i < j {
                } else {
                }
            }
        }
        keys.unique_seq_to_set();
    }

    /// The pair at `i`, in the order of first insertion.
    pub fn pair(&self, i: usize) -> (p: (&String, &String))
        requires
            i < self.pairs().len(),
        ensures
            *p.0 == self.pairs()[i as int].0,
            *p.1 == self.pairs()[i as int].1,
            self@.contains_key(p.0@),
            self@[p.0@] == p.1@,
    {
        proof {
            use_type_invariant(self);
            lemma_pairs_map(self.entries@);
        }
        (&self.entries[i].0, &self.entries[i].1)
    }

    fn find(&self, key: &str) -> (r: Option<usize>)
        ensures
            match r {
                Some(i) => i < self.entries@.len() && self.entries@[i as int].0@ == key@,
                None => forall|i: int| 0 <= i < self.entries@.len() ==> self.entries@[i].0@ != key@,
            },
    {
        let mut i: usize = 0;
        while i < self.entries.len()
            invariant
                i <= self.entries@.len(),
                forall|j: int| 0 <= j < i ==> self.entries@[j].0@ != key@,
            decreases self.entries@.len() - i,
        {
            if str_eq(self.entries[i].0.as_str(), key) {
                return Some(i);
            }
            i += 1;
        }
        None
    }

    /// The value of `key`, if the metadata holds it.
    pub fn get(&self, key: &str) -> (r: Option<&String>)
        ensures
            match r {
                Some(v) => self@.contains_key(key@) && self@[key@] == v@,
                None => !self@.contains_key(key@),
            },
    {
        proof {
            use_type_invariant(self);
            lemma_pairs_map(self.entries@);
        }
        match self.find(key) {
            Some(i) => {
                proof {
                    assert(pairs_map(self.entries@).contains_key(self.entries@[i as int].0@));
                }
                Some(&self.entries[i].1)
            },
            None => None,
        }
    }

    /// Sets `key` to `value`, replacing the value it had.
    pub fn insert(&mut self, key: String, value: String)
        ensures
            final(self)@ == old(self)@.insert(key@, value@),
    {
        proof {
            use_type_invariant(&*self);
            lemma_pairs_map(self.entries@);
        }
        let ghost old_entries = self.entries@;
        match self.find(key.as_str()) {
            Some(i) => {
                let ghost k = key@;
                let ghost v = value@;
                let mut entries = Vec::new();
                std::mem::swap(&mut entries, &mut self.entries);
                entries.set(i, (key, value));
                proof {
                    assert(distinct_keys(entries@)) by {
                        assert forall|a: int, b: int| 0 <= a < b < entries@.len() implies entries@[a].0@
                            != entries@[b].0@ by {
                            if a != i && b != i {
                                assert(entries@[a] == old_entries[a]);
                                assert(entries@[b] == old_entries[b]);
                            } else if a == i {
                                assert(entries@[b] == old_entries[b]);
                            } else {
                                assert(entries@[a] == old_entries[a]);
                            }
                        }
                    }
                    lemma_pairs_map(entries@);
                    let m = pairs_map(entries@);
                    let o = pairs_map(old_entries).insert(k, v);
                    assert forall|x: Seq<char>| m.contains_key(x) <==> o.contains_key(x) by {
                        if m.contains_key(x) {
                            let j = choose|j: int| 0 <= j < entries@.len() && entries@[j].0@ == x;
                            if j != i {
                                assert(entries@[j] == old_entries[j]);
                                assert(pairs_map(old_entries).contains_key(old_entries[j].0@));
                            }
                        }
                        if o.contains_key(x) {
                            if x == k {
                                assert(m.contains_key(entries@[i as int].0@));
                            } else {
                                assert(pairs_map(old_entries).contains_key(x));
                                let j = choose|j: int| 0 <= j < old_entries.len() && old_entries[j].0@ == x;
                                assert(entries@[j] == old_entries[j]);
                                assert(m.contains_key(entries@[j].0@));
                            }
                        }
                    }
                    assert forall|x: Seq<char>| m.contains_key(x) implies m[x] == o[x] by {
                        let j = choose|j: int| 0 <= j < entries@.len() && entries@[j].0@ == x;
                        if j != i {
                            assert(entries@[j] == old_entries[j]);
                        }
                    }
                    assert(m =~= o);
                }
                self.entries = entries;
            },
            None => {
                let ghost k = key@;
                let mut entries = Vec::new();
                std::mem::swap(&mut entries, &mut self.entries);
                entries.push((key, value));
                proof {
                    assert(entries@.drop_last() =~= old_entries);
                }
                self.entries = entries;
            },
        }
    }

    /// A copy of the metadata.
    pub fn duplicate(&self) -> (m: Metadata)
        ensures
            m@ == self@,
            m.pairs() == self.pairs(),
    {
        proof {
            use_type_invariant(self);
        }
        let mut entries: Vec<(String, String)> = Vec::new();
        let mut i: usize = 0;
        while i < self.entries.len()
            invariant
                i <= self.entries@.len(),
                entries@ == self.entries@.take(i as int),
            decreases self.entries@.len() - i,
        {
            let k = self.entries[i].0.clone();
            let v = self.entries[i].1.clone();
            entries.push((k, v));
            i += 1;
            proof {
                assert(entries@ =~= self.entries@.take(i as int));
            }
        }
        proof {
            assert(entries@ =~= self.entries@);
        }
        Metadata { entries }
    }

    /// The metadata of a child module: the parent's keys, overridden by the child's own.
    pub fn inherit(parent: &Metadata, own: &Metadata) -> (m: Metadata)
        ensures
            m@ == parent@.union_prefer_right(own@),
    {
        proof {
            use_type_invariant(own);
            lemma_pairs_map(own.entries@);
        }
        let mut m = parent.duplicate();
        let mut i: usize = 0;
        while i < own.entries.len()
            invariant
                i <= own.entries@.len(),
                distinct_keys(own.entries@),
                m@ == parent@.union_prefer_right(pairs_map(own.entries@.take(i as int))),
            decreases own.entries@.len() - i,
        {
            let k = own.entries[i].0.clone();
            let v = own.entries[i].1.clone();
            m.insert(k, v);
            proof {
                assert(own.entries@.take(i + 1).drop_last() =~= own.entries@.take(i as int));
                assert(m@ =~= parent@.union_prefer_right(pairs_map(own.entries@.take(i + 1))));
            }
            i += 1;
        }
        proof {
            assert(own.entries@.take(i as int) =~= own.entries@);
        }
        m
    }
}

/// A track of a tracklist.
pub struct Track {
    pub metadata: Metadata,
}

/// A disc of a tracklist.
pub struct Disc {
    pub metadata: Metadata,
    pub tracks: Vec<Track>,
}

/// A disc as a value: its metadata and the metadata of each of its tracks.
pub struct DiscView {
    pub metadata: Map<Seq<char>, Seq<char>>,
    pub tracks: Seq<Map<Seq<char>, Seq<char>>>,
}

impl View for Disc {
    type V = DiscView;

    open spec fn view(&self) -> DiscView {
        DiscView { metadata: self.metadata@, tracks: self.tracks@.map_values(|t: Track| t.metadata@) }
    }
}

/// A tracklist as a value.
pub open spec fn tracklist_view(discs: Seq<Disc>) -> Seq<DiscView> {
    discs.map_values(|d: Disc| d@)
}

impl Track {
    /// A copy of the track.
    pub fn duplicate(&self) -> (t: Track)
        ensures
            t.metadata@ == self.metadata@,
    {
        Track { metadata: self.metadata.duplicate() }
    }
}

impl Disc {
    /// A copy of the disc.
    pub fn duplicate(&self) -> (d: Disc)
        ensures
            d@ == self@,
    {
        let mut tracks: Vec<Track> = Vec::new();
        let mut i: usize = 0;
        while i < self.tracks.len()
            invariant
                i <= self.tracks@.len(),
                tracks@.len() == i,
                forall|j: int| 0 <= j < i ==> tracks@[j].metadata@ == self.tracks@[j].metadata@,
            decreases self.tracks@.len() - i,
        {
            tracks.push(self.tracks[i].duplicate());
            i += 1;
        }
        proof {
            assert(tracks@.map_values(|t: Track| t.metadata@) =~= self.tracks@.map_values(
                |t: Track| t.metadata@,
            ));
        }
        Disc { metadata: self.metadata.duplicate(), tracks }
    }
}

/// A copy of a tracklist.
pub fn duplicate_tracklist(discs: &Vec<Disc>) -> (r: Vec<Disc>)
    ensures
        tracklist_view(r@) == tracklist_view(discs@),
{
    let mut r: Vec<Disc> = Vec::new();
    let mut i: usize = 0;
    while i < discs.len()
        invariant
            i <= discs@.len(),
            r@.len() == i,
            forall|j: int| 0 <= j < i ==> r@[j]@ == discs@[j]@,
        decreases discs@.len() - i,
    {
        r.push(discs[i].duplicate());
        i += 1;
    }
    proof {
        assert(tracklist_view(r@) =~= tracklist_view(discs@));
    }
    r
}

/// A source audio file of a leaf module, mapped to a track of the tracklist.
/// Numbers count from one.
pub struct File {
    pub file: String,
    pub disc_number: usize,
    pub track_number: usize,
}

impl File {
    /// A copy of the mapping.
    pub fn duplicate(&self) -> (f: File)
        ensures
            f == *self,
    {
        File { file: self.file.clone(), disc_number: self.disc_number, track_number: self.track_number }
    }
}

/// The children of a module: child module directories, or source audio files.
pub enum Children {
    Modules { modules: Vec<String> },
    Files { files: Vec<File> },
}

/// A module manifest.
pub struct Module {
    pub metadata: Metadata,
    pub discs: Option<Vec<Disc>>,
    pub children: Children,
}

/// The child modules of the root module.
pub struct RootChildren {
    pub modules: Vec<String>,
}

/// The root module manifest: the output directory, the processing settings, the
/// metadata shared by all modules, and the child modules.
pub struct RootModule {
    pub output_directory: String,
    pub convert: Option<Convert>,
    pub replaygain: Option<Replaygain>,
    pub metadata: Metadata,
    pub children: RootChildren,
}

} // verus!

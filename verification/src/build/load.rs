//! Loading the module hierarchy of a source directory into build units.
//!
//! Each module inherits the metadata of its ancestors, a child's own keys
//! overriding its parent's, and the nearest tracklist of its lineage. A leaf
//! module maps source audio files to the tracks of that tracklist; it becomes
//! a unit when the mapping covers each track exactly once, in order.
//! Reading the module manifests is done outside the library, which receives
//! the hierarchy as a tree of loaded (or unreadable) modules.

use vstd::prelude::*;
use crate::text::strings_view;
use vstd::string::*;
use crate::module::{
    Children, Disc, DiscView, File, Metadata, Module, RootModule, duplicate_tracklist, tracklist_view,
};
use crate::paths::{components_eq, path_components, path_join, spec_path_components, spec_path_join};
use crate::text::str_eq;

verus! {

// ---------------------------------------------------------------------------
// Repeated paths
// ---------------------------------------------------------------------------

/// `s[i]` repeats `s[j]`, and no earlier pair of positions holds equal values.
pub open spec fn repeat_at<A>(s: Seq<A>, i: int, j: int) -> bool {
    &&& 0 <= i < j < s.len()
    &&& s[i] == s[j]
    &&& forall|a: int, b: int| 0 <= a < b < j ==> s[a] != s[b]
}

/// Some value occurs twice in `s`.
pub open spec fn has_repeat<A>(s: Seq<A>) -> bool {
    exists|i: int, j: int| repeat_at(s, i, j)
}

/// The first repetition of `s`: the positions of the earlier and later occurrence.
pub open spec fn first_repeat<A>(s: Seq<A>) -> (int, int) {
    choose|p: (int, int)| repeat_at(s, p.0, p.1)
}

/// There is at most one first repetition.
pub proof fn lemma_repeat_unique<A>(s: Seq<A>, i: int, j: int)
    requires
        repeat_at(s, i, j),
    ensures
        first_repeat(s) == (i, j),
{
    let w = (i, j);
    assert(repeat_at(s, w.0, w.1));
    let p = choose|p: (int, int)| repeat_at(s, p.0, p.1);
    assert(repeat_at(s, p.0, p.1));
    if p.1 < j {
        assert(s[p.0] != s[p.1]);
    } else if j < p.1 {
        assert(s[i] != s[j]);
    } else if p.0 < i {
        assert(s[p.0] != s[i]);
    } else if i < p.0 {
        assert(s[i] != s[p.0]);
    }
}

/// The component sequences of a list of paths.
pub open spec fn path_keys(paths: Seq<String>) -> Seq<Seq<Seq<char>>> {
    paths.map_values(|p: String| spec_path_components(p@))
}

/// Finds the first repetition among a list of paths, comparing them as `Path` does.
pub fn find_repeated_path(paths: &Vec<String>) -> (r: Option<(usize, usize)>)
    ensures
        match r {
            Some(p) => repeat_at(path_keys(paths@), p.0 as int, p.1 as int),
            None => !has_repeat(path_keys(paths@)),
        },
{
    let ghost keys = path_keys(paths@);
    let mut comps: Vec<Vec<String>> = Vec::new();
    let mut j: usize = 0;
    while j < paths.len()
        invariant
            j <= paths@.len(),
            keys == path_keys(paths@),
            comps@.len() == j,
            forall|k: int| 0 <= k < j ==> #[trigger] strings_view(comps@[k]@) == keys[k],
            forall|a: int, b: int| 0 <= a < b < j ==> keys[a] != keys[b],
        decreases paths@.len() - j,
    {
        let cj = path_components(paths[j].as_str());
        let mut i: usize = 0;
        while i < j
            invariant
                i <= j,
                j < paths@.len(),
                keys == path_keys(paths@),
                comps@.len() == j,
                forall|k: int| 0 <= k < j ==> #[trigger] strings_view(comps@[k]@) == keys[k],
                forall|a: int, b: int| 0 <= a < b < j ==> keys[a] != keys[b],
                strings_view(cj@) == keys[j as int],
                forall|a: int| 0 <= a < i ==> keys[a] != keys[j as int],
            decreases j - i,
        {
            if components_eq(&comps[i], &cj) {
                return Some((i, j));
            }
            i += 1;
        }
        comps.push(cj);
        j += 1;
    }
    None
}

// ---------------------------------------------------------------------------
// Sorting file mappings
// ---------------------------------------------------------------------------

/// `a` comes no later than `b` when files are ordered by disc, then track.
pub open spec fn file_le(a: File, b: File) -> bool {
    a.disc_number < b.disc_number || (a.disc_number == b.disc_number && a.track_number
        <= b.track_number)
}

/// Inserts `x` into `s` after every element that does not come after it.
pub open spec fn insert_file(s: Seq<File>, x: File) -> Seq<File>
    decreases s.len(),
{
    if s.len() == 0 || file_le(s.last(), x) {
        s.push(x)
    } else {
        insert_file(s.drop_last(), x).push(s.last())
    }
}

/// The stable sort of file mappings by disc number, then track number, as
/// `sort_by_key` orders them: files with equal numbers keep their order.
pub open spec fn sort_files(s: Seq<File>) -> Seq<File>
    decreases s.len(),
{
    if s.len() == 0 {
        s
    } else {
        insert_file(sort_files(s.drop_last()), s.last())
    }
}

/// Whether files are ordered by disc, then track.
pub open spec fn files_sorted(s: Seq<File>) -> bool {
    forall|i: int, j: int| 0 <= i < j < s.len() ==> file_le(s[i], s[j])
}

proof fn lemma_insert_file(s: Seq<File>, x: File)
    requires
        files_sorted(s),
    ensures
        files_sorted(insert_file(s, x)),
        insert_file(s, x).to_multiset() == s.to_multiset().insert(x),
    decreases s.len(),
{
    broadcast use vstd::seq_lib::group_to_multiset_ensures;

    if s.len() == 0 || file_le(s.last(), x) {
        assert forall|i: int, j: int| 0 <= i < j < s.push(x).len() implies file_le(
            s.push(x)[i],
            s.push(x)[j],
        ) by {
            if j == s.len() && i < s.len() - 1 {
                assert(file_le(s[i], s[s.len() - 1]));
            }
        }
    } else {
        let t = s.drop_last();
        lemma_insert_file(t, x);
        let r = insert_file(t, x);
        assert(s =~= t.push(s.last()));
        assert forall|i: int, j: int| 0 <= i < j < r.push(s.last()).len() implies file_le(
            r.push(s.last())[i],
            r.push(s.last())[j],
        ) by {
            if j == r.len() {
                let e = r[i];
                assert(r.to_multiset().count(e) > 0);
                if e == x {
                } else {
                    assert(t.to_multiset().count(e) > 0);
                    let k = choose|k: int| 0 <= k < t.len() && t[k] == e;
                    assert(file_le(s[k], s[s.len() - 1]));
                }
            }
        }
    }
}

/// The stable sort orders the files, and holds the same files.
pub proof fn lemma_sort_files(s: Seq<File>)
    ensures
        files_sorted(sort_files(s)),
        sort_files(s).to_multiset() == s.to_multiset(),
    decreases s.len(),
{
    broadcast use vstd::seq_lib::group_to_multiset_ensures;

    if s.len() > 0 {
        lemma_sort_files(s.drop_last());
        lemma_insert_file(sort_files(s.drop_last()), s.last());
        assert(s =~= s.drop_last().push(s.last()));
    }
}

fn file_le_exec(a: &File, b: &File) -> (r: bool)
    ensures
        r == file_le(*a, *b),
{
    a.disc_number < b.disc_number || (a.disc_number == b.disc_number && a.track_number
        <= b.track_number)
}

/// Sorts file mappings by disc number, then track number, keeping the order of
/// files with equal numbers.
pub fn sorted_files(files: &Vec<File>) -> (r: Vec<File>)
    ensures
        r@ == sort_files(files@),
{
    let mut r: Vec<File> = Vec::new();
    let mut i: usize = 0;
    while i < files.len()
        invariant
            i <= files@.len(),
            r@ == sort_files(files@.take(i as int)),
        decreases files@.len() - i,
    {
        let x = files[i].duplicate();
        let ghost s = r@;
        let mut k: usize = r.len();
        proof {
            assert(s.take(k as int) =~= s);
            assert(s.skip(k as int) =~= Seq::<File>::empty());
            assert(insert_file(s, x) + Seq::<File>::empty() =~= insert_file(s, x));
        }
        while k > 0 && !file_le_exec(&r[k - 1], &x)
            invariant
                k <= s.len(),
                r@ == s,
                insert_file(s, x) == insert_file(s.take(k as int), x) + s.skip(k as int),
            decreases k,
        {
            proof {
                let t = s.take(k as int);
                assert(t.drop_last() =~= s.take(k - 1));
                assert(t.last() == s[k - 1]);
                assert(insert_file(t, x) == insert_file(s.take(k - 1), x).push(s[k - 1]));
                assert(insert_file(s.take(k - 1), x) + s.skip(k - 1) =~= insert_file(s.take(k - 1), x).push(
                    s[k - 1],
                ) + s.skip(k as int));
            }
            k -= 1;
        }
        proof {
            let t = s.take(k as int);
            if k > 0 {
                assert(t.last() == s[k - 1]);
            }
            assert(insert_file(t, x) == t.push(x));
            assert(insert_file(s, x) =~= s.take(k as int).push(x) + s.skip(k as int));
            assert(files@.take(i + 1).drop_last() =~= files@.take(i as int));
        }
        r.insert(k, x);
        proof {
            assert(r@ =~= s.take(k as int).push(x) + s.skip(k as int));
        }
        i += 1;
    }
    proof {
        assert(files@.take(i as int) =~= files@);
    }
    r
}

// ---------------------------------------------------------------------------
// Matching file mappings against the tracklist
// ---------------------------------------------------------------------------

/// The (disc number, track number) of every track of a tracklist, in order,
/// counting from one.
pub open spec fn expected_keys(tl: Seq<DiscView>) -> Seq<(int, int)>
    decreases tl.len(),
{
    if tl.len() == 0 {
        Seq::empty()
    } else {
        expected_keys(tl.drop_last()) + Seq::new(
            tl.last().tracks.len(),
            |t: int| (tl.len() as int, t + 1),
        )
    }
}

/// The (disc number, track number) of each file mapping.
pub open spec fn file_keys(files: Seq<File>) -> Seq<(int, int)> {
    files.map_values(|f: File| (f.disc_number as int, f.track_number as int))
}

/// Every position that the tracklist enumerates names a track of it.
pub proof fn lemma_expected_keys_in_range(tl: Seq<DiscView>)
    ensures
        forall|k: int|
            0 <= k < expected_keys(tl).len() ==> {
                let (d, t) = #[trigger] expected_keys(tl)[k];
                1 <= d <= tl.len() && 1 <= t <= tl[d - 1].tracks.len()
            },
    decreases tl.len(),
{
    if tl.len() > 0 {
        let p = tl.drop_last();
        lemma_expected_keys_in_range(p);
        let e = expected_keys(tl);
        let n = expected_keys(p).len();
        assert forall|k: int| 0 <= k < e.len() implies {
            let (d, t) = #[trigger] e[k];
            1 <= d <= tl.len() && 1 <= t <= tl[d - 1].tracks.len()
        } by {
            if k < n {
                assert(e[k] == expected_keys(p)[k]);
                let (d, t) = expected_keys(p)[k];
                assert(tl[d - 1] == p[d - 1]);
            }
        }
    }
}

/// The length of the enumeration of the first discs.
proof fn lemma_expected_keys_take(tl: Seq<DiscView>, d: int)
    requires
        0 <= d < tl.len(),
    ensures
        expected_keys(tl.take(d + 1)) == expected_keys(tl.take(d)) + Seq::new(
            tl[d].tracks.len(),
            |t: int| (d + 1, t + 1),
        ),
{
    assert(tl.take(d + 1).drop_last() =~= tl.take(d));
    assert(tl.take(d + 1).last() == tl[d]);
}

/// Whether the file mappings, in order, name each track of the tracklist once, in order.
pub fn mapping_matches(files: &Vec<File>, tracklist: &Vec<Disc>) -> (r: bool)
    ensures
        r == (file_keys(files@) == expected_keys(tracklist_view(tracklist@))),
{
    let ghost tl = tracklist_view(tracklist@);
    let ghost fk = file_keys(files@);
    let mut k: usize = 0;
    let mut d: usize = 0;
    while d < tracklist.len()
        invariant
            d <= tracklist@.len(),
            tl == tracklist_view(tracklist@),
            fk == file_keys(files@),
            k == expected_keys(tl.take(d as int)).len(),
            k <= files@.len(),
            fk.take(k as int) == expected_keys(tl.take(d as int)),
        decreases tracklist@.len() - d,
    {
        let n = tracklist[d].tracks.len();
        let ghost prefix = expected_keys(tl.take(d as int));
        let ghost new = Seq::new(tl[d as int].tracks.len(), |t: int| (d + 1, t + 1));
        proof {
            lemma_expected_keys_take(tl, d as int);
        }
        let mut t: usize = 0;
        while t < n
            invariant
                d < tracklist.len(),
                prefix == expected_keys(tl.take(d as int)),
                expected_keys(tl.take(d + 1)) == prefix + new,
                tl == tracklist_view(tracklist@),
                fk == file_keys(files@),
                n == tl[d as int].tracks.len(),
                new == Seq::new(tl[d as int].tracks.len(), |t: int| (d + 1, t + 1)),
                t <= n,
                k == prefix.len() + t,
                k <= files@.len(),
                fk.take(k as int) == prefix + new.take(t as int),
            decreases n - t,
        {
            if k >= files.len() {
                proof {
                    assert(fk.len() == files@.len());
                    assert((prefix + new).len() > fk.len());
                    lemma_len_le_of_prefix(tl, d as int + 1);
                }
                return false;
            }
            if files[k].disc_number != d + 1 || files[k].track_number != t + 1 {
                proof {
                    assert(fk[k as int] != (prefix + new)[k as int]);
                    lemma_expected_prefix_of(tl, d as int + 1);
                    let e = expected_keys(tl);
                    assert(e.take((prefix + new).len() as int)[k as int] == e[k as int]);
                    assert(fk[k as int] != e[k as int]);
                }
                return false;
            }
            proof {
                assert(fk.take(k + 1) =~= fk.take(k as int).push(fk[k as int]));
                assert(prefix + new.take(t + 1) =~= (prefix + new.take(t as int)).push(new[t as int]));
            }
            k += 1;
            t += 1;
        }
        proof {
            assert(new.take(t as int) =~= new);
        }
        d += 1;
    }
    proof {
        assert(tl.take(d as int) =~= tl);
    }
    if k == files.len() {
        proof {
            assert(fk.take(k as int) =~= fk);
        }
        true
    } else {
        proof {
            assert(fk.len() != fk.take(k as int).len());
        }
        false
    }
}

/// The enumeration of the first discs is a prefix of the whole enumeration.
proof fn lemma_expected_prefix_of(tl: Seq<DiscView>, d: int)
    requires
        0 <= d <= tl.len(),
    ensures
        expected_keys(tl.take(d)).len() <= expected_keys(tl).len(),
        expected_keys(tl) .take(expected_keys(tl.take(d)).len() as int) == expected_keys(tl.take(d)),
    decreases tl.len() - d,
{
    if d < tl.len() {
        lemma_expected_prefix_of(tl, d + 1);
        lemma_expected_keys_take(tl, d);
        let a = expected_keys(tl.take(d));
        let b = expected_keys(tl.take(d + 1));
        assert(b.take(a.len() as int) =~= a);
        assert(expected_keys(tl).take(a.len() as int) =~= b.take(a.len() as int));
    } else {
        assert(tl.take(d) =~= tl);
        assert(expected_keys(tl).take(expected_keys(tl).len() as int) =~= expected_keys(tl));
    }
}

proof fn lemma_len_le_of_prefix(tl: Seq<DiscView>, d: int)
    requires
        0 <= d <= tl.len(),
    ensures
        expected_keys(tl.take(d)).len() <= expected_keys(tl).len(),
{
    lemma_expected_prefix_of(tl, d);
}

// ---------------------------------------------------------------------------
// The module hierarchy
// ---------------------------------------------------------------------------

/// A module of the hierarchy, as it was read from its directory.
pub enum ModuleNode {
    /// The module manifest of `dir` could not be read or parsed, for `reason`.
    Unreadable { dir: String, reason: String },
    /// The module manifest of `dir`, and the modules of its child module
    /// directories, in the order the manifest lists them.
    Loaded { dir: String, module: Module, children: Vec<ModuleNode> },
}

/// Why a module could not be loaded.
pub enum LoadIssue {
    /// The module manifest could not be read or parsed.
    Unreadable { reason: String },
    /// The module declares the child module `child` more than once.
    DuplicateChild { child: String },
    /// No module of the lineage defines a tracklist.
    MissingTracklist,
    /// Two tracks are mapped to the same source audio file `file`.
    DuplicateFile {
        first_disc: usize,
        first_track: usize,
        second_disc: usize,
        second_track: usize,
        file: String,
    },
    /// The source audio file mapping doesn't match the tracklist.
    MappingMismatch,
}

/// An error while loading the module hierarchy.
pub enum LoadError {
    RootModule { dir: String, issue: LoadIssue },
    DescendantModule { dir: String, issue: LoadIssue },
}

/// A leaf module that passed every check: its directory, its inherited
/// metadata and tracklist, and its file mappings ordered by disc and track.
pub struct LoadedUnit {
    pub unit_dir: String,
    pub metadata: Metadata,
    pub tracklist: Vec<Disc>,
    pub files: Vec<File>,
}

/// A loaded unit as a value.
pub struct UnitView {
    pub dir: Seq<char>,
    pub metadata: Map<Seq<char>, Seq<char>>,
    pub tracklist: Seq<DiscView>,
    pub files: Seq<File>,
}

impl View for LoadedUnit {
    type V = UnitView;

    open spec fn view(&self) -> UnitView {
        UnitView {
            dir: self.unit_dir@,
            metadata: self.metadata@,
            tracklist: tracklist_view(self.tracklist@),
            files: self.files@,
        }
    }
}

/// What loading a part of the hierarchy yields: the units, the errors of the
/// modules that failed, in the order they were met, and how many modules were
/// met and how many were loaded.
pub struct LoadWalk {
    pub units: Seq<UnitView>,
    pub errors: Seq<LoadError>,
    pub total: nat,
    pub loaded: nat,
}

/// Loading one part of the hierarchy, then another.
pub open spec fn combine(a: LoadWalk, b: LoadWalk) -> LoadWalk {
    LoadWalk {
        units: a.units + b.units,
        errors: a.errors + b.errors,
        total: a.total + b.total,
        loaded: a.loaded + b.loaded,
    }
}

/// Loading nothing.
pub open spec fn nothing() -> LoadWalk {
    LoadWalk { units: Seq::empty(), errors: Seq::empty(), total: 0, loaded: 0 }
}

/// A module that was met and failed with `e`.
pub open spec fn failed(e: LoadError) -> LoadWalk {
    LoadWalk { units: Seq::empty(), errors: seq![e], total: 1, loaded: 0 }
}

/// The paths of a list of file mappings.
pub open spec fn file_paths(files: Seq<File>) -> Seq<String> {
    files.map_values(|f: File| f.file)
}

/// Loading a leaf module of `dir` with the inherited metadata `md` and tracklist `tl`.
pub open spec fn leaf_walk(
    dir: String,
    md: Map<Seq<char>, Seq<char>>,
    tl: Option<Seq<DiscView>>,
    files: Seq<File>,
) -> LoadWalk {
    match tl {
        None => failed(LoadError::DescendantModule { dir, issue: LoadIssue::MissingTracklist }),
        Some(t) => {
            let sorted = sort_files(files);
            let keys = path_keys(file_paths(sorted));
            if has_repeat(keys) {
                let p = first_repeat(keys);
                failed(
                    LoadError::DescendantModule {
                        dir,
                        issue: LoadIssue::DuplicateFile {
                            first_disc: sorted[p.0].disc_number,
                            first_track: sorted[p.0].track_number,
                            second_disc: sorted[p.1].disc_number,
                            second_track: sorted[p.1].track_number,
                            file: sorted[p.1].file,
                        },
                    },
                )
            } else if file_keys(sorted) != expected_keys(t) {
                failed(LoadError::DescendantModule { dir, issue: LoadIssue::MappingMismatch })
            } else {
                LoadWalk {
                    units: seq![UnitView { dir: dir@, metadata: md, tracklist: t, files: sorted }],
                    errors: Seq::empty(),
                    total: 1,
                    loaded: 1,
                }
            }
        },
    }
}

/// Loading a module, and its descendants, under the inherited metadata `md`
/// and tracklist `tl`.
pub open spec fn walk_node(
    node: ModuleNode,
    md: Map<Seq<char>, Seq<char>>,
    tl: Option<Seq<DiscView>>,
) -> LoadWalk
    decreases node,
{
    match node {
        ModuleNode::Unreadable { dir, reason } => failed(
            LoadError::DescendantModule { dir, issue: LoadIssue::Unreadable { reason } },
        ),
        ModuleNode::Loaded { dir, module, children } => {
            let md2 = md.union_prefer_right(module.metadata@);
            let tl2 = match module.discs {
                Some(d) => Some(tracklist_view(d@)),
                None => tl,
            };
            match module.children {
                Children::Modules { modules } => {
                    let keys = path_keys(modules@);
                    if has_repeat(keys) {
                        failed(
                            LoadError::DescendantModule {
                                dir,
                                issue: LoadIssue::DuplicateChild {
                                    child: modules@[first_repeat(keys).1],
                                },
                            },
                        )
                    } else {
                        let w = walk_nodes(children@, md2, tl2);
                        LoadWalk {
                            units: w.units,
                            errors: w.errors,
                            total: w.total + 1,
                            loaded: w.loaded + 1,
                        }
                    }
                },
                Children::Files { files } => leaf_walk(dir, md2, tl2, files@),
            }
        },
    }
}

/// Loading sibling modules in order.
pub open spec fn walk_nodes(
    nodes: Seq<ModuleNode>,
    md: Map<Seq<char>, Seq<char>>,
    tl: Option<Seq<DiscView>>,
) -> LoadWalk
    decreases nodes,
{
    if nodes.len() == 0 {
        nothing()
    } else {
        combine(walk_nodes(nodes.drop_last(), md, tl), walk_node(nodes.last(), md, tl))
    }
}

/// The number of modules of a part of the hierarchy.
pub open spec fn node_count(node: ModuleNode) -> nat
    decreases node,
{
    match node {
        ModuleNode::Unreadable { .. } => 1,
        ModuleNode::Loaded { children, .. } => 1 + nodes_count(children@),
    }
}

/// The number of modules of sibling parts of the hierarchy.
pub open spec fn nodes_count(nodes: Seq<ModuleNode>) -> nat
    decreases nodes,
{
    if nodes.len() == 0 {
        0
    } else {
        nodes_count(nodes.drop_last()) + node_count(nodes.last())
    }
}

/// Each module is met at most once, and is loaded only if it is met.
pub proof fn lemma_walk_counts(node: ModuleNode, md: Map<Seq<char>, Seq<char>>, tl: Option<Seq<DiscView>>)
    ensures
        walk_node(node, md, tl).total <= node_count(node),
        walk_node(node, md, tl).loaded <= walk_node(node, md, tl).total,
        walk_node(node, md, tl).units.len() <= walk_node(node, md, tl).loaded,
    decreases node,
{
    match node {
        ModuleNode::Unreadable { .. } => {},
        ModuleNode::Loaded { dir, module, children } => {
            let md2 = md.union_prefer_right(module.metadata@);
            let tl2 = match module.discs {
                Some(d) => Some(tracklist_view(d@)),
                None => tl,
            };
            lemma_walks_counts(children@, md2, tl2);
        },
    }
}

/// Sibling modules are each met at most once, and loaded only if met.
pub proof fn lemma_walks_counts(nodes: Seq<ModuleNode>, md: Map<Seq<char>, Seq<char>>, tl: Option<Seq<DiscView>>)
    ensures
        walk_nodes(nodes, md, tl).total <= nodes_count(nodes),
        walk_nodes(nodes, md, tl).loaded <= walk_nodes(nodes, md, tl).total,
        walk_nodes(nodes, md, tl).units.len() <= walk_nodes(nodes, md, tl).loaded,
    decreases nodes,
{
    if nodes.len() > 0 {
        lemma_walks_counts(nodes.drop_last(), md, tl);
        lemma_walk_counts(nodes.last(), md, tl);
    }
}

/// Child modules inherit the metadata of their ancestors: every unit that
/// loading a module yields under the inherited metadata `md` holds every key
/// of `md`.
pub proof fn lemma_walk_inherits(node: ModuleNode, md: Map<Seq<char>, Seq<char>>, tl: Option<Seq<DiscView>>)
    ensures
        forall|k: int|
            0 <= k < walk_node(node, md, tl).units.len() ==> md.dom().subset_of(
                #[trigger] walk_node(node, md, tl).units[k].metadata.dom(),
            ),
    decreases node,
{
    let w = walk_node(node, md, tl);
    match node {
        ModuleNode::Unreadable { dir, reason } => {
            assert(w.units.len() == 0);
        },
        ModuleNode::Loaded { dir, module, children } => {
            let md2 = md.union_prefer_right(module.metadata@);
            let tl2 = match module.discs {
                Some(d) => Some(tracklist_view(d@)),
                None => tl,
            };
            lemma_walks_inherit(children@, md2, tl2);
            assert(md.dom().subset_of(md2.dom()));
            assert forall|k: int| 0 <= k < w.units.len() implies md.dom().subset_of(
                #[trigger] w.units[k].metadata.dom(),
            ) by {
                match module.children {
                    Children::Modules { modules } => {
                        assert(w.units[k] == walk_nodes(children@, md2, tl2).units[k]);
                    },
                    Children::Files { files } => {
                        assert(w.units[k].metadata == md2);
                    },
                }
            }
        },
    }
}

/// A leaf module's own metadata overrides what it inherits: the unit loaded
/// from a leaf module under the inherited metadata `md` holds the keys of both,
/// each key of the module's own metadata with the module's value, and each
/// other key with the inherited value.
pub proof fn lemma_leaf_metadata(node: ModuleNode, md: Map<Seq<char>, Seq<char>>, tl: Option<Seq<DiscView>>)
    requires
        node is Loaded,
        node->Loaded_module.children is Files,
    ensures
        forall|k: int|
            0 <= k < walk_node(node, md, tl).units.len() ==> {
                let own = node->Loaded_module.metadata@;
                let u = #[trigger] walk_node(node, md, tl).units[k];
                &&& u.metadata.dom() == md.dom().union(own.dom())
                &&& forall|key: Seq<char>| #[trigger]
                    own.contains_key(key) ==> u.metadata[key] == own[key]
                &&& forall|key: Seq<char>|
                    md.contains_key(key) && !own.contains_key(key) ==> #[trigger] u.metadata[key]
                        == md[key]
            },
{
    match node {
        ModuleNode::Loaded { dir, module, children } => {
            let md2 = md.union_prefer_right(module.metadata@);
            let tl2 = match module.discs {
                Some(d) => Some(tracklist_view(d@)),
                None => tl,
            };
            match module.children {
                Children::Files { files } => {
                    let w = leaf_walk(dir, md2, tl2, files@);
                    assert(w == walk_node(node, md, tl));
                    assert forall|k: int| 0 <= k < w.units.len() implies w.units[k].metadata == md2 by {
                    }
                    assert(md2.dom() =~= md.dom().union(module.metadata@.dom()));
                },
                _ => {},
            }
        },
        _ => {},
    }
}

/// Sibling modules inherit the metadata of their ancestors: every unit that
/// loading them yields under the inherited metadata `md` holds every key of `md`.
pub proof fn lemma_walks_inherit(nodes: Seq<ModuleNode>, md: Map<Seq<char>, Seq<char>>, tl: Option<Seq<DiscView>>)
    ensures
        forall|k: int|
            0 <= k < walk_nodes(nodes, md, tl).units.len() ==> md.dom().subset_of(
                #[trigger] walk_nodes(nodes, md, tl).units[k].metadata.dom(),
            ),
    decreases nodes,
{
    if nodes.len() > 0 {
        lemma_walks_inherit(nodes.drop_last(), md, tl);
        lemma_walk_inherits(nodes.last(), md, tl);
        let a = walk_nodes(nodes.drop_last(), md, tl);
        let b = walk_node(nodes.last(), md, tl);
        assert forall|k: int| 0 <= k < (a.units + b.units).len() implies md.dom().subset_of(
            #[trigger] (a.units + b.units)[k].metadata.dom(),
        ) by {
            if k >= a.units.len() {
                assert((a.units + b.units)[k] == b.units[k - a.units.len()]);
            } else {
                assert((a.units + b.units)[k] == a.units[k]);
            }
        }
    }
}

proof fn lemma_nodes_count_take(nodes: Seq<ModuleNode>, i: int)
    requires
        0 <= i < nodes.len(),
    ensures
        nodes_count(nodes.take(i + 1)) == nodes_count(nodes.take(i)) + node_count(nodes[i]),
        nodes_count(nodes.take(i + 1)) <= nodes_count(nodes),
    decreases nodes.len() - i,
{
    assert(nodes.take(i + 1).drop_last() =~= nodes.take(i));
    if i + 1 < nodes.len() {
        lemma_nodes_count_take(nodes, i + 1);
    } else {
        assert(nodes.take(i + 1) =~= nodes);
    }
}

proof fn lemma_walk_nodes_take(nodes: Seq<ModuleNode>, i: int, md: Map<Seq<char>, Seq<char>>, tl: Option<Seq<DiscView>>)
    requires
        0 <= i < nodes.len(),
    ensures
        walk_nodes(nodes.take(i + 1), md, tl) == combine(walk_nodes(nodes.take(i), md, tl), walk_node(nodes[i], md, tl)),
{
    assert(nodes.take(i + 1).drop_last() =~= nodes.take(i));
}

proof fn lemma_combine_assoc(a: LoadWalk, b: LoadWalk, c: LoadWalk)
    ensures
        combine(combine(a, b), c) == combine(a, combine(b, c)),
{
    assert(combine(combine(a, b), c).units =~= combine(a, combine(b, c)).units);
    assert(combine(combine(a, b), c).errors =~= combine(a, combine(b, c)).errors);
}

proof fn lemma_combine_nothing(a: LoadWalk)
    ensures
        combine(a, nothing()) == a,
{
    assert(combine(a, nothing()).units =~= a.units);
    assert(combine(a, nothing()).errors =~= a.errors);
}

/// A unit's file mappings name each track of its tracklist exactly once, in order.
pub open spec fn files_match_tracklist(u: UnitView) -> bool {
    file_keys(u.files) == expected_keys(u.tracklist)
}

/// Every unit that loading yields maps its files onto its tracklist exactly, so
/// each file's disc and track numbers name a track of the tracklist.
pub proof fn lemma_walk_units_match(node: ModuleNode, md: Map<Seq<char>, Seq<char>>, tl: Option<Seq<DiscView>>)
    ensures
        forall|k: int|
            0 <= k < walk_node(node, md, tl).units.len() ==> files_match_tracklist(
                #[trigger] walk_node(node, md, tl).units[k],
            ),
    decreases node,
{
    match node {
        ModuleNode::Unreadable { .. } => {
            assert(walk_node(node, md, tl).units.len() == 0);
        },
        ModuleNode::Loaded { dir, module, children } => {
            let md2 = md.union_prefer_right(module.metadata@);
            let tl2 = match module.discs {
                Some(d) => Some(tracklist_view(d@)),
                None => tl,
            };
            lemma_walks_units_match(children@, md2, tl2);
            match module.children {
                Children::Modules { modules } => {
                    let w = walk_nodes(children@, md2, tl2);
                    if !has_repeat(path_keys(modules@)) {
                        assert(walk_node(node, md, tl).units == w.units);
                        assert forall|k: int| 0 <= k < w.units.len() implies files_match_tracklist(
                            #[trigger] walk_node(node, md, tl).units[k],
                        ) by {
                            assert(walk_node(node, md, tl).units[k] == w.units[k]);
                        }
                    }
                },
                Children::Files { files } => {
                    let w = leaf_walk(dir, md2, tl2, files@);
                    assert(walk_node(node, md, tl) == w);
                    assert forall|k: int| 0 <= k < w.units.len() implies files_match_tracklist(
                        #[trigger] w.units[k],
                    ) by {
                        assert(k == 0);
                    }
                },
            }
        },
    }
}

/// Every unit that loading sibling modules yields maps its files onto its tracklist exactly.
pub proof fn lemma_walks_units_match(nodes: Seq<ModuleNode>, md: Map<Seq<char>, Seq<char>>, tl: Option<Seq<DiscView>>)
    ensures
        forall|k: int|
            0 <= k < walk_nodes(nodes, md, tl).units.len() ==> files_match_tracklist(
                #[trigger] walk_nodes(nodes, md, tl).units[k],
            ),
    decreases nodes,
{
    if nodes.len() > 0 {
        lemma_walks_units_match(nodes.drop_last(), md, tl);
        lemma_walk_units_match(nodes.last(), md, tl);
        let a = walk_nodes(nodes.drop_last(), md, tl);
        let b = walk_node(nodes.last(), md, tl);
        assert forall|k: int| 0 <= k < walk_nodes(nodes, md, tl).units.len() implies files_match_tracklist(
            #[trigger] walk_nodes(nodes, md, tl).units[k],
        ) by {
            if k < a.units.len() {
                assert(walk_nodes(nodes, md, tl).units[k] == a.units[k]);
            } else {
                assert(walk_nodes(nodes, md, tl).units[k] == b.units[k - a.units.len()]);
            }
        }
    }
}

// ---------------------------------------------------------------------------
// Loading
// ---------------------------------------------------------------------------

/// What loading has yielded so far.
pub struct LoadProgress {
    pub units: Vec<LoadedUnit>,
    pub errors: Vec<LoadError>,
    pub total_modules: usize,
    pub loaded_modules: usize,
}

/// Loading progress as a value.
pub open spec fn progress_view(p: LoadProgress) -> LoadWalk {
    LoadWalk {
        units: p.units@.map_values(|u: LoadedUnit| u@),
        errors: p.errors@,
        total: p.total_modules as nat,
        loaded: p.loaded_modules as nat,
    }
}

/// An inherited tracklist as a value.
pub open spec fn opt_tracklist_view(tl: Option<&Vec<Disc>>) -> Option<Seq<DiscView>> {
    match tl {
        Some(d) => Some(tracklist_view(d@)),
        None => None,
    }
}

fn push_failure(progress: &mut LoadProgress, e: LoadError)
    requires
        old(progress).total_modules < usize::MAX,
    ensures
        progress_view(*final(progress)) == combine(progress_view(*old(progress)), failed(e)),
{
    let ghost before = progress_view(*progress);
    progress.errors.push(e);
    progress.total_modules += 1;
    proof {
        assert(progress.units@.map_values(|u: LoadedUnit| u@) =~= before.units + Seq::<UnitView>::empty());
        assert(progress.errors@ =~= before.errors + seq![e]);
    }
}

fn file_path_list(files: &Vec<File>) -> (r: Vec<String>)
    ensures
        r@ == file_paths(files@),
{
    let mut r: Vec<String> = Vec::new();
    let mut i: usize = 0;
    while i < files.len()
        invariant
            i <= files@.len(),
            r@ == file_paths(files@.take(i as int)),
        decreases files@.len() - i,
    {
        r.push(files[i].file.clone());
        i += 1;
        proof {
            assert(r@ =~= file_paths(files@.take(i as int)));
        }
    }
    proof {
        assert(files@.take(i as int) =~= files@);
    }
    r
}

fn load_leaf(
    dir: &String,
    md: Metadata,
    tl: Option<&Vec<Disc>>,
    files: &Vec<File>,
    progress: &mut LoadProgress,
)
    requires
        old(progress).total_modules < usize::MAX,
        old(progress).loaded_modules <= old(progress).total_modules,
    ensures
        progress_view(*final(progress)) == combine(
            progress_view(*old(progress)),
            leaf_walk(*dir, md@, opt_tracklist_view(tl), files@),
        ),
        final(progress).loaded_modules <= final(progress).total_modules,
{
    let ghost before = progress_view(*progress);
    let tracklist = match tl {
        None => {
            push_failure(
                progress,
                LoadError::DescendantModule { dir: dir.clone(), issue: LoadIssue::MissingTracklist },
            );
            return ;
        },
        Some(t) => t,
    };
    let sorted = sorted_files(files);
    let paths = file_path_list(&sorted);
    match find_repeated_path(&paths) {
        Some((i, j)) => {
            proof {
                lemma_repeat_unique(path_keys(file_paths(sorted@)), i as int, j as int);
            }
            let issue = LoadIssue::DuplicateFile {
                first_disc: sorted[i].disc_number,
                first_track: sorted[i].track_number,
                second_disc: sorted[j].disc_number,
                second_track: sorted[j].track_number,
                file: sorted[j].file.clone(),
            };
            push_failure(progress, LoadError::DescendantModule { dir: dir.clone(), issue });
            return ;
        },
        None => {},
    }
    if !mapping_matches(&sorted, tracklist) {
        push_failure(
            progress,
            LoadError::DescendantModule { dir: dir.clone(), issue: LoadIssue::MappingMismatch },
        );
        return ;
    }
    let unit = LoadedUnit {
        unit_dir: dir.clone(),
        metadata: md,
        tracklist: duplicate_tracklist(tracklist),
        files: sorted,
    };
    let ghost u = unit@;
    progress.units.push(unit);
    progress.total_modules += 1;
    progress.loaded_modules += 1;
    proof {
        assert(progress.units@.map_values(|u: LoadedUnit| u@) =~= before.units + seq![u]);
        assert(progress.errors@ =~= before.errors + Seq::<LoadError>::empty());
    }
}

fn load_node(node: &ModuleNode, md: &Metadata, tl: Option<&Vec<Disc>>, progress: &mut LoadProgress)
    requires
        old(progress).total_modules + node_count(*node) <= usize::MAX,
        old(progress).loaded_modules <= old(progress).total_modules,
    ensures
        progress_view(*final(progress)) == combine(
            progress_view(*old(progress)),
            walk_node(*node, md@, opt_tracklist_view(tl)),
        ),
        final(progress).loaded_modules <= final(progress).total_modules,
    decreases node,
{
    match node {
        ModuleNode::Unreadable { dir, reason } => {
            push_failure(
                progress,
                LoadError::DescendantModule {
                    dir: dir.clone(),
                    issue: LoadIssue::Unreadable { reason: reason.clone() },
                },
            );
        },
        ModuleNode::Loaded { dir, module, children } => {
            let md2 = Metadata::inherit(md, &module.metadata);
            let tl2: Option<&Vec<Disc>> = match &module.discs {
                Some(d) => Some(d),
                None => tl,
            };
            match &module.children {
                Children::Modules { modules } => {
                    match find_repeated_path(modules) {
                        Some((i, j)) => {
                            proof {
                                lemma_repeat_unique(path_keys(modules@), i as int, j as int);
                            }
                            push_failure(
                                progress,
                                LoadError::DescendantModule {
                                    dir: dir.clone(),
                                    issue: LoadIssue::DuplicateChild { child: modules[j].clone() },
                                },
                            );
                        },
                        None => {
                            let ghost before = progress_view(*progress);
                            let ghost start = LoadWalk {
                                units: before.units,
                                errors: before.errors,
                                total: before.total + 1,
                                loaded: before.loaded + 1,
                            };
                            progress.total_modules += 1;
                            progress.loaded_modules += 1;
                            let mut i: usize = 0;
                            proof {
                                assert(children@.take(0) =~= Seq::<ModuleNode>::empty());
                                lemma_combine_nothing(start);
                            }
                            while i < children.len()
                                invariant
                                    i <= children@.len(),
                                    *node == (ModuleNode::Loaded {
                                        dir: *dir,
                                        module: *module,
                                        children: *children,
                                    }),
                                    progress_view(*progress) == combine(
                                        start,
                                        walk_nodes(children@.take(i as int), md2@, opt_tracklist_view(tl2)),
                                    ),
                                    progress.total_modules <= before.total + 1 + nodes_count(children@.take(i as int)),
                                    before.total + 1 + nodes_count(children@) <= usize::MAX,
                                    progress.loaded_modules <= progress.total_modules,
                                decreases children@.len() - i,
                            {
                                proof {
                                    assert(decreases_to!(*node => node->children));
                                    assert(decreases_to!(node->children => node->children@));
                                    assert(decreases_to!(node->children@ => node->children@[i as int]));
                                    lemma_nodes_count_take(children@, i as int);
                                }
                                let ghost mid = progress_view(*progress);
                                load_node(&children[i], &md2, tl2, progress);
                                proof {
                                    lemma_walk_nodes_take(children@, i as int, md2@, opt_tracklist_view(tl2));
                                    lemma_combine_assoc(
                                        start,
                                        walk_nodes(children@.take(i as int), md2@, opt_tracklist_view(tl2)),
                                        walk_node(children@[i as int], md2@, opt_tracklist_view(tl2)),
                                    );
                                    lemma_walk_counts(children@[i as int], md2@, opt_tracklist_view(tl2));
                                }
                                i += 1;
                            }
                            proof {
                                assert(children@.take(i as int) =~= children@);
                            }
                        },
                    }
                },
                Children::Files { files } => {
                    load_leaf(dir, md2, tl2, files, progress);
                },
            }
        },
    }
}

/// The directory of a module.
pub open spec fn node_dir(node: ModuleNode) -> Seq<char> {
    match node {
        ModuleNode::Unreadable { dir, .. } => dir@,
        ModuleNode::Loaded { dir, .. } => dir@,
    }
}

/// `nodes` were read from the child module directories `modules` of `dir`,
/// one for each, in order.
pub open spec fn nodes_of(dir: Seq<char>, modules: Seq<String>, nodes: Seq<ModuleNode>) -> bool
    decreases nodes, 0nat,
{
    if nodes.len() == 0 {
        modules.len() == 0
    } else {
        &&& modules.len() == nodes.len()
        &&& nodes_of(dir, modules.drop_last(), nodes.drop_last())
        &&& node_of(dir, modules.last(), nodes.last())
    }
}

/// `node` was read from the directory `module` of `parent`: its directory is
/// their join, a module with child modules holds what was read from each of
/// them, and a leaf module holds no child.
pub open spec fn node_of(parent: Seq<char>, module: String, node: ModuleNode) -> bool
    decreases node, 1nat,
{
    &&& node_dir(node) == spec_path_join(parent, module@)
    &&& match node {
        ModuleNode::Unreadable { .. } => true,
        ModuleNode::Loaded { dir, module: m, children } => match m.children {
            Children::Modules { modules } => nodes_of(dir@, modules@, children@),
            Children::Files { .. } => children@.len() == 0,
        },
    }
}

proof fn lemma_nodes_of_take(dir: Seq<char>, modules: Seq<String>, nodes: Seq<ModuleNode>, i: int)
    requires
        0 <= i < nodes.len(),
        modules.len() == nodes.len(),
    ensures
        nodes_of(dir, modules.take(i + 1), nodes.take(i + 1)) == (nodes_of(
            dir,
            modules.take(i),
            nodes.take(i),
        ) && node_of(dir, modules[i], nodes[i])),
{
    assert(modules.take(i + 1).drop_last() =~= modules.take(i));
    assert(nodes.take(i + 1).drop_last() =~= nodes.take(i));
}

/// Whether `node` was read from the directory `module` of `parent`.
fn node_matches(parent: &str, module: &String, node: &ModuleNode) -> (r: bool)
    ensures
        r == node_of(parent@, *module, *node),
    decreases node,
{
    let expected = path_join(parent, module.as_str());
    match node {
        ModuleNode::Unreadable { dir, .. } => str_eq(dir.as_str(), expected.as_str()),
        ModuleNode::Loaded { dir, module: m, children } => {
            if !str_eq(dir.as_str(), expected.as_str()) {
                return false;
            }
            match &m.children {
                Children::Files { .. } => children.len() == 0,
                Children::Modules { modules } => {
                    if modules.len() != children.len() {
                        proof {
                            if children@.len() > 0 {
                                assert(!nodes_of(dir@, modules@, children@));
                            }
                        }
                        return false;
                    }
                    let mut i: usize = 0;
                    proof {
                        assert(modules@.take(0) =~= Seq::<String>::empty());
                        assert(children@.take(0) =~= Seq::<ModuleNode>::empty());
                    }
                    while i < children.len()
                        invariant
                            i <= children@.len(),
                            modules@.len() == children@.len(),
                            *node == (ModuleNode::Loaded {
                                dir: *dir,
                                module: *m,
                                children: *children,
                            }),
                            nodes_of(dir@, modules@.take(i as int), children@.take(i as int)),
                            m.children == (Children::Modules { modules: *modules }),
                            node_dir(*node) == spec_path_join(parent@, module@),
                        decreases children@.len() - i,
                    {
                        proof {
                            assert(decreases_to!(*node => node->children));
                            assert(decreases_to!(node->children => node->children@));
                            assert(decreases_to!(node->children@ => node->children@[i as int]));
                            lemma_nodes_of_take(dir@, modules@, children@, i as int);
                        }
                        if !node_matches(dir.as_str(), &modules[i], &children[i]) {
                            proof {
                                let k = i as int;
                                assert(!nodes_of(dir@, modules@.take(k + 1), children@.take(k + 1)));
                                if nodes_of(dir@, modules@, children@) {
                                    lemma_nodes_of_prefix(dir@, modules@, children@, k + 1);
                                }
                            }
                            return false;
                        }
                        i += 1;
                    }
                    proof {
                        assert(modules@.take(i as int) =~= modules@);
                        assert(children@.take(i as int) =~= children@);
                    }
                    true
                },
            }
        },
    }
}

/// A list read from child directories holds, for each prefix of them, a list
/// read from that prefix.
proof fn lemma_nodes_of_prefix(dir: Seq<char>, modules: Seq<String>, nodes: Seq<ModuleNode>, k: int)
    requires
        0 <= k <= nodes.len(),
        modules.len() == nodes.len(),
        nodes_of(dir, modules, nodes),
    ensures
        nodes_of(dir, modules.take(k), nodes.take(k)),
    decreases nodes.len() - k,
{
    if k == nodes.len() {
        assert(modules.take(k) =~= modules);
        assert(nodes.take(k) =~= nodes);
    } else {
        lemma_nodes_of_prefix(dir, modules, nodes, k + 1);
        lemma_nodes_of_take(dir, modules, nodes, k);
    }
}

/// Whether `nodes` were read from the child module directories `modules` of
/// `dir`, one for each, in order.
pub fn tree_matches(dir: &str, modules: &Vec<String>, nodes: &Vec<ModuleNode>) -> (r: bool)
    ensures
        r == nodes_of(dir@, modules@, nodes@),
{
    if modules.len() != nodes.len() {
        proof {
            if nodes@.len() > 0 {
                assert(!nodes_of(dir@, modules@, nodes@));
            }
        }
        return false;
    }
    let mut i: usize = 0;
    proof {
        assert(modules@.take(0) =~= Seq::<String>::empty());
        assert(nodes@.take(0) =~= Seq::<ModuleNode>::empty());
    }
    while i < nodes.len()
        invariant
            i <= nodes@.len(),
            modules@.len() == nodes@.len(),
            nodes_of(dir@, modules@.take(i as int), nodes@.take(i as int)),
        decreases nodes@.len() - i,
    {
        proof {
            lemma_nodes_of_take(dir@, modules@, nodes@, i as int);
        }
        if !node_matches(dir, &modules[i], &nodes[i]) {
            proof {
                let k = i as int;
                assert(!nodes_of(dir@, modules@.take(k + 1), nodes@.take(k + 1)));
                if nodes_of(dir@, modules@, nodes@) {
                    lemma_nodes_of_prefix(dir@, modules@, nodes@, k + 1);
                }
            }
            return false;
        }
        i += 1;
    }
    proof {
        assert(modules@.take(i as int) =~= modules@);
        assert(nodes@.take(i as int) =~= nodes@);
    }
    true
}

/// Loads the units of a source directory from the root module and the
/// modules of its child directories.
///
/// The root module must not declare a child module twice; then each child
/// module is loaded in order, under the root's metadata and no tracklist.
/// A module that fails is reported in `errors` and its descendants are not
/// loaded; the other modules are unaffected. The root counts as one module
/// met and loaded.
pub fn load_units(source_dir: &str, root_module: &RootModule, children: &Vec<ModuleNode>) -> (r: Result<
    LoadProgress,
    LoadError,
>)
    requires
        nodes_count(children@) < usize::MAX,
        nodes_of(source_dir@, root_module.children.modules@, children@),
    ensures
        match r {
            Ok(p) => {
                &&& !has_repeat(path_keys(root_module.children.modules@))
                &&& progress_view(p) == combine(
                    LoadWalk { units: Seq::empty(), errors: Seq::empty(), total: 1, loaded: 1 },
                    walk_nodes(children@, root_module.metadata@, None),
                )
            },
            Err(e) => {
                &&& has_repeat(path_keys(root_module.children.modules@))
                &&& e matches LoadError::RootModule { dir, issue: LoadIssue::DuplicateChild { child } }
                &&& dir@ == source_dir@
                &&& child == root_module.children.modules@[first_repeat(
                    path_keys(root_module.children.modules@),
                ).1]
            },
        },
{
    let modules = &root_module.children.modules;
    match find_repeated_path(modules) {
        Some((i, j)) => {
            proof {
                lemma_repeat_unique(path_keys(modules@), i as int, j as int);
            }
            return Err(
                LoadError::RootModule {
                    dir: String::from_str(source_dir),
                    issue: LoadIssue::DuplicateChild { child: modules[j].clone() },
                },
            );
        },
        None => {},
    }
    let mut progress = LoadProgress {
        units: Vec::new(),
        errors: Vec::new(),
        total_modules: 1,
        loaded_modules: 1,
    };
    let ghost start = progress_view(progress);
    proof {
        assert(start.units =~= Seq::<UnitView>::empty());
        assert(children@.take(0) =~= Seq::<ModuleNode>::empty());
        lemma_combine_nothing(start);
    }
    let mut i: usize = 0;
    while i < children.len()
        invariant
            i <= children@.len(),
            progress_view(progress) == combine(
                start,
                walk_nodes(children@.take(i as int), root_module.metadata@, None),
            ),
            progress.total_modules <= 1 + nodes_count(children@.take(i as int)),
            1 + nodes_count(children@) <= usize::MAX,
            progress.loaded_modules <= progress.total_modules,
        decreases children@.len() - i,
    {
        proof {
            lemma_nodes_count_take(children@, i as int);
        }
        load_node(&children[i], &root_module.metadata, None, &mut progress);
        proof {
            lemma_walk_nodes_take(children@, i as int, root_module.metadata@, None);
            lemma_combine_assoc(
                start,
                walk_nodes(children@.take(i as int), root_module.metadata@, None),
                walk_node(children@[i as int], root_module.metadata@, None),
            );
            lemma_walk_counts(children@[i as int], root_module.metadata@, None);
        }
        i += 1;
    }
    proof {
        assert(children@.take(i as int) =~= children@);
    }
    Ok(progress)
}

/// Loads the units of a source directory, as [`load_units`] does, where
/// `children` were read from the child module directories of the root
/// module; `None` where they were not.
pub fn load_units_from_tree(
    source_dir: &str,
    root_module: &RootModule,
    children: &Vec<ModuleNode>,
) -> (r: Option<Result<LoadProgress, LoadError>>)
    requires
        nodes_count(children@) < usize::MAX,
    ensures
        match r {
            None => !nodes_of(source_dir@, root_module.children.modules@, children@),
            Some(Ok(p)) => {
                &&& nodes_of(source_dir@, root_module.children.modules@, children@)
                &&& !has_repeat(path_keys(root_module.children.modules@))
                &&& progress_view(p) == combine(
                    LoadWalk { units: Seq::empty(), errors: Seq::empty(), total: 1, loaded: 1 },
                    walk_nodes(children@, root_module.metadata@, None),
                )
            },
            Some(Err(e)) => {
                &&& nodes_of(source_dir@, root_module.children.modules@, children@)
                &&& has_repeat(path_keys(root_module.children.modules@))
                &&& e matches LoadError::RootModule { dir, issue: LoadIssue::DuplicateChild { child } }
                &&& dir@ == source_dir@
                &&& child == root_module.children.modules@[first_repeat(
                    path_keys(root_module.children.modules@),
                ).1]
            },
        },
{
    if tree_matches(source_dir, &root_module.children.modules, children) {
        Some(load_units(source_dir, root_module, children))
    } else {
        None
    }
}

} // verus!

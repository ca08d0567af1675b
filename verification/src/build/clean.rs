//! Cleaning the output directory of items that no unit of the build owns.
//!
//! The output files of the current build are loaded into a prefix tree of path
//! components. Walking the output directory, an item is kept when its path is a
//! prefix of an output file, and deleted otherwise; the build directory
//! `.albumctl` at the top of the output directory is never touched. Listing
//! directories and deleting items is done outside the library.

use vstd::prelude::*;
use crate::build::index::BuildIndex;
use crate::paths::{path_components, same_path, spec_path_components};
use crate::text::{str_eq, strings_view};
use vstd::string::*;

verus! {

/// A node of the prefix tree: its children, each under a component name.
pub struct FsTreeNode {
    children: Vec<(String, FsTreeNode)>,
}

/// The position of the first child named `name`.
pub open spec fn first_child(children: Seq<(String, FsTreeNode)>, name: Seq<char>) -> Option<int>
    decreases children.len(),
{
    if children.len() == 0 {
        None
    } else {
        match first_child(children.drop_last(), name) {
            Some(i) => Some(i),
            None => if children.last().0@ == name {
                Some(children.len() - 1)
            } else {
                None
            },
        }
    }
}

/// `p` is a prefix of `q`.
pub open spec fn is_prefix<A>(p: Seq<A>, q: Seq<A>) -> bool {
    p.len() <= q.len() && q.take(p.len() as int) == p
}

impl FsTreeNode {
    /// The children of the node.
    pub closed spec fn child_list(self) -> Seq<(String, FsTreeNode)> {
        self.children@
    }

    /// Whether the path of components `p`, from this node, is in the tree.
    pub open spec fn contains(self, p: Seq<Seq<char>>) -> bool
        decreases p.len(),
    {
        if p.len() == 0 {
            true
        } else {
            match first_child(self.child_list(), p[0]) {
                Some(i) => self.child_list()[i].1.contains(p.drop_first()),
                None => false,
            }
        }
    }

    /// A node with no children.
    pub fn new() -> (n: FsTreeNode)
        ensures
            n.child_list().len() == 0,
            forall|p: Seq<Seq<char>>| #[trigger] n.contains(p) <==> p.len() == 0,
    {
        let n = FsTreeNode { children: Vec::new() };
        assert forall|p: Seq<Seq<char>>| #[trigger] n.contains(p) <==> p.len() == 0 by {
            if p.len() > 0 {
                assert(first_child(n.child_list(), p[0]) is None);
            }
        }
        n
    }

    /// The child named `name`, if the node has one.
    pub fn child(&self, name: &str) -> (r: Option<&FsTreeNode>)
        ensures
            match r {
                Some(c) => first_child(self.child_list(), name@) matches Some(i) && *c == self.child_list()[i].1,
                None => first_child(self.child_list(), name@) is None,
            },
    {
        match find_child(&self.children, name) {
            Some(i) => Some(&self.children[i].1),
            None => None,
        }
    }

    /// Inserts the components `comps[from..]` below this node.
    pub fn insert(&mut self, comps: &Vec<String>, from: usize)
        requires
            from <= comps@.len(),
        ensures
            forall|q: Seq<Seq<char>>|
                #[trigger] final(self).contains(q) <==> old(self).contains(q) || is_prefix(
                    q,
                    strings_view(comps@).skip(from as int),
                ),
        decreases comps@.len() - from,
    {
        let ghost rest = strings_view(comps@).skip(from as int);
        if from == comps.len() {
            assert forall|q: Seq<Seq<char>>|
                #[trigger] self.contains(q) <==> old(self).contains(q) || is_prefix(q, rest) by {
                if is_prefix(q, rest) {
                    assert(q.len() == 0);
                }
            }
            return ;
        }
        let ghost old_children = self.children@;
        let ghost name = comps@[from as int]@;
        let ghost tail = strings_view(comps@).skip(from + 1);
        proof {
            assert(rest[0] == name);
            assert(rest.drop_first() =~= tail);
        }
        match find_child(&self.children, comps[from].as_str()) {
            Some(i) => {
                let (nm, mut child) = self.children.remove(i);
                let ghost old_child = child;
                child.insert(comps, from + 1);
                self.children.insert(i, (nm, child));
                proof {
                    assert(self.children@ =~= old_children.update(i as int, (nm, child)));
                    lemma_first_child_update(old_children, i as int, (nm, child));
                    assert(old_child == old_children[i as int].1);
                    assert forall|q: Seq<Seq<char>>|
                        #[trigger] self.contains(q) <==> old(self).contains(q) || is_prefix(q, rest) by {
                        if q.len() > 0 {
                            lemma_first_child_some(old_children, q[0]);
                            if q[0] == name {
                                assert(first_child(self.children@, q[0]) == Some(i as int));
                                assert(is_prefix(q, rest) <==> is_prefix(q.drop_first(), tail)) by {
                                    if is_prefix(q, rest) {
                                        assert(tail.take(q.len() - 1) =~= q.drop_first());
                                    }
                                    if is_prefix(q.drop_first(), tail) {
                                        assert forall|j: int| 0 <= j < q.len() implies rest.take(
                                            q.len() as int,
                                        )[j] == q[j] by {
                                            if j > 0 {
                                                assert(rest[j] == tail[j - 1]);
                                                assert(tail.take(q.len() - 1)[j - 1] == q.drop_first()[j - 1]);
                                            }
                                        }
                                        assert(rest.take(q.len() as int) =~= q);
                                    }
                                }
                                assert(child.contains(q.drop_first()) <==> old_child.contains(q.drop_first())
                                    || is_prefix(q.drop_first(), tail));
                            } else {
                                match first_child(old_children, q[0]) {
                                    Some(j) => {
                                        assert(j != i);
                                        assert(self.children@[j] == old_children[j]);
                                    },
                                    None => {},
                                }
                                assert(!is_prefix(q, rest)) by {
                                    if is_prefix(q, rest) {
                                        assert(rest.take(q.len() as int)[0] == q[0]);
                                    }
                                }
                            }
                        } else {
                            assert(is_prefix(q, rest)) by {
                                assert(rest.take(0) =~= q);
                            }
                        }
                    }
                }
            },
            None => {
                let mut child = FsTreeNode::new();
                let ghost empty_child = child;
                child.insert(comps, from + 1);
                let nm = comps[from].clone();
                self.children.push((nm, child));
                proof {
                    lemma_first_child_push(old_children, (nm, child));
                    assert forall|q: Seq<Seq<char>>|
                        #[trigger] self.contains(q) <==> old(self).contains(q) || is_prefix(q, rest) by {
                        if q.len() > 0 {
                            lemma_first_child_some(old_children, q[0]);
                            if q[0] == name {
                                assert(first_child(self.children@, q[0]) == Some(old_children.len() as int));
                                assert(self.children@[old_children.len() as int] == (nm, child));
                                assert(!old(self).contains(q));
                                assert(self.contains(q) == child.contains(q.drop_first()));
                                assert(child.contains(q.drop_first()) <==> empty_child.contains(q.drop_first())
                                    || is_prefix(q.drop_first(), tail));
                                assert(is_prefix(q, rest) <==> is_prefix(q.drop_first(), tail)) by {
                                    if is_prefix(q, rest) {
                                        assert(tail.take(q.len() - 1) =~= q.drop_first());
                                    }
                                    if is_prefix(q.drop_first(), tail) {
                                        assert forall|j: int| 0 <= j < q.len() implies rest.take(
                                            q.len() as int,
                                        )[j] == q[j] by {
                                            if j > 0 {
                                                assert(rest[j] == tail[j - 1]);
                                                assert(tail.take(q.len() - 1)[j - 1] == q.drop_first()[j - 1]);
                                            }
                                        }
                                        assert(rest.take(q.len() as int) =~= q);
                                    }
                                }
                                assert(empty_child.contains(q.drop_first()) <==> q.drop_first().len() == 0);
                                if q.drop_first().len() == 0 {
                                    assert(tail.take(0) =~= q.drop_first());
                                }
                            } else {
                                match first_child(old_children, q[0]) {
                                    Some(j) => {
                                        assert(self.children@[j] == old_children[j]);
                                    },
                                    None => {},
                                }
                                assert(self.contains(q) == old(self).contains(q));
                                assert(!is_prefix(q, rest)) by {
                                    if is_prefix(q, rest) {
                                        assert(rest.take(q.len() as int)[0] == q[0]);
                                    }
                                }
                            }
                        } else {
                            assert(is_prefix(q, rest)) by {
                                assert(rest.take(0) =~= q);
                            }
                        }
                    }
                }
            },
        }
    }

    /// The node that the components `comps[from..]` lead to, if they are in the tree.
    pub fn traverse(&self, comps: &Vec<String>, from: usize) -> (r: Option<&FsTreeNode>)
        requires
            from <= comps@.len(),
        ensures
            match r {
                Some(n) => {
                    &&& self.contains(strings_view(comps@).skip(from as int))
                    &&& forall|s: Seq<Seq<char>>|
                        #[trigger] n.contains(s) == self.contains(
                            strings_view(comps@).skip(from as int) + s,
                        )
                },
                None => !self.contains(strings_view(comps@).skip(from as int)),
            },
        decreases comps@.len() - from,
    {
        let ghost rest = strings_view(comps@).skip(from as int);
        if from == comps.len() {
            assert forall|s: Seq<Seq<char>>| #[trigger] self.contains(s) == self.contains(rest + s) by {
                assert(rest + s =~= s);
            }
            return Some(self);
        }
        let ghost tail = strings_view(comps@).skip(from + 1);
        proof {
            assert(rest.drop_first() =~= tail);
        }
        match self.child(comps[from].as_str()) {
            Some(c) => {
                let r = c.traverse(comps, from + 1);
                proof {
                    assert forall|s: Seq<Seq<char>>| #[trigger] c.contains(tail + s) == self.contains(
                        rest + s,
                    ) by {
                        assert((rest + s)[0] == rest[0]);
                        assert((rest + s).drop_first() =~= tail + s);
                    }
                }
                r
            },
            None => None,
        }
    }
}

proof fn lemma_first_child_some(children: Seq<(String, FsTreeNode)>, name: Seq<char>)
    ensures
        first_child(children, name) matches Some(j) ==> 0 <= j < children.len() && children[j].0@ == name,
    decreases children.len(),
{
    if children.len() > 0 {
        lemma_first_child_some(children.drop_last(), name);
    }
}

proof fn lemma_first_child_update(children: Seq<(String, FsTreeNode)>, i: int, e: (String, FsTreeNode))
    requires
        0 <= i < children.len(),
        e.0@ == children[i].0@,
        first_child(children, e.0@) == Some(i),
    ensures
        forall|name: Seq<char>|
            #[trigger] first_child(children.update(i, e), name) == first_child(children, name),
    decreases children.len(),
{
    assert forall|name: Seq<char>| #[trigger]
        first_child(children.update(i, e), name) == first_child(children, name) by {
        lemma_first_child_update_one(children, i, e, name);
    }
}

proof fn lemma_first_child_update_one(
    children: Seq<(String, FsTreeNode)>,
    i: int,
    e: (String, FsTreeNode),
    name: Seq<char>,
)
    requires
        0 <= i < children.len(),
        e.0@ == children[i].0@,
    ensures
        first_child(children.update(i, e), name) == first_child(children, name),
    decreases children.len(),
{
    let u = children.update(i, e);
    if i == children.len() - 1 {
        assert(u.drop_last() =~= children.drop_last());
    } else {
        assert(u.drop_last() =~= children.drop_last().update(i, e));
        lemma_first_child_update_one(children.drop_last(), i, e, name);
    }
}

proof fn lemma_first_child_push(children: Seq<(String, FsTreeNode)>, e: (String, FsTreeNode))
    requires
        first_child(children, e.0@) is None,
    ensures
        forall|name: Seq<char>|
            #[trigger] first_child(children.push(e), name) == if name == e.0@ {
                Some(children.len() as int)
            } else {
                first_child(children, name)
            },
{
    assert forall|name: Seq<char>| #[trigger]
        first_child(children.push(e), name) == if name == e.0@ {
            Some(children.len() as int)
        } else {
            first_child(children, name)
        } by {
        assert(children.push(e).drop_last() =~= children);
    }
}

proof fn lemma_first_child_found(children: Seq<(String, FsTreeNode)>, name: Seq<char>, i: int)
    requires
        0 <= i < children.len(),
        children[i].0@ == name,
        forall|j: int| 0 <= j < i ==> children[j].0@ != name,
    ensures
        first_child(children, name) == Some(i),
    decreases children.len(),
{
    if i < children.len() - 1 {
        lemma_first_child_found(children.drop_last(), name, i);
    } else {
        lemma_first_child_absent(children.drop_last(), name);
    }
}

proof fn lemma_first_child_absent(children: Seq<(String, FsTreeNode)>, name: Seq<char>)
    requires
        forall|j: int| 0 <= j < children.len() ==> children[j].0@ != name,
    ensures
        first_child(children, name) is None,
    decreases children.len(),
{
    if children.len() > 0 {
        lemma_first_child_absent(children.drop_last(), name);
    }
}

fn find_child(children: &Vec<(String, FsTreeNode)>, name: &str) -> (r: Option<usize>)
    ensures
        match r {
            Some(i) => first_child(children@, name@) == Some(i as int) && i < children@.len()
                && children@[i as int].0@ == name@,
            None => first_child(children@, name@) is None,
        },
{
    let mut i: usize = 0;
    while i < children.len()
        invariant
            i <= children@.len(),
            forall|j: int| 0 <= j < i ==> children@[j].0@ != name@,
        decreases children@.len() - i,
    {
        if str_eq(children[i].0.as_str(), name) {
            proof {
                lemma_first_child_found(children@, name@, i as int);
            }
            return Some(i);
        }
        i += 1;
    }
    proof {
        lemma_first_child_absent(children@, name@);
    }
    None
}

/// A prefix tree of the paths of the output files, by components.
pub struct FsTree {
    root: FsTreeNode,
}

impl FsTree {
    /// The root of the tree.
    pub closed spec fn root_node(self) -> FsTreeNode {
        self.root
    }

    /// Whether the path of components `p` is in the tree.
    pub open spec fn contains(self, p: Seq<Seq<char>>) -> bool {
        self.root_node().contains(p)
    }

    /// An empty tree.
    pub fn new() -> (t: FsTree)
        ensures
            forall|p: Seq<Seq<char>>| #[trigger] t.contains(p) <==> p.len() == 0,
    {
        FsTree { root: FsTreeNode::new() }
    }

    /// Inserts the components of `path`, and so every prefix of them.
    pub fn insert(&mut self, path: &str)
        ensures
            forall|q: Seq<Seq<char>>|
                #[trigger] final(self).contains(q) <==> old(self).contains(q) || is_prefix(
                    q,
                    spec_path_components(path@),
                ),
    {
        let comps = path_components(path);
        proof {
            assert(strings_view(comps@).skip(0) =~= strings_view(comps@));
        }
        self.root.insert(&comps, 0);
    }

    /// The node that the components of `path` lead to, if they are in the tree.
    pub fn traverse(&self, path: &str) -> (r: Option<&FsTreeNode>)
        ensures
            match r {
                Some(n) => {
                    &&& self.contains(spec_path_components(path@))
                    &&& forall|s: Seq<Seq<char>>|
                        #[trigger] n.contains(s) == self.contains(spec_path_components(path@) + s)
                },
                None => !self.contains(spec_path_components(path@)),
            },
    {
        let comps = path_components(path);
        proof {
            assert(strings_view(comps@).skip(0) =~= strings_view(comps@));
        }
        self.root.traverse(&comps, 0)
    }
}

/// An error while cleaning the output directory.
pub enum CleanError {
    /// The output directory of `dir` is not on the way of any output file.
    Prepare { dir: String },
    /// The directory `dir` could not be listed.
    Dir { dir: String },
    /// An item of the directory `dir` could not be read or deleted.
    Item { dir: String },
}

/// Some output file that the index lists has the components `q` as a prefix.
pub open spec fn indexed_prefix(pairs: Seq<(String, Vec<String>)>, q: Seq<Seq<char>>) -> bool {
    exists|i: int, k: int|
        0 <= i < pairs.len() && 0 <= k < pairs[i].1@.len() && is_prefix(q, #[trigger] spec_path_components(pairs[i].1@[k]@))
}

/// Loads the output files of the current index into a prefix tree. The output
/// directory must lie on the way of some output file (or be empty of components).
pub fn prepare_clean(current_index: &BuildIndex, output_dir: &str) -> (r: Result<FsTree, CleanError>)
    ensures
        match r {
            Ok(t) => {
                &&& forall|q: Seq<Seq<char>>|
                    #[trigger] t.contains(q) <==> q.len() == 0 || indexed_prefix(
                        current_index.pairs(),
                        q,
                    )
                &&& t.contains(spec_path_components(output_dir@))
            },
            Err(e) => {
                &&& spec_path_components(output_dir@).len() > 0
                &&& !indexed_prefix(current_index.pairs(), spec_path_components(output_dir@))
                &&& e matches CleanError::Prepare { dir }
                &&& dir@ == output_dir@
            },
        },
{
    let ghost pairs = current_index.pairs();
    let mut tree = FsTree::new();
    let mut i: usize = 0;
    while i < current_index.len()
        invariant
            i <= pairs.len(),
            pairs == current_index.pairs(),
            forall|q: Seq<Seq<char>>|
                #[trigger] tree.contains(q) <==> q.len() == 0 || exists|a: int, k: int|
                    0 <= a < i && 0 <= k < pairs[a].1@.len() && is_prefix(q, #[trigger] spec_path_components(pairs[a].1@[k]@)),
        decreases pairs.len() - i,
    {
        let (_, files) = current_index.pair(i);
        let mut k: usize = 0;
        while k < files.len()
            invariant
                i < pairs.len(),
                pairs == current_index.pairs(),
                *files == pairs[i as int].1,
                k <= files@.len(),
                forall|q: Seq<Seq<char>>|
                    #[trigger] tree.contains(q) <==> q.len() == 0 || (exists|a: int, j: int|
                        0 <= a < i && 0 <= j < pairs[a].1@.len() && is_prefix(q, #[trigger] spec_path_components(pairs[a].1@[j]@))) || (exists|j: int|
                        0 <= j < k && is_prefix(q, #[trigger] spec_path_components(pairs[i as int].1@[j]@))),
            decreases files@.len() - k,
        {
            tree.insert(files[k].as_str());
            k += 1;
        }
        i += 1;
        proof {
            assert forall|q: Seq<Seq<char>>|
                #[trigger] tree.contains(q) <==> q.len() == 0 || exists|a: int, k: int|
                    0 <= a < i && 0 <= k < pairs[a].1@.len() && is_prefix(q, #[trigger] spec_path_components(pairs[a].1@[k]@)) by {
                if tree.contains(q) && q.len() > 0 {
                    if exists|j: int|
                        0 <= j < pairs[i - 1].1@.len() && is_prefix(q, #[trigger] spec_path_components(pairs[i - 1].1@[j]@)) {
                        let j = choose|j: int|
                            0 <= j < pairs[i - 1].1@.len() && is_prefix(q, #[trigger] spec_path_components(pairs[i - 1].1@[j]@));
                        assert(0 <= i - 1 < i && 0 <= j < pairs[i - 1].1@.len() && is_prefix(q, #[trigger] spec_path_components(pairs[i - 1].1@[j]@)));
                    }
                }
            }
        }
    }
    match tree.traverse(output_dir) {
        Some(_) => {
            proof {
                assert forall|q: Seq<Seq<char>>|
                    #[trigger] tree.contains(q) <==> q.len() == 0 || indexed_prefix(pairs, q) by {
                }
            }
            Ok(tree)
        },
        None => {
            proof {
                assert(spec_path_components(output_dir@).len() > 0);
            }
            Err(CleanError::Prepare { dir: String::from_str(output_dir) })
        },
    }
}

/// What cleaning does with an item of a directory of the output directory.
pub enum ItemAction<'a> {
    /// The build directory at the top of the output directory: left alone.
    Reserved,
    /// An item on the way of some output file: kept; if it is a directory, its
    /// items are cleaned against `child`.
    Keep { child: &'a FsTreeNode },
    /// An item on the way of no output file: deleted.
    Delete,
}

/// Decides what cleaning does with the item `name` of the directory `dir`,
/// whose node of the prefix tree is `node`.
pub fn clean_item<'a>(dir: &str, output_dir: &str, name: &str, node: &'a FsTreeNode) -> (r: ItemAction<'a>)
    ensures
        ({
            let reserved = spec_path_components(dir@) == spec_path_components(output_dir@) && name@
                == ".albumctl"@;
            match r {
                ItemAction::Reserved => reserved,
                ItemAction::Keep { child } => {
                    &&& !reserved
                    &&& first_child(node.child_list(), name@) matches Some(i)
                    &&& *child == node.child_list()[i].1
                    &&& forall|s: Seq<Seq<char>>|
                        #[trigger] child.contains(s) == node.contains(seq![name@] + s)
                },
                ItemAction::Delete => !reserved && !node.contains(seq![name@]),
            }
        }),
{
    if same_path(dir, output_dir) && str_eq(name, ".albumctl") {
        return ItemAction::Reserved;
    }
    match node.child(name) {
        Some(child) => {
            proof {
                assert forall|s: Seq<Seq<char>>| #[trigger] child.contains(s) == node.contains(
                    seq![name@] + s,
                ) by {
                    assert((seq![name@] + s)[0] == name@);
                    assert((seq![name@] + s).drop_first() =~= s);
                }
            }
            ItemAction::Keep { child }
        },
        None => {
            proof {
                assert(seq![name@][0] == name@);
            }
            ItemAction::Delete
        },
    }
}

/// Cleaning deletes no item that leads to an output file of the index: when the
/// tree holds exactly the prefixes of the indexed output files and `node` is
/// the node of the directory with components `dir`, an item that is not in
/// `node` has no indexed output file below it.
pub proof fn lemma_deleted_items_hold_no_output(
    pairs: Seq<(String, Vec<String>)>,
    tree: FsTree,
    dir: Seq<Seq<char>>,
    node: FsTreeNode,
    name: Seq<char>,
)
    requires
        forall|q: Seq<Seq<char>>| #[trigger] tree.contains(q) <==> q.len() == 0 || indexed_prefix(pairs, q),
        forall|s: Seq<Seq<char>>| #[trigger] node.contains(s) == tree.contains(dir + s),
        !node.contains(seq![name]),
    ensures
        forall|i: int, k: int|
            0 <= i < pairs.len() && 0 <= k < pairs[i].1@.len() ==> !is_prefix(
                dir.push(name),
                #[trigger] spec_path_components(pairs[i].1@[k]@),
            ),
{
    assert(dir + seq![name] =~= dir.push(name));
    assert(!tree.contains(dir.push(name)));
}

} // verus!

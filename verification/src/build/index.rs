//! The build index: for each unit hash, the output files of the unit.

use vstd::prelude::*;
use crate::text::{str_eq, strings_view};

verus! {

/// The map that a list of hash/outputs pairs stands for, later pairs overriding earlier ones.
pub open spec fn index_map(s: Seq<(String, Vec<String>)>) -> Map<Seq<char>, Seq<Seq<char>>>
    decreases s.len(),
{
    if s.len() == 0 {
        Map::empty()
    } else {
        index_map(s.drop_last()).insert(s.last().0@, strings_view(s.last().1@))
    }
}

/// No hash occurs twice in the list.
pub open spec fn distinct_hashes(s: Seq<(String, Vec<String>)>) -> bool {
    forall|i: int, j: int| 0 <= i < j < s.len() ==> s[i].0@ != s[j].0@
}

proof fn lemma_index_map(s: Seq<(String, Vec<String>)>)
    requires
        distinct_hashes(s),
    ensures
        forall|k: Seq<char>|
            #[trigger] index_map(s).contains_key(k) <==> exists|i: int|
                0 <= i < s.len() && s[i].0@ == k,
        forall|i: int|
            0 <= i < s.len() ==> #[trigger] index_map(s).contains_key(s[i].0@) && index_map(s)[s[i].0@]
                == strings_view(s[i].1@),
    decreases s.len(),
{
    if s.len() > 0 {
        let t = s.drop_last();
        lemma_index_map(t);
        assert forall|k: Seq<char>|
            #[trigger] index_map(s).contains_key(k) implies exists|i: int|
                0 <= i < s.len() && s[i].0@ == k by {
            if k != s.last().0@ {
                assert(index_map(t).contains_key(k));
                let i = choose|i: int| 0 <= i < t.len() && t[i].0@ == k;
                assert(s[i] == t[i]);
            } else {
                assert(s[s.len() - 1].0@ == k);
            }
        }
        assert forall|i: int| 0 <= i < s.len() implies #[trigger] index_map(s).contains_key(
            s[i].0@,
        ) && index_map(s)[s[i].0@] == strings_view(s[i].1@) by {
            if i < s.len() - 1 {
                assert(s[i] == t[i]);
                assert(s[i].0@ != s[s.len() - 1].0@);
                assert(index_map(t).contains_key(t[i].0@));
            }
        }
    }
}

/// A copy of a list of strings.
pub fn copy_strings(v: &Vec<String>) -> (r: Vec<String>)
    ensures
        r@ == v@,
{
    let mut r: Vec<String> = Vec::new();
    let mut i: usize = 0;
    while i < v.len()
        invariant
            i <= v@.len(),
            r@ == v@.take(i as int),
        decreases v@.len() - i,
    {
        r.push(v[i].clone());
        i += 1;
        proof {
            assert(r@ =~= v@.take(i as int));
        }
    }
    proof {
        assert(v@.take(i as int) =~= v@);
    }
    r
}

fn find(entries: &Vec<(String, Vec<String>)>, key: &str) -> (r: Option<usize>)
    ensures
        match r {
            Some(i) => i < entries@.len() && entries@[i as int].0@ == key@,
            None => forall|i: int| 0 <= i < entries@.len() ==> entries@[i].0@ != key@,
        },
{
    let mut i: usize = 0;
    while i < entries.len()
        invariant
            i <= entries@.len(),
            forall|j: int| 0 <= j < i ==> entries@[j].0@ != key@,
        decreases entries@.len() - i,
    {
        if str_eq(entries[i].0.as_str(), key) {
            return Some(i);
        }
        i += 1;
    }
    None
}

/// The build index: for each unit hash (in hexadecimal), the output files of
/// the unit's last build. Each hash occurs at most once.
pub struct BuildIndex {
    entries: Vec<(String, Vec<String>)>,
}

impl View for BuildIndex {
    type V = Map<Seq<char>, Seq<Seq<char>>>;

    open spec fn view(&self) -> Map<Seq<char>, Seq<Seq<char>>> {
        index_map(self.pairs())
    }
}

impl BuildIndex {
    #[verifier::type_invariant]
    closed spec fn hashes_are_distinct(self) -> bool {
        distinct_hashes(self.entries@)
    }

    /// The hash/outputs pairs, in the order they were first inserted.
    pub closed spec fn pairs(self) -> Seq<(String, Vec<String>)> {
        self.entries@
    }

    /// An empty index.
    pub fn new() -> (m: BuildIndex)
        ensures
            m@ == Map::<Seq<char>, Seq<Seq<char>>>::empty(),
            m.pairs().len() == 0,
    {
        BuildIndex { entries: Vec::new() }
    }

    /// The number of hash/outputs pairs.
    pub fn len(&self) -> (n: usize)
        ensures
            n == self.pairs().len(),
    {
        self.entries.len()
    }

    /// The pair at `i`, in the order of first insertion.
    pub fn pair(&self, i: usize) -> (p: (&String, &Vec<String>))
        requires
            i < self.pairs().len(),
        ensures
            *p.0 == self.pairs()[i as int].0,
            *p.1 == self.pairs()[i as int].1,
            self@.contains_key(p.0@),
            self@[p.0@] == strings_view(p.1@),
    {
        proof {
            use_type_invariant(self);
            lemma_index_map(self.entries@);
        }
        (&self.entries[i].0, &self.entries[i].1)
    }

    /// The output files of the unit with hash `key`, if the index holds it.
    pub fn get(&self, key: &str) -> (r: Option<&Vec<String>>)
        ensures
            match r {
                Some(v) => self@.contains_key(key@) && self@[key@] == strings_view(v@),
                None => !self@.contains_key(key@),
            },
    {
        proof {
            use_type_invariant(self);
            lemma_index_map(self.entries@);
        }
        match find(&self.entries, key) {
            Some(i) => {
                proof {
                    assert(index_map(self.entries@).contains_key(self.entries@[i as int].0@));
                }
                Some(&self.entries[i].1)
            },
            None => None,
        }
    }

    /// Records the output files of the unit with hash `key`, replacing what the
    /// index held for it.
    pub fn insert(&mut self, key: String, value: Vec<String>)
        ensures
            final(self)@ == old(self)@.insert(key@, strings_view(value@)),
    {
        proof {
            use_type_invariant(&*self);
            lemma_index_map(self.entries@);
        }
        let ghost old_entries = self.entries@;
        let ghost k = key@;
        let ghost v = strings_view(value@);
        let mut entries = Vec::new();
        std::mem::swap(&mut entries, &mut self.entries);
        match find(&entries, key.as_str()) {
            Some(i) => {
                entries.set(i, (key, value));
                proof {
                    assert(distinct_hashes(entries@)) by {
                        assert forall|a: int, b: int| 0 <= a < b < entries@.len() implies entries@[a].0@
                            != entries@[b].0@ by {
                            if a != i && b != i {
                                assert(entries@[a] == old_entries[a]);
                                assert(entries@[b] == old_entries[b]);
                            } else if a == i {
                                assert(entries@[b] == old_entries[b]);
                            } else {
                                assert(entries@[a] == old_entries[a]);
                            }
                        }
                    }
                    lemma_index_map(entries@);
                    let m = index_map(entries@);
                    let o = index_map(old_entries).insert(k, v);
                    assert forall|x: Seq<char>| m.contains_key(x) <==> o.contains_key(x) by {
                        if m.contains_key(x) {
                            let j = choose|j: int| 0 <= j < entries@.len() && entries@[j].0@ == x;
                            if j != i {
                                assert(entries@[j] == old_entries[j]);
                                assert(index_map(old_entries).contains_key(old_entries[j].0@));
                            }
                        }
                        if o.contains_key(x) {
                            if x == k {
                                assert(m.contains_key(entries@[i as int].0@));
                            } else {
                                assert(index_map(old_entries).contains_key(x));
                                let j = choose|j: int| 0 <= j < old_entries.len() && old_entries[j].0@ == x;
                                assert(entries@[j] == old_entries[j]);
                                assert(m.contains_key(entries@[j].0@));
                            }
                        }
                    }
                    assert forall|x: Seq<char>| m.contains_key(x) implies m[x] == o[x] by {
                        let j = choose|j: int| 0 <= j < entries@.len() && entries@[j].0@ == x;
                        if j != i {
                            assert(entries@[j] == old_entries[j]);
                        }
                    }
                    assert(m =~= o);
                }
            },
            None => {
                entries.push((key, value));
                proof {
                    assert(entries@.drop_last() =~= old_entries);
                }
            },
        }
        self.entries = entries;
    }
}

} // verus!

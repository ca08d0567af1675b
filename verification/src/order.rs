//! Finding repeated identifiers, and sorting by identifier.

use vstd::prelude::*;

verus! {

/// Values ordered by an identifier: `id_lt` is a strict total order on
/// identifiers and `id_eq` says that two values have the same identifier.
pub trait IdOrder: Sized {
    spec fn id_lt(self, other: Self) -> bool;

    spec fn id_eq(self, other: Self) -> bool;

    proof fn lemma_id_order(a: Self, b: Self, c: Self)
        ensures
            !a.id_lt(a),
            a.id_eq(a),
            a.id_eq(b) == b.id_eq(a),
            a.id_eq(b) ==> !a.id_lt(b),
            !a.id_eq(b) ==> a.id_lt(b) || b.id_lt(a),
            a.id_lt(b) && b.id_lt(c) ==> a.id_lt(c),
            a.id_eq(b) && b.id_eq(c) ==> a.id_eq(c),
            a.id_eq(b) ==> (a.id_lt(c) == b.id_lt(c) && c.id_lt(a) == c.id_lt(b)),
    ;

    fn id_less(&self, other: &Self) -> (r: bool)
        ensures
            r == self.id_lt(*other),
    ;

    fn id_same(&self, other: &Self) -> (r: bool)
        ensures
            r == self.id_eq(*other),
    ;
}

/// `s[j]` has the identifier of the earlier `s[i]`, and no earlier pair of
/// positions shares an identifier.
pub open spec fn id_repeat_at<T: IdOrder>(s: Seq<T>, i: int, j: int) -> bool {
    &&& 0 <= i < j < s.len()
    &&& s[i].id_eq(s[j])
    &&& forall|a: int, b: int| 0 <= a < b < j ==> !s[a].id_eq(s[b])
}

/// Two values of `s` share an identifier.
pub open spec fn has_id_repeat<T: IdOrder>(s: Seq<T>) -> bool {
    exists|i: int, j: int| 0 <= i < j < s.len() && s[i].id_eq(s[j])
}

/// `a` does not come after `b`.
pub open spec fn id_le<T: IdOrder>(a: T, b: T) -> bool {
    !b.id_lt(a)
}

/// Inserts `x` into `s` after every value that does not come after it.
pub open spec fn insert_by_id<T: IdOrder>(s: Seq<T>, x: T) -> Seq<T>
    decreases s.len(),
{
    if s.len() == 0 || id_le(s.last(), x) {
        s.push(x)
    } else {
        insert_by_id(s.drop_last(), x).push(s.last())
    }
}

/// The stable insertion sort of values by identifier.
pub open spec fn sort_by_id_spec<T: IdOrder>(s: Seq<T>) -> Seq<T>
    decreases s.len(),
{
    if s.len() == 0 {
        s
    } else {
        insert_by_id(sort_by_id_spec(s.drop_last()), s.last())
    }
}

/// Values ordered by identifier.
pub open spec fn sorted_by_id<T: IdOrder>(s: Seq<T>) -> bool {
    forall|i: int, j: int| 0 <= i < j < s.len() ==> id_le(s[i], s[j])
}

/// Not coming after is transitive.
pub proof fn lemma_id_le_trans<T: IdOrder>(a: T, b: T, c: T)
    ensures
        id_le(a, b) && id_le(b, c) ==> id_le(a, c),
        a.id_lt(b) ==> id_le(a, b),
{
    T::lemma_id_order(a, b, c);
    T::lemma_id_order(b, c, a);
    T::lemma_id_order(c, a, b);
    T::lemma_id_order(a, c, b);
    T::lemma_id_order(b, a, c);
    T::lemma_id_order(c, b, a);
    T::lemma_id_order(a, b, a);
}

proof fn lemma_insert_by_id<T: IdOrder>(s: Seq<T>, x: T)
    requires
        sorted_by_id(s),
    ensures
        sorted_by_id(insert_by_id(s, x)),
        insert_by_id(s, x).to_multiset() == s.to_multiset().insert(x),
    decreases s.len(),
{
    broadcast use vstd::seq_lib::group_to_multiset_ensures;

    if s.len() == 0 || id_le(s.last(), x) {
        assert forall|i: int, j: int| 0 <= i < j < s.push(x).len() implies id_le(
            s.push(x)[i],
            s.push(x)[j],
        ) by {
            if j == s.len() && i < s.len() - 1 {
                assert(id_le(s[i], s[s.len() - 1]));
                lemma_id_le_trans(s[i], s[s.len() - 1], x);
            }
        }
    } else {
        let t = s.drop_last();
        lemma_insert_by_id(t, x);
        let r = insert_by_id(t, x);
        assert(s =~= t.push(s.last()));
        assert forall|i: int, j: int| 0 <= i < j < r.push(s.last()).len() implies id_le(
            r.push(s.last())[i],
            r.push(s.last())[j],
        ) by {
            if j == r.len() {
                let e = r[i];
                assert(r.to_multiset().count(e) > 0);
                if e == x {
                    lemma_id_le_trans(x, s.last(), x);
                    T::lemma_id_order(s.last(), x, x);
                } else {
                    assert(t.to_multiset().count(e) > 0);
                    let k = choose|k: int| 0 <= k < t.len() && t[k] == e;
                    assert(id_le(s[k], s[s.len() - 1]));
                }
            }
        }
    }
}

/// The insertion sort orders the values and holds the same values.
pub proof fn lemma_sort_by_id<T: IdOrder>(s: Seq<T>)
    ensures
        sorted_by_id(sort_by_id_spec(s)),
        sort_by_id_spec(s).to_multiset() == s.to_multiset(),
    decreases s.len(),
{
    broadcast use vstd::seq_lib::group_to_multiset_ensures;

    if s.len() > 0 {
        lemma_sort_by_id(s.drop_last());
        lemma_insert_by_id(sort_by_id_spec(s.drop_last()), s.last());
        assert(s =~= s.drop_last().push(s.last()));
    }
}

proof fn lemma_insert_by_id_corresponds<T: IdOrder, U: IdOrder>(
    s: Seq<T>,
    t: Seq<U>,
    x: T,
    y: U,
    rel: spec_fn(T, U) -> bool,
)
    requires
        s.len() == t.len(),
        forall|i: int| 0 <= i < s.len() ==> #[trigger] rel(s[i], t[i]),
        rel(x, y),
        forall|a: T, b: U, c: T, d: U|
            #![trigger rel(a, b), rel(c, d)]
            rel(a, b) && rel(c, d) ==> a.id_lt(c) == b.id_lt(d),
    ensures
        insert_by_id(s, x).len() == insert_by_id(t, y).len(),
        forall|i: int|
            0 <= i < insert_by_id(s, x).len() ==> #[trigger] rel(
                insert_by_id(s, x)[i],
                insert_by_id(t, y)[i],
            ),
    decreases s.len(),
{
    if s.len() == 0 || id_le(s.last(), x) {
        if s.len() > 0 {
            assert(rel(s[s.len() - 1], t[t.len() - 1]));
        }
        assert(insert_by_id(t, y) == t.push(y));
    } else {
        assert(rel(s[s.len() - 1], t[t.len() - 1]));
        lemma_insert_by_id_corresponds(s.drop_last(), t.drop_last(), x, y, rel);
    }
}

/// Sorting two sequences whose values correspond one for one, by a relation
/// that keeps the order of identifiers, gives sequences that correspond one
/// for one.
pub proof fn lemma_sort_by_id_corresponds<T: IdOrder, U: IdOrder>(
    s: Seq<T>,
    t: Seq<U>,
    rel: spec_fn(T, U) -> bool,
)
    requires
        s.len() == t.len(),
        forall|i: int| 0 <= i < s.len() ==> #[trigger] rel(s[i], t[i]),
        forall|a: T, b: U, c: T, d: U|
            #![trigger rel(a, b), rel(c, d)]
            rel(a, b) && rel(c, d) ==> a.id_lt(c) == b.id_lt(d),
    ensures
        sort_by_id_spec(s).len() == sort_by_id_spec(t).len(),
        sort_by_id_spec(t).len() == t.len(),
        forall|i: int|
            0 <= i < sort_by_id_spec(s).len() ==> #[trigger] rel(
                sort_by_id_spec(s)[i],
                sort_by_id_spec(t)[i],
            ),
    decreases s.len(),
{
    lemma_sort_by_id(t);
    broadcast use vstd::seq_lib::group_to_multiset_ensures;

    assert(sort_by_id_spec(t).to_multiset().len() == t.to_multiset().len());
    if s.len() > 0 {
        assert(rel(s[s.len() - 1], t[t.len() - 1]));
        lemma_sort_by_id_corresponds(s.drop_last(), t.drop_last(), rel);
        lemma_insert_by_id_corresponds(
            sort_by_id_spec(s.drop_last()),
            sort_by_id_spec(t.drop_last()),
            s.last(),
            t.last(),
            rel,
        );
    }
}

proof fn lemma_insert_keeps_distinct<T: IdOrder>(s: Seq<T>, x: T)
    requires
        !has_id_repeat(s),
        forall|i: int| 0 <= i < s.len() ==> !#[trigger] s[i].id_eq(x),
    ensures
        !has_id_repeat(insert_by_id(s, x)),
        forall|k: int|
            0 <= k < insert_by_id(s, x).len() ==> insert_by_id(s, x)[k] == x || exists|i: int|
                0 <= i < s.len() && insert_by_id(s, x)[k] == #[trigger] s[i],
        insert_by_id(s, x).len() == s.len() + 1,
    decreases s.len(),
{
    if s.len() == 0 || id_le(s.last(), x) {
        let r = s.push(x);
        assert forall|a: int, b: int| 0 <= a < b < r.len() implies !r[a].id_eq(r[b]) by {
            if b == s.len() {
                assert(!s[a].id_eq(x));
            }
        }
        assert forall|k: int| 0 <= k < r.len() implies r[k] == x || exists|i: int|
            0 <= i < s.len() && r[k] == #[trigger] s[i] by {
            if k < s.len() {
                assert(r[k] == s[k]);
            }
        }
    } else {
        let t = s.drop_last();
        let y = s.last();
        assert forall|a: int, b: int| 0 <= a < b < t.len() implies !t[a].id_eq(t[b]) by {
            assert(t[a] == s[a] && t[b] == s[b]);
        }
        assert forall|i: int| 0 <= i < t.len() implies !#[trigger] t[i].id_eq(x) by {
            assert(t[i] == s[i]);
        }
        lemma_insert_keeps_distinct(t, x);
        let u = insert_by_id(t, x);
        let r = u.push(y);
        assert forall|a: int, b: int| 0 <= a < b < r.len() implies !r[a].id_eq(r[b]) by {
            if b == u.len() {
                if u[a] == x {
                    T::lemma_id_order(y, x, x);
                    assert(!s[s.len() - 1].id_eq(x));
                } else {
                    let i = choose|i: int| 0 <= i < t.len() && u[a] == #[trigger] t[i];
                    assert(t[i] == s[i]);
                    assert(!s[i].id_eq(s[s.len() - 1]));
                }
            }
        }
        assert forall|k: int| 0 <= k < r.len() implies r[k] == x || exists|i: int|
            0 <= i < s.len() && r[k] == #[trigger] s[i] by {
            if k == u.len() {
                assert(r[k] == s[s.len() - 1]);
            } else if u[k] != x {
                let i = choose|i: int| 0 <= i < t.len() && u[k] == #[trigger] t[i];
                assert(t[i] == s[i]);
            }
        }
    }
}

/// Sorting by identifier keeps the values of a sequence in which no two
/// values share an identifier free of such a pair.
pub proof fn lemma_sort_keeps_distinct<T: IdOrder>(s: Seq<T>)
    requires
        !has_id_repeat(s),
    ensures
        !has_id_repeat(sort_by_id_spec(s)),
        sort_by_id_spec(s).len() == s.len(),
        forall|k: int|
            #![trigger sort_by_id_spec(s)[k]]
            0 <= k < sort_by_id_spec(s).len() ==> exists|i: int|
                0 <= i < s.len() && sort_by_id_spec(s)[k] == #[trigger] s[i],
    decreases s.len(),
{
    if s.len() > 0 {
        let t = s.drop_last();
        let y = s.last();
        assert forall|a: int, b: int| 0 <= a < b < t.len() implies !t[a].id_eq(t[b]) by {
            assert(t[a] == s[a] && t[b] == s[b]);
        }
        lemma_sort_keeps_distinct(t);
        let u = sort_by_id_spec(t);
        assert forall|k: int| 0 <= k < u.len() implies !#[trigger] u[k].id_eq(y) by {
            let i = choose|i: int| 0 <= i < t.len() && u[k] == #[trigger] t[i];
            assert(t[i] == s[i]);
            assert(!s[i].id_eq(s[s.len() - 1]));
        }
        lemma_insert_keeps_distinct(u, y);
        let r = insert_by_id(u, y);
        assert forall|k: int| #![trigger r[k]] 0 <= k < r.len() implies exists|i: int|
            0 <= i < s.len() && r[k] == #[trigger] s[i] by {
            if r[k] == y {
                assert(r[k] == s[s.len() - 1]);
            } else {
                let j = choose|j: int| 0 <= j < u.len() && r[k] == #[trigger] u[j];
                let i = choose|i: int| 0 <= i < t.len() && u[j] == #[trigger] t[i];
                assert(t[i] == s[i]);
            }
        }
    }
}

/// Sorts values by identifier, keeping the order of values with equal identifiers.
pub fn sort_by_id<T: IdOrder>(items: Vec<T>) -> (r: Vec<T>)
    ensures
        r@ == sort_by_id_spec(items@),
{
    let ghost all = items@;
    let n = items.len();
    let mut items = items;
    let mut r: Vec<T> = Vec::new();
    let mut i: usize = 0;
    while items.len() > 0
        invariant
            i + items@.len() == all.len(),
            all.len() == n,
            items@ == all.skip(i as int),
            r@ == sort_by_id_spec(all.take(i as int)),
        decreases items@.len(),
    {
        let x = items.remove(0);
        proof {
            assert(x == all[i as int]);
            assert(items@ =~= all.skip(i + 1));
        }
        let ghost s = r@;
        let mut k: usize = r.len();
        proof {
            assert(s.take(k as int) =~= s);
            assert(s.skip(k as int) =~= Seq::<T>::empty());
            assert(insert_by_id(s, x) + Seq::<T>::empty() =~= insert_by_id(s, x));
        }
        while k > 0 && x.id_less(&r[k - 1])
            invariant
                k <= s.len(),
                r@ == s,
                insert_by_id(s, x) == insert_by_id(s.take(k as int), x) + s.skip(k as int),
            decreases k,
        {
            proof {
                let t = s.take(k as int);
                assert(t.drop_last() =~= s.take(k - 1));
                assert(t.last() == s[k - 1]);
                assert(insert_by_id(t, x) == insert_by_id(s.take(k - 1), x).push(s[k - 1]));
                assert(insert_by_id(s.take(k - 1), x) + s.skip(k - 1) =~= insert_by_id(
                    s.take(k - 1),
                    x,
                ).push(s[k - 1]) + s.skip(k as int));
            }
            k -= 1;
        }
        proof {
            let t = s.take(k as int);
            if k > 0 {
                assert(t.last() == s[k - 1]);
            }
            assert(insert_by_id(t, x) == t.push(x));
            assert(insert_by_id(s, x) =~= s.take(k as int).push(x) + s.skip(k as int));
            assert(all.take(i + 1).drop_last() =~= all.take(i as int));
            assert(all.take(i + 1).last() == x);
        }
        r.insert(k, x);
        proof {
            assert(r@ =~= s.take(k as int).push(x) + s.skip(k as int));
        }
        i += 1;
    }
    proof {
        assert(all.take(i as int) =~= all);
    }
    r
}

} // verus!

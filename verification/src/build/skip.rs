//! Skipping units whose previous build is still in the output directory.

use vstd::prelude::*;
use crate::build::index::{BuildIndex, copy_strings};
use crate::build::unit::Unit;
use crate::text::strings_view;

verus! {

/// A unit is skipped when the previous index holds its hash and all the output
/// files it lists still exist (or their existence could not be told).
pub open spec fn is_skipped(u: Unit, previous: Map<Seq<char>, Seq<Seq<char>>>, outputs_exist: bool) -> bool {
    previous.contains_key(u.hash_hex@) && outputs_exist
}

/// The first `n` units that are not skipped, in order.
pub open spec fn units_to_build(
    units: Seq<Unit>,
    previous: Map<Seq<char>, Seq<Seq<char>>>,
    outputs_exist: Seq<bool>,
    n: nat,
) -> Seq<Unit>
    decreases n,
{
    if n == 0 {
        Seq::empty()
    } else {
        let r = units_to_build(units, previous, outputs_exist, (n - 1) as nat);
        if is_skipped(units[n - 1], previous, outputs_exist[n - 1]) {
            r
        } else {
            r.push(units[n - 1])
        }
    }
}

/// The current index after the first `n` units were considered: each skipped
/// unit's hash is recorded with the outputs of its previous build.
pub open spec fn index_after_skips(
    current: Map<Seq<char>, Seq<Seq<char>>>,
    units: Seq<Unit>,
    previous: Map<Seq<char>, Seq<Seq<char>>>,
    outputs_exist: Seq<bool>,
    n: nat,
) -> Map<Seq<char>, Seq<Seq<char>>>
    decreases n,
{
    if n == 0 {
        current
    } else {
        let m = index_after_skips(current, units, previous, outputs_exist, (n - 1) as nat);
        let u = units[n - 1];
        if is_skipped(u, previous, outputs_exist[n - 1]) {
            m.insert(u.hash_hex@, previous[u.hash_hex@])
        } else {
            m
        }
    }
}

/// Every skipped unit is recorded in the current index with the outputs of its
/// previous build, and every unit that is not skipped is built, in order: a
/// unit is either skipped or built, never both.
pub proof fn lemma_skip_records(
    current: Map<Seq<char>, Seq<Seq<char>>>,
    units: Seq<Unit>,
    previous: Map<Seq<char>, Seq<Seq<char>>>,
    outputs_exist: Seq<bool>,
    n: nat,
)
    requires
        n <= units.len(),
        n <= outputs_exist.len(),
    ensures
        forall|k: int|
            0 <= k < n && is_skipped(units[k], previous, outputs_exist[k]) ==> {
                let m = index_after_skips(current, units, previous, outputs_exist, n);
                &&& m.contains_key(#[trigger] units[k].hash_hex@)
                &&& m[units[k].hash_hex@] == previous[units[k].hash_hex@]
            },
        forall|h: Seq<char>|
            #[trigger] index_after_skips(current, units, previous, outputs_exist, n).contains_key(h)
                && !current.contains_key(h) ==> exists|k: int|
                0 <= k < n && is_skipped(units[k], previous, outputs_exist[k]) && units[k].hash_hex@ == h,
        units_to_build(units, previous, outputs_exist, n).len() + skipped_count(
            units,
            previous,
            outputs_exist,
            n,
        ) == n,
    decreases n,
{
    if n > 0 {
        lemma_skip_records(current, units, previous, outputs_exist, (n - 1) as nat);
        let m = index_after_skips(current, units, previous, outputs_exist, (n - 1) as nat);
        assert forall|h: Seq<char>|
            #[trigger] index_after_skips(current, units, previous, outputs_exist, n).contains_key(h)
                && !current.contains_key(h) implies exists|k: int|
            0 <= k < n && is_skipped(units[k], previous, outputs_exist[k]) && units[k].hash_hex@ == h by {
            if !m.contains_key(h) {
                let k = n - 1;
                assert(is_skipped(units[k], previous, outputs_exist[k]) && units[k].hash_hex@ == h);
            } else {
                let k = choose|k: int|
                    0 <= k < n - 1 && is_skipped(units[k], previous, outputs_exist[k])
                        && units[k].hash_hex@ == h;
            }
        }
    }
}

/// A unit whose build was recorded in an index is skipped by the next build
/// that starts from that index while the recorded output files still exist,
/// and the next build's index lists the same output files for it; once an
/// output file is gone, the unit is built again.
pub proof fn lemma_recorded_build_is_skipped(
    u: Unit,
    outputs: Seq<Seq<char>>,
    recorded: Map<Seq<char>, Seq<Seq<char>>>,
    current: Map<Seq<char>, Seq<Seq<char>>>,
)
    ensures
        is_skipped(u, recorded.insert(u.hash_hex@, outputs), true),
        !is_skipped(u, recorded.insert(u.hash_hex@, outputs), false),
        index_after_skips(
            current,
            seq![u],
            recorded.insert(u.hash_hex@, outputs),
            seq![true],
            1,
        )[u.hash_hex@] == outputs,
        units_to_build(seq![u], recorded.insert(u.hash_hex@, outputs), seq![false], 1) == seq![u],
{
    let previous = recorded.insert(u.hash_hex@, outputs);
    assert(index_after_skips(current, seq![u], previous, seq![true], 0) == current);
    assert(units_to_build(seq![u], previous, seq![false], 0) == Seq::<Unit>::empty());
    assert(Seq::<Unit>::empty().push(u) =~= seq![u]);
}

/// A build whose units all have their hashes in the previous index, with every
/// recorded output file still standing, builds no unit: it skips all of them,
/// and its index records each with the output files of its previous build.
pub proof fn lemma_unchanged_build_builds_nothing(
    current: Map<Seq<char>, Seq<Seq<char>>>,
    units: Seq<Unit>,
    previous: Map<Seq<char>, Seq<Seq<char>>>,
    outputs_exist: Seq<bool>,
    n: nat,
)
    requires
        n <= units.len(),
        n <= outputs_exist.len(),
        forall|k: int|
            0 <= k < n ==> previous.contains_key(#[trigger] units[k].hash_hex@) && outputs_exist[k],
    ensures
        units_to_build(units, previous, outputs_exist, n) == Seq::<Unit>::empty(),
        skipped_count(units, previous, outputs_exist, n) == n,
        forall|k: int|
            0 <= k < n ==> {
                let m = index_after_skips(current, units, previous, outputs_exist, n);
                &&& m.contains_key(#[trigger] units[k].hash_hex@)
                &&& m[units[k].hash_hex@] == previous[units[k].hash_hex@]
            },
    decreases n,
{
    lemma_skip_records(current, units, previous, outputs_exist, n);
    if n > 0 {
        lemma_unchanged_build_builds_nothing(current, units, previous, outputs_exist, (n - 1) as nat);
        assert(previous.contains_key(units[n - 1].hash_hex@) && outputs_exist[n - 1]);
        assert forall|k: int| 0 <= k < n implies is_skipped(units[k], previous, outputs_exist[k]) by {
            assert(previous.contains_key(units[k].hash_hex@) && outputs_exist[k]);
        }
    }
}

/// An index after records of unit hashes with their output files, in order,
/// as [`Unit::record`](crate::build::unit::Unit::record) makes them.
pub open spec fn index_after_records(
    m: Map<Seq<char>, Seq<Seq<char>>>,
    records: Seq<(Seq<char>, Seq<Seq<char>>)>,
) -> Map<Seq<char>, Seq<Seq<char>>>
    decreases records.len(),
{
    if records.len() == 0 {
        m
    } else {
        index_after_records(m, records.drop_last()).insert(records.last().0, records.last().1)
    }
}

proof fn lemma_records(m: Map<Seq<char>, Seq<Seq<char>>>, records: Seq<(Seq<char>, Seq<Seq<char>>)>)
    ensures
        forall|j: int|
            0 <= j < records.len() ==> index_after_records(m, records).contains_key(
                #[trigger] records[j].0,
            ),
        forall|h: Seq<char>|
            #![trigger index_after_records(m, records).contains_key(h)]
            (forall|j: int| 0 <= j < records.len() ==> #[trigger] records[j].0 != h) ==> (
            index_after_records(m, records).contains_key(h) == m.contains_key(h) && (m.contains_key(
                h,
            ) ==> index_after_records(m, records)[h] == m[h])),
        forall|h: Seq<char>|
            #[trigger] index_after_records(m, records).contains_key(h) ==> m.contains_key(h)
                || exists|j: int| 0 <= j < records.len() && records[j].0 == h,
    decreases records.len(),
{
    if records.len() > 0 {
        let r = records.drop_last();
        lemma_records(m, r);
        assert forall|j: int| 0 <= j < records.len() implies index_after_records(
            m,
            records,
        ).contains_key(#[trigger] records[j].0) by {
            if j < r.len() {
                assert(records[j] == r[j]);
            }
        }
        assert forall|h: Seq<char>|
            #![trigger index_after_records(m, records).contains_key(h)]
            (forall|j: int| 0 <= j < records.len() ==> #[trigger] records[j].0 != h) implies (
            index_after_records(m, records).contains_key(h) == m.contains_key(h) && (m.contains_key(
                h,
            ) ==> index_after_records(m, records)[h] == m[h])) by {
            assert(records[records.len() - 1].0 != h);
            assert forall|j: int| 0 <= j < r.len() implies #[trigger] r[j].0 != h by {
                assert(r[j] == records[j]);
            }
            assert(index_after_records(m, r).contains_key(h) == m.contains_key(h));
        }
        assert forall|h: Seq<char>|
            #[trigger] index_after_records(m, records).contains_key(h) implies m.contains_key(h)
                || exists|j: int| 0 <= j < records.len() && records[j].0 == h by {
            if h == records.last().0 {
                assert(records[records.len() - 1].0 == h);
            } else if !m.contains_key(h) {
                assert(index_after_records(m, r).contains_key(h));
                let j = choose|j: int| 0 <= j < r.len() && r[j].0 == h;
                assert(records[j] == r[j]);
            }
        }
    }
}

/// The index that an incremental build leaves matches its units: after the
/// skips and then the records of the units built, it holds the hash of every
/// skipped unit and of every recorded build, the last record of a hash giving
/// its output files; a skipped unit that no build recorded again keeps the
/// output files of its previous build; and it holds no other hash than these
/// and those it started with.
pub proof fn lemma_build_index(
    current: Map<Seq<char>, Seq<Seq<char>>>,
    units: Seq<Unit>,
    previous: Map<Seq<char>, Seq<Seq<char>>>,
    outputs_exist: Seq<bool>,
    records: Seq<(Seq<char>, Seq<Seq<char>>)>,
)
    requires
        units.len() <= outputs_exist.len(),
    ensures
        ({
            let m = index_after_records(
                index_after_skips(current, units, previous, outputs_exist, units.len()),
                records,
            );
            &&& forall|j: int| 0 <= j < records.len() ==> m.contains_key(#[trigger] records[j].0)
            &&& records.len() > 0 ==> m[records.last().0] == records.last().1
            &&& forall|k: int|
                0 <= k < units.len() && is_skipped(units[k], previous, outputs_exist[k]) ==> {
                    &&& m.contains_key(#[trigger] units[k].hash_hex@)
                    &&& (forall|j: int| 0 <= j < records.len() ==> records[j].0 != units[k].hash_hex@)
                        ==> m[units[k].hash_hex@] == previous[units[k].hash_hex@]
                }
            &&& forall|h: Seq<char>|
                #[trigger] m.contains_key(h) && !current.contains_key(h) ==> (exists|k: int|
                    0 <= k < units.len() && is_skipped(units[k], previous, outputs_exist[k])
                        && units[k].hash_hex@ == h) || (exists|j: int|
                    0 <= j < records.len() && records[j].0 == h)
        }),
{
    let n = units.len();
    let s = index_after_skips(current, units, previous, outputs_exist, n);
    lemma_skip_records(current, units, previous, outputs_exist, n);
    lemma_records(s, records);
    let m = index_after_records(s, records);
    assert forall|k: int|
        0 <= k < units.len() && is_skipped(units[k], previous, outputs_exist[k]) implies {
        &&& m.contains_key(#[trigger] units[k].hash_hex@)
        &&& (forall|j: int| 0 <= j < records.len() ==> records[j].0 != units[k].hash_hex@) ==> m[units[k].hash_hex@]
            == previous[units[k].hash_hex@]
    } by {
        let h = units[k].hash_hex@;
        assert(s.contains_key(h));
        if !m.contains_key(h) {
            assert(forall|j: int| 0 <= j < records.len() ==> #[trigger] records[j].0 != h);
        }
        if forall|j: int| 0 <= j < records.len() ==> records[j].0 != h {
            assert(forall|j: int| 0 <= j < records.len() ==> #[trigger] records[j].0 != h);
        }
    }
    assert forall|h: Seq<char>|
        #[trigger] m.contains_key(h) && !current.contains_key(h) implies (exists|k: int|
            0 <= k < units.len() && is_skipped(units[k], previous, outputs_exist[k])
                && units[k].hash_hex@ == h) || (exists|j: int|
            0 <= j < records.len() && records[j].0 == h) by {
        if s.contains_key(h) {
            assert(s.contains_key(h) && !current.contains_key(h));
        }
    }
    if records.len() > 0 {
        assert(m == index_after_records(s, records.drop_last()).insert(records.last().0, records.last().1));
    }
}

/// How many of the first `n` units are skipped.
pub open spec fn skipped_count(
    units: Seq<Unit>,
    previous: Map<Seq<char>, Seq<Seq<char>>>,
    outputs_exist: Seq<bool>,
    n: nat,
) -> nat
    decreases n,
{
    if n == 0 {
        0
    } else {
        skipped_count(units, previous, outputs_exist, (n - 1) as nat) + if is_skipped(
            units[n - 1],
            previous,
            outputs_exist[n - 1],
        ) {
            1nat
        } else {
            0nat
        }
    }
}

/// Whether the output files of a previous build still stand, from what was
/// found of each: `Some(true)` where it exists, `Some(false)` where it is
/// gone, `None` where that could not be told. A file that could not be told
/// gone counts as standing, so that it triggers no rebuild.
pub fn outputs_exist(found: &Vec<Option<bool>>) -> (r: bool)
    ensures
        r == forall|i: int| 0 <= i < found@.len() ==> found@[i] != Some(false),
{
    let mut i: usize = 0;
    while i < found.len()
        invariant
            i <= found@.len(),
            forall|j: int| 0 <= j < i ==> found@[j] != Some(false),
        decreases found@.len() - i,
    {
        if let Some(false) = found[i] {
            return false;
        }
        i += 1;
    }
    true
}

/// Skips the units whose previous build still stands, recording them in the
/// current index, and returns the units to build, in order.
///
/// `outputs_exist[k]` tells whether every output file that the previous index
/// lists for `units[k]` exists, or cannot be told not to.
pub fn skip_units(
    units: Vec<Unit>,
    previous_index: &BuildIndex,
    current_index: &mut BuildIndex,
    outputs_exist: &Vec<bool>,
) -> (r: Vec<Unit>)
    requires
        outputs_exist@.len() == units@.len(),
    ensures
        r@ == units_to_build(units@, previous_index@, outputs_exist@, units@.len()),
        final(current_index)@ == index_after_skips(
            old(current_index)@,
            units@,
            previous_index@,
            outputs_exist@,
            units@.len(),
        ),
{
    let ghost all = units@;
    let mut units = units;
    let mut r: Vec<Unit> = Vec::new();
    let mut i: usize = 0;
    let n = units.len();
    let ghost start = current_index@;
    while units.len() > 0
        invariant
            n == all.len(),
            outputs_exist@.len() == n,
            i + units@.len() == n,
            units@ == all.skip(i as int),
            r@ == units_to_build(all, previous_index@, outputs_exist@, i as nat),
            current_index@ == index_after_skips(start, all, previous_index@, outputs_exist@, i as nat),
        decreases units@.len(),
    {
        let u = units.remove(0);
        proof {
            assert(u == all[i as int]);
            assert(units@ =~= all.skip(i + 1));
        }
        let skipped = if outputs_exist[i] {
            match previous_index.get(u.hash_hex.as_str()) {
                Some(outputs) => {
                    current_index.insert(u.hash_hex.clone(), copy_strings(outputs));
                    true
                },
                None => false,
            }
        } else {
            false
        };
        if !skipped {
            r.push(u);
        }
        i += 1;
    }
    r
}

} // verus!

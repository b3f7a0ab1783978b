//! The mathematical model of an ordered header multimap, and the laws that
//! the pair of maps of a header collection obeys.
//!
//! A map is a sequence of groups. A group is a normalized name with the
//! items recorded under it, oldest first. No name has two groups.

use vstd::prelude::*;

verus! {

/// What a header map holds: one group for each name, in the order in which
/// the map is walked. A group is the name with its items, oldest first.
pub type Entries = Seq<(Seq<u8>, Seq<Seq<u8>>)>;

/// The steps of a walk over a header map: a name and one of its items at
/// each step.
pub type Pairs = Seq<(Seq<u8>, Seq<u8>)>;

/// Whether some group of `e` carries `name`.
pub open spec fn has_name(e: Entries, name: Seq<u8>) -> bool {
    exists|i: int| 0 <= i < e.len() && (#[trigger] e[i]).0 == name
}

/// The index of a group of `e` that carries `name`.
pub open spec fn position(e: Entries, name: Seq<u8>) -> int {
    choose|i: int| 0 <= i < e.len() && (#[trigger] e[i]).0 == name
}

/// Whether no name has two groups.
pub open spec fn distinct_names(e: Entries) -> bool {
    forall|i: int, j: int|
        0 <= i < e.len() && 0 <= j < e.len() && (#[trigger] e[i]).0 == (#[trigger] e[j]).0 ==> i
            == j
}

/// The items recorded under `name`, oldest first; none where the name is
/// absent.
pub open spec fn items_of(e: Entries, name: Seq<u8>) -> Seq<Seq<u8>> {
    if has_name(e, name) {
        e[position(e, name)].1
    } else {
        Seq::empty()
    }
}

/// The map after `item` was appended under `name`: the name's group grows
/// at its end, or a new group is added behind all others.
pub open spec fn appended(e: Entries, name: Seq<u8>, item: Seq<u8>) -> Entries {
    if has_name(e, name) {
        let i = position(e, name);
        e.update(i, (name, e[i].1.push(item)))
    } else {
        e.push((name, seq![item]))
    }
}

/// The map after `item` was inserted under `name`: the name's group holds
/// `item` alone and stays where it was, or a new group is added behind all
/// others.
pub open spec fn inserted(e: Entries, name: Seq<u8>, item: Seq<u8>) -> Entries {
    if has_name(e, name) {
        e.update(position(e, name), (name, seq![item]))
    } else {
        e.push((name, seq![item]))
    }
}

/// The map without its group at `i`: the last group takes the place of the
/// one that leaves.
pub open spec fn without_group(e: Entries, i: int) -> Entries {
    if i == e.len() - 1 {
        e.drop_last()
    } else {
        e.update(i, e.last()).drop_last()
    }
}

/// The map after `name` was removed: unchanged where the name is absent.
pub open spec fn removed(e: Entries, name: Seq<u8>) -> Entries {
    if has_name(e, name) {
        without_group(e, position(e, name))
    } else {
        e
    }
}

/// The first item recorded under `name`, where there is one.
pub open spec fn first_item(e: Entries, name: Seq<u8>) -> Option<Seq<u8>> {
    if has_name(e, name) && e[position(e, name)].1.len() > 0 {
        Some(e[position(e, name)].1[0])
    } else {
        None
    }
}

/// The items of one group, each beside the group's name.
pub open spec fn group_pairs(g: (Seq<u8>, Seq<Seq<u8>>)) -> Pairs {
    Seq::new(g.1.len(), |j: int| (g.0, g.1[j]))
}

/// The map as it is walked: group after group, each group's items oldest
/// first.
pub open spec fn flat(e: Entries) -> Pairs
    decreases e.len(),
{
    if e.len() == 0 {
        Seq::empty()
    } else {
        flat(e.drop_last()) + group_pairs(e.last())
    }
}

/// Whether a casing map and a value map are in lock-step: the same names in
/// the same order, and under each name as many spellings as values.
pub open spec fn aligned(names: Entries, values: Entries) -> bool {
    &&& names.len() == values.len()
    &&& forall|i: int|
        0 <= i < names.len() ==> (#[trigger] names[i]).0 == values[i].0 && names[i].1.len()
            == values[i].1.len()
}

/// One mutation of a header collection.
pub enum HeaderOp {
    /// Add one spelling and one value under a name.
    Append { name: Seq<u8>, case: Seq<u8>, value: Seq<u8> },
    /// Put one spelling and one value in place of all that a name had.
    Insert { name: Seq<u8>, case: Seq<u8>, value: Seq<u8> },
    /// Drop all that a name had.
    Remove { name: Seq<u8> },
}

/// The casing map and the value map after one mutation.
pub open spec fn apply_op(maps: (Entries, Entries), op: HeaderOp) -> (Entries, Entries) {
    match op {
        HeaderOp::Append { name, case, value } => (
            appended(maps.0, name, case),
            appended(maps.1, name, value),
        ),
        HeaderOp::Insert { name, case, value } => (
            inserted(maps.0, name, case),
            inserted(maps.1, name, value),
        ),
        HeaderOp::Remove { name } => (removed(maps.0, name), removed(maps.1, name)),
    }
}

/// The casing map and the value map after a run of mutations on two empty
/// maps.
pub open spec fn apply_ops(ops: Seq<HeaderOp>) -> (Entries, Entries)
    decreases ops.len(),
{
    if ops.len() == 0 {
        (Seq::empty(), Seq::empty())
    } else {
        apply_op(apply_ops(ops.drop_last()), ops.last())
    }
}

/// In a map of distinct names, a group that carries `name` is the one that
/// `position` finds.
pub proof fn lemma_position_unique(e: Entries, name: Seq<u8>, i: int)
    requires
        distinct_names(e),
        0 <= i < e.len(),
        e[i].0 == name,
    ensures
        has_name(e, name),
        position(e, name) == i,
{
    let p = position(e, name);
    assert(0 <= p < e.len() && e[p].0 == name);
}

/// Two maps in lock-step hold the same names at the same places.
pub proof fn lemma_aligned_names(names: Entries, values: Entries, name: Seq<u8>)
    requires
        aligned(names, values),
        distinct_names(values),
    ensures
        distinct_names(names),
        has_name(names, name) == has_name(values, name),
        has_name(names, name) ==> position(names, name) == position(values, name),
{
    assert forall|i: int, j: int|
        0 <= i < names.len() && 0 <= j < names.len() && (#[trigger] names[i]).0 == (
        #[trigger] names[j]).0 implies i == j by {
        assert(values[i].0 == values[j].0);
    }
    if has_name(names, name) {
        let p = position(names, name);
        assert(values[p].0 == name);
        lemma_position_unique(values, name, p);
    }
    if has_name(values, name) {
        let p = position(values, name);
        assert(names[p].0 == name);
    }
}

/// Appending keeps the names of a map distinct.
pub proof fn lemma_appended_distinct(e: Entries, name: Seq<u8>, item: Seq<u8>)
    requires
        distinct_names(e),
    ensures
        distinct_names(appended(e, name, item)),
        has_name(appended(e, name, item), name),
        appended(e, name, item).len() == if has_name(e, name) {
            e.len()
        } else {
            e.len() + 1
        },
{
    let a = appended(e, name, item);
    if has_name(e, name) {
        let p = position(e, name);
        assert(a[p].0 == name);
        assert forall|i: int, j: int|
            0 <= i < a.len() && 0 <= j < a.len() && (#[trigger] a[i]).0 == (#[trigger] a[j]).0
            implies i == j by {
            assert(e[i].0 == a[i].0);
            assert(e[j].0 == a[j].0);
        }
    } else {
        assert(a[e.len() as int].0 == name);
        assert forall|i: int, j: int|
            0 <= i < a.len() && 0 <= j < a.len() && (#[trigger] a[i]).0 == (#[trigger] a[j]).0
            implies i == j by {
            if i < e.len() {
                assert(e[i].0 == a[i].0);
            }
            if j < e.len() {
                assert(e[j].0 == a[j].0);
            }
        }
    }
}

/// Inserting keeps the names of a map distinct.
pub proof fn lemma_inserted_distinct(e: Entries, name: Seq<u8>, item: Seq<u8>)
    requires
        distinct_names(e),
    ensures
        distinct_names(inserted(e, name, item)),
        has_name(inserted(e, name, item), name),
        inserted(e, name, item).len() == if has_name(e, name) {
            e.len()
        } else {
            e.len() + 1
        },
{
    let a = inserted(e, name, item);
    if has_name(e, name) {
        let p = position(e, name);
        assert(a[p].0 == name);
        assert forall|i: int, j: int|
            0 <= i < a.len() && 0 <= j < a.len() && (#[trigger] a[i]).0 == (#[trigger] a[j]).0
            implies i == j by {
            assert(e[i].0 == a[i].0);
            assert(e[j].0 == a[j].0);
        }
    } else {
        assert(a[e.len() as int].0 == name);
        assert forall|i: int, j: int|
            0 <= i < a.len() && 0 <= j < a.len() && (#[trigger] a[i]).0 == (#[trigger] a[j]).0
            implies i == j by {
            if i < e.len() {
                assert(e[i].0 == a[i].0);
            }
            if j < e.len() {
                assert(e[j].0 == a[j].0);
            }
        }
    }
}

/// Removing keeps the names of a map distinct, and the removed name is
/// gone.
pub proof fn lemma_removed_distinct(e: Entries, name: Seq<u8>)
    requires
        distinct_names(e),
    ensures
        distinct_names(removed(e, name)),
        !has_name(removed(e, name), name),
        removed(e, name).len() <= e.len(),
{
    let r = removed(e, name);
    if has_name(e, name) {
        let p = position(e, name);
        let last = e.len() - 1;
        assert forall|i: int| 0 <= i < r.len() implies (#[trigger] r[i]).0 != name by {
            if i == p {
                assert(r[i] == e[last]);
                assert(e[last].0 != e[p].0);
            } else {
                assert(r[i] == e[i]);
                assert(e[i].0 != e[p].0);
            }
        }
        assert forall|i: int, j: int|
            0 <= i < r.len() && 0 <= j < r.len() && (#[trigger] r[i]).0 == (#[trigger] r[j]).0
            implies i == j by {
            let si = if i == p {
                last
            } else {
                i
            };
            let sj = if j == p {
                last
            } else {
                j
            };
            assert(r[i] == e[si]);
            assert(r[j] == e[sj]);
            assert(e[si].0 == e[sj].0);
        }
    }
}

/// Appending one spelling and one value under the same name keeps two maps
/// in lock-step.
pub proof fn lemma_append_keeps_aligned(
    names: Entries,
    values: Entries,
    name: Seq<u8>,
    case: Seq<u8>,
    value: Seq<u8>,
)
    requires
        aligned(names, values),
        distinct_names(values),
    ensures
        aligned(appended(names, name, case), appended(values, name, value)),
        distinct_names(appended(values, name, value)),
{
    lemma_aligned_names(names, values, name);
    lemma_appended_distinct(values, name, value);
    let n2 = appended(names, name, case);
    let v2 = appended(values, name, value);
    assert forall|i: int| 0 <= i < n2.len() implies (#[trigger] n2[i]).0 == v2[i].0 && n2[i].1.len()
        == v2[i].1.len() by {
        if i < names.len() {
            assert(names[i].0 == values[i].0);
        }
    }
}

/// Inserting one spelling and one value under the same name keeps two maps
/// in lock-step.
pub proof fn lemma_insert_keeps_aligned(
    names: Entries,
    values: Entries,
    name: Seq<u8>,
    case: Seq<u8>,
    value: Seq<u8>,
)
    requires
        aligned(names, values),
        distinct_names(values),
    ensures
        aligned(inserted(names, name, case), inserted(values, name, value)),
        distinct_names(inserted(values, name, value)),
{
    lemma_aligned_names(names, values, name);
    lemma_inserted_distinct(values, name, value);
    let n2 = inserted(names, name, case);
    let v2 = inserted(values, name, value);
    assert forall|i: int| 0 <= i < n2.len() implies (#[trigger] n2[i]).0 == v2[i].0 && n2[i].1.len()
        == v2[i].1.len() by {
        if i < names.len() {
            assert(names[i].0 == values[i].0);
        }
    }
}

/// Removing the same name from both keeps two maps in lock-step.
pub proof fn lemma_remove_keeps_aligned(names: Entries, values: Entries, name: Seq<u8>)
    requires
        aligned(names, values),
        distinct_names(values),
    ensures
        aligned(removed(names, name), removed(values, name)),
        distinct_names(removed(values, name)),
{
    lemma_aligned_names(names, values, name);
    lemma_removed_distinct(values, name);
    let n2 = removed(names, name);
    let v2 = removed(values, name);
    if has_name(values, name) {
        let p = position(values, name);
        let last = values.len() - 1;
        assert forall|i: int| 0 <= i < n2.len() implies (#[trigger] n2[i]).0 == v2[i].0
            && n2[i].1.len() == v2[i].1.len() by {
            let s = if i == p {
                last
            } else {
                i
            };
            assert(n2[i] == names[s]);
            assert(v2[i] == values[s]);
            assert(names[s].0 == values[s].0);
        }
    }
}

/// After any run of appends, inserts and removes on two empty maps, the
/// casing map and the value map hold the same names in the same order, with
/// as many spellings as values under each, and no name twice.
pub proof fn lemma_ops_keep_aligned(ops: Seq<HeaderOp>)
    ensures
        aligned(apply_ops(ops).0, apply_ops(ops).1),
        distinct_names(apply_ops(ops).1),
    decreases ops.len(),
{
    if ops.len() > 0 {
        lemma_ops_keep_aligned(ops.drop_last());
        let before = apply_ops(ops.drop_last());
        match ops.last() {
            HeaderOp::Append { name, case, value } => {
                lemma_append_keeps_aligned(before.0, before.1, name, case, value);
            },
            HeaderOp::Insert { name, case, value } => {
                lemma_insert_keeps_aligned(before.0, before.1, name, case, value);
            },
            HeaderOp::Remove { name } => {
                lemma_remove_keeps_aligned(before.0, before.1, name);
            },
        }
    }
}

/// Two appends under one name leave both items under it, behind what the
/// name held, in the order in which they came.
pub proof fn lemma_append_twice(e: Entries, name: Seq<u8>, first: Seq<u8>, second: Seq<u8>)
    requires
        distinct_names(e),
    ensures
        items_of(appended(appended(e, name, first), name, second), name) == items_of(e, name).push(
            first,
        ).push(second),
{
    let a = appended(e, name, first);
    lemma_appended_distinct(e, name, first);
    let b = appended(a, name, second);
    lemma_appended_distinct(a, name, second);
    let pa = position(a, name);
    if has_name(e, name) {
        let p = position(e, name);
        assert(a[p].0 == name);
        lemma_position_unique(a, name, p);
    } else {
        assert(a[e.len() as int].0 == name);
        lemma_position_unique(a, name, e.len() as int);
        assert(items_of(e, name).push(first) =~= seq![first]);
    }
    assert(a[pa].1 == items_of(e, name).push(first));
    assert(b[pa].0 == name);
    lemma_position_unique(b, name, pa);
}

/// An insert leaves its item as the only one under the name, whatever the
/// name held before, and every other group as and where it was.
pub proof fn lemma_insert_replaces(e: Entries, name: Seq<u8>, item: Seq<u8>)
    requires
        distinct_names(e),
    ensures
        items_of(inserted(e, name, item), name) == seq![item],
        forall|i: int|
            0 <= i < e.len() && (#[trigger] e[i]).0 != name ==> inserted(e, name, item)[i] == e[i],
{
    let a = inserted(e, name, item);
    lemma_inserted_distinct(e, name, item);
    if has_name(e, name) {
        let p = position(e, name);
        assert(a[p].0 == name);
        lemma_position_unique(a, name, p);
    } else {
        assert(a[e.len() as int].0 == name);
        lemma_position_unique(a, name, e.len() as int);
    }
}

/// Removing a name that is absent changes nothing and finds no item.
pub proof fn lemma_remove_absent(e: Entries, name: Seq<u8>)
    requires
        !has_name(e, name),
    ensures
        removed(e, name) == e,
        first_item(e, name) is None,
{
}

/// Removing a name that is present leaves nothing under it.
pub proof fn lemma_remove_present(e: Entries, name: Seq<u8>)
    requires
        distinct_names(e),
        has_name(e, name),
    ensures
        !has_name(removed(e, name), name),
        items_of(removed(e, name), name) == Seq::<Seq<u8>>::empty(),
        removed(e, name).len() == e.len() - 1,
{
    lemma_removed_distinct(e, name);
}

/// Two maps in lock-step are walked in lock-step: as many pairs, and the
/// same name at each step.
pub proof fn lemma_aligned_flat(names: Entries, values: Entries)
    requires
        aligned(names, values),
    ensures
        flat(names).len() == flat(values).len(),
        forall|k: int|
            0 <= k < flat(names).len() ==> (#[trigger] flat(names)[k]).0 == flat(values)[k].0,
    decreases names.len(),
{
    if names.len() > 0 {
        let n0 = names.drop_last();
        let v0 = values.drop_last();
        assert(aligned(n0, v0)) by {
            assert forall|i: int| 0 <= i < n0.len() implies (#[trigger] n0[i]).0 == v0[i].0
                && n0[i].1.len() == v0[i].1.len() by {
                assert(names[i].0 == values[i].0);
            }
        }
        lemma_aligned_flat(n0, v0);
        let last = names.len() - 1;
        assert(names[last].0 == values[last].0);
        assert forall|k: int| 0 <= k < flat(names).len() implies (#[trigger] flat(names)[k]).0
            == flat(values)[k].0 by {
            if k < flat(n0).len() {
                assert(flat(n0)[k].0 == flat(v0)[k].0);
            }
        }
    }
}

} // verus!

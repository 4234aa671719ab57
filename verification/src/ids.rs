//! Collections keyed by id, read out as lists.

use vstd::prelude::*;
use std::collections::{BTreeMap, HashMap, HashSet};

verus! {

broadcast use {
    vstd::std_specs::hash::group_hash_axioms,
    vstd::std_specs::btree::group_btree_axioms,
};

/// `ids` is in ascending order, each id once.
pub open spec fn ascending(ids: Seq<i64>) -> bool {
    forall|i: int, j: int| 0 <= i < j < ids.len() ==> ids[i] < ids[j]
}

/// `ids` lists the members of `set`, each once.
pub open spec fn lists(ids: Seq<i64>, set: Set<i64>) -> bool {
    ids.no_duplicates() && ids.to_set() == set
}

/// Two ascending lists of the same ids are equal.
pub proof fn lemma_ascending_unique(a: Seq<i64>, b: Seq<i64>)
    requires
        ascending(a),
        ascending(b),
        a.to_set() == b.to_set(),
    ensures
        a == b,
    decreases a.len(),
{
    if a.len() == 0 {
        if b.len() > 0 {
            assert(b.to_set().contains(b[0]));
            assert(a.contains(b[0]));
        }
    } else {
        assert(a.to_set().contains(a.last()));
        assert(b.contains(a.last()));
        assert(b.to_set().contains(b.last()));
        assert(a.contains(b.last()));
        assert(a.last() == b.last());
        assert(a.drop_last().to_set() =~= b.drop_last().to_set()) by {
            assert forall|x: i64| a.drop_last().contains(x) implies b.drop_last().contains(x) by {
                assert(a.contains(x)) by {
                    let i = a.drop_last().index_of(x);
                    assert(a[i] == x);
                }
                assert(a.to_set().contains(x));
                assert(b.contains(x));
                let i = b.index_of(x);
                assert(x < a.last());
                assert(b.drop_last()[i] == x);
            }
            assert forall|x: i64| b.drop_last().contains(x) implies a.drop_last().contains(x) by {
                assert(b.contains(x)) by {
                    let i = b.drop_last().index_of(x);
                    assert(b[i] == x);
                }
                assert(b.to_set().contains(x));
                assert(a.contains(x));
                let i = a.index_of(x);
                assert(x < b.last());
                assert(a.drop_last()[i] == x);
            }
        }
        lemma_ascending_unique(a.drop_last(), b.drop_last());
        assert(a =~= a.drop_last().push(a.last()));
        assert(b =~= b.drop_last().push(b.last()));
    }
}

/// A list of references that the tree map reports as increasing is ascending.
proof fn lemma_increasing_is_ascending(ids: Seq<&i64>)
    requires
        vstd::std_specs::btree::increasing_seq(ids),
    ensures
        ascending(ids.unref()),
{
    broadcast use vstd::laws_eq::group_laws_eq;
    broadcast use vstd::laws_cmp::group_laws_cmp;

    reveal(vstd::laws_eq::obeys_eq_spec_properties);
    reveal(vstd::laws_cmp::obeys_partial_cmp_spec_properties);
    reveal(vstd::laws_cmp::obeys_cmp_partial_ord);
    reveal(vstd::laws_cmp::obeys_cmp_ord);
    assert(vstd::laws_cmp::obeys_cmp::<i64>());
    assert(vstd::laws_cmp::obeys_cmp::<&i64>());
    vstd::std_specs::btree::axiom_increasing_seq_meaning(ids);
    assert forall|i: int, j: int| 0 <= i < j < ids.unref().len() implies ids.unref()[i]
        < ids.unref()[j] by {
        assert(vstd::std_specs::cmp::OrdSpec::cmp_spec(&ids[i], &ids[j]) is Less);
    }
}

/// Lists the keys of `map` in ascending order.
pub(crate) fn ascending_keys<V>(map: &BTreeMap<i64, V>) -> (r: Vec<i64>)
    ensures
        ascending(r@),
        lists(r@, map@.dom()),
{
    let keys = map.keys();
    let ghost all: Seq<i64> = vstd::std_specs::iter::IteratorSpec::remaining(&keys).unref();
    proof {
        lemma_increasing_is_ascending(vstd::std_specs::iter::IteratorSpec::remaining(&keys));
    }
    let mut r: Vec<i64> = Vec::new();
    for key in it: keys
        invariant
            it.seq().unref() == all,
            r@ == all.take(it.index() as int),
    {
        r.push(*key);
    }
    assert(r@ =~= all);
    r
}

/// Lists the keys of `map`, in some order.
pub(crate) fn some_key_order<V>(map: &HashMap<i64, V>) -> (r: Vec<i64>)
    ensures
        lists(r@, map@.dom()),
{
    let keys = map.keys();
    let ghost all: Seq<i64> = vstd::std_specs::iter::IteratorSpec::remaining(&keys).unref();
    let mut r: Vec<i64> = Vec::new();
    for key in it: keys
        invariant
            it.seq().unref() == all,
            r@ == all.take(it.index() as int),
    {
        r.push(*key);
    }
    assert(r@ =~= all);
    r
}

/// Lists the members of `set`, in some order.
pub(crate) fn some_order(set: &HashSet<i64>) -> (r: Vec<i64>)
    ensures
        lists(r@, set@),
{
    let members = set.iter();
    let ghost all: Seq<i64> = vstd::std_specs::iter::IteratorSpec::remaining(&members).unref();
    let mut r: Vec<i64> = Vec::new();
    for id in it: members
        invariant
            it.seq().unref() == all,
            r@ == all.take(it.index() as int),
    {
        r.push(*id);
    }
    assert(r@ =~= all);
    r
}

/// Ascending ids grow from each place to every later one, so that none comes twice.
pub proof fn ascending_ids_grow(ids: Seq<i64>, i: int, j: int)
    requires
        ascending(ids),
        0 <= i < j < ids.len(),
    ensures
        ids[i] < ids[j],
{
}

} // verus!

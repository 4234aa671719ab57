//! The persistent collections of the `im` crate that a pool snapshot is built on.
//!
//! Nothing in this file is proved: each function hands its arguments to one
//! function of `im`, and its contract says over the collection's contents what
//! that function does.

use vstd::prelude::*;

verus! {

/// `im::Vector`, a persistent sequence.
#[verifier::external_type_specification]
#[verifier::external_body]
#[verifier::reject_recursive_types(A)]
pub struct ExVector<A>(im::Vector<A>);

/// `im::HashMap`, a persistent hash map.
#[verifier::external_type_specification]
#[verifier::external_body]
#[verifier::reject_recursive_types(K)]
#[verifier::reject_recursive_types(V)]
#[verifier::reject_recursive_types(S)]
pub struct ExHashMap<K, V, S>(im::HashMap<K, V, S>);

/// The items of a key list, first to last.
pub uninterp spec fn key_list(keys: im::Vector<i64>) -> Seq<i64>;

/// The position recorded for each id.
pub uninterp spec fn position_map(positions: im::HashMap<i64, usize>) -> Map<i64, usize>;

/// `im::Vector::new`: a list with no items.
#[verifier::external_body]
pub(crate) fn keys_new() -> (r: im::Vector<i64>)
    ensures
        key_list(r) == Seq::<i64>::empty(),
{
    im::Vector::new()
}

/// `im::Vector::clone`: a list with the same items.
#[verifier::external_body]
pub(crate) fn keys_clone(keys: &im::Vector<i64>) -> (r: im::Vector<i64>)
    ensures
        key_list(r) == key_list(*keys),
{
    keys.clone()
}

/// `im::Vector::len`: how many items the list has.
#[verifier::external_body]
pub(crate) fn keys_len(keys: &im::Vector<i64>) -> (r: usize)
    ensures
        r == key_list(*keys).len(),
{
    keys.len()
}

/// `im::Vector::get`: the item at `index`, `None` past the end.
#[verifier::external_body]
pub(crate) fn keys_get(keys: &im::Vector<i64>, index: usize) -> (r: Option<i64>)
    ensures
        r == if index < key_list(*keys).len() {
            Some(key_list(*keys)[index as int])
        } else {
            None
        },
{
    keys.get(index).copied()
}

/// `im::Vector::push_back`: appends one item.
#[verifier::external_body]
pub(crate) fn keys_push_back(keys: &mut im::Vector<i64>, id: i64)
    requires
        key_list(*old(keys)).len() < usize::MAX,
    ensures
        key_list(*final(keys)) == key_list(*old(keys)).push(id),
{
    keys.push_back(id)
}

/// `im::Vector::pop_back`: takes the last item off, `None` from an empty list.
#[verifier::external_body]
pub(crate) fn keys_pop_back(keys: &mut im::Vector<i64>) -> (r: Option<i64>)
    ensures
        key_list(*old(keys)).len() == 0 ==> r is None && key_list(*final(keys)) == key_list(
            *old(keys),
        ),
        key_list(*old(keys)).len() > 0 ==> r == Some(key_list(*old(keys)).last()) && key_list(
            *final(keys),
        ) == key_list(*old(keys)).drop_last(),
{
    keys.pop_back()
}

/// `im::Vector::set`: replaces the item at `index` and hands the old one back.
/// It panics past the end.
#[verifier::external_body]
pub(crate) fn keys_set(keys: &mut im::Vector<i64>, index: usize, id: i64) -> (r: i64)
    requires
        index < key_list(*old(keys)).len(),
    ensures
        r == key_list(*old(keys))[index as int],
        key_list(*final(keys)) == key_list(*old(keys)).update(index as int, id),
{
    keys.set(index, id)
}

/// `im::HashMap::new`: a map with no entries.
#[verifier::external_body]
pub(crate) fn positions_new() -> (r: im::HashMap<i64, usize>)
    ensures
        position_map(r).dom() == Set::<i64>::empty(),
{
    im::HashMap::new()
}

/// `im::HashMap::clone`: a map with the same entries.
#[verifier::external_body]
pub(crate) fn positions_clone(positions: &im::HashMap<i64, usize>) -> (r: im::HashMap<i64, usize>)
    ensures
        position_map(r) == position_map(*positions),
{
    positions.clone()
}

/// `ids` is a finite set of `n` ids.
pub open spec fn is_size(n: usize, ids: Set<i64>) -> bool {
    ids.finite() && ids.len() == n
}

/// `im::HashMap::len`: how many entries the map has.
#[verifier::external_body]
pub(crate) fn positions_len(positions: &im::HashMap<i64, usize>) -> (r: usize)
    ensures
        is_size(r, position_map(*positions).dom()),
{
    positions.len()
}

/// `im::HashMap::get`: the value of `id`, `None` where there is none.
#[verifier::external_body]
pub(crate) fn positions_get(positions: &im::HashMap<i64, usize>, id: i64) -> (r: Option<usize>)
    ensures
        r == if position_map(*positions).dom().contains(id) {
            Some(position_map(*positions)[id])
        } else {
            None
        },
{
    positions.get(&id).copied()
}

/// `im::HashMap::insert`: binds `id` to `position` and hands back what it was
/// bound to.
#[verifier::external_body]
pub(crate) fn positions_insert(
    positions: &mut im::HashMap<i64, usize>,
    id: i64,
    position: usize,
) -> (r: Option<usize>)
    ensures
        position_map(*final(positions)) == position_map(*old(positions)).insert(id, position),
        r == if position_map(*old(positions)).dom().contains(id) {
            Some(position_map(*old(positions))[id])
        } else {
            None
        },
{
    positions.insert(id, position)
}

/// `im::HashMap::remove`: unbinds `id` and hands back what it was bound to.
#[verifier::external_body]
pub(crate) fn positions_remove(positions: &mut im::HashMap<i64, usize>, id: i64) -> (r: Option<
    usize,
>)
    ensures
        position_map(*final(positions)) == position_map(*old(positions)).remove(id),
        r == if position_map(*old(positions)).dom().contains(id) {
            Some(position_map(*old(positions))[id])
        } else {
            None
        },
{
    positions.remove(&id)
}

} // verus!

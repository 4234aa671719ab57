//! Checks on values that came from a fetcher or a backend.

use vstd::prelude::*;
use vstd::string::*;
use crate::cacheable::Cacheable;
use crate::error::{BackendError, FetchError, InsertError};
use std::collections::HashSet;
use std::sync::Arc;

verus! {

/// The first value of each id, in order.
pub open spec fn first_of_each<T: Cacheable>(values: Seq<T>) -> Seq<T>
    decreases values.len(),
{
    if values.len() == 0 {
        Seq::empty()
    } else {
        let before = first_of_each(values.drop_last());
        if has_id(values.drop_last(), values.last().spec_id()) {
            before
        } else {
            before.push(values.last())
        }
    }
}

/// One of the values has the id.
pub open spec fn has_id<T: Cacheable>(values: Seq<T>, id: i64) -> bool {
    exists|i: int| 0 <= i < values.len() && (#[trigger] values[i]).spec_id() == id
}

/// Every value has one of the ids.
pub open spec fn all_asked_for<T: Cacheable>(values: Seq<T>, ids: Seq<i64>) -> bool {
    forall|i: int| 0 <= i < values.len() ==> ids.contains((#[trigger] values[i]).spec_id())
}

/// What a fetched batch comes to: the first value of each id, or the error that one of
/// them was not asked for.
pub open spec fn is_checked_batch<T: Cacheable>(
    ids: Seq<i64>,
    cached_type: Seq<char>,
    fetched: Seq<T>,
    r: Result<Vec<T>, FetchError>,
) -> bool {
    if all_asked_for(fetched, ids) {
        r matches Ok(values) && values@ == first_of_each(fetched)
    } else {
        r matches Err(FetchError::IdentityMismatch { cached_type: name }) && name@ == cached_type
    }
}

/// Checks a fetched batch against the ids that were asked for.
pub fn check_fetched_batch<T: Cacheable>(
    ids: &Vec<i64>,
    cached_type: &str,
    fetched: Vec<T>,
) -> (r: Result<Vec<T>, FetchError>)
    ensures
        is_checked_batch(ids@, cached_type@, fetched@, r),
{
    broadcast use vstd::std_specs::hash::group_hash_axioms;

    let mut asked: HashSet<i64> = HashSet::new();
    let mut i: usize = 0;
    while i < ids.len()
        invariant
            i <= ids@.len(),
            forall|id: i64| #[trigger] asked@.contains(id) == ids@.take(i as int).contains(id),
        decreases ids@.len() - i,
    {
        let ghost was = asked@;
        asked.insert(ids[i]);
        assert forall|id: i64| #[trigger] asked@.contains(id) == ids@.take(i + 1).contains(id) by {
            let now = ids@.take(i + 1);
            let before = ids@.take(i as int);
            assert(was.contains(id) == before.contains(id));
            if before.contains(id) {
                let w = choose|w: int| 0 <= w < before.len() && before[w] == id;
                assert(now[w] == id);
            }
            if id == ids@[i as int] {
                assert(now[i as int] == id);
            }
            if now.contains(id) && id != ids@[i as int] {
                let w = choose|w: int| 0 <= w < now.len() && now[w] == id;
                assert(before[w] == id);
            }
        }
        i += 1;
    }
    assert(ids@.take(i as int) =~= ids@);
    let ghost all = fetched@;
    let mut seen: HashSet<i64> = HashSet::new();
    let mut values: Vec<T> = Vec::new();
    for value in it: fetched
        invariant
            it.seq() == all,
            forall|id: i64| #[trigger] asked@.contains(id) == ids@.contains(id),
            all_asked_for(all.take(it.index() as int), ids@),
            forall|id: i64| #[trigger]
                seen@.contains(id) == has_id(all.take(it.index() as int), id),
            values@ == first_of_each(all.take(it.index() as int)),
    {
        let ghost n = it.index() as int;
        let ghost before = all.take(n);
        let ghost now = all.take(n + 1);
        assert(now.drop_last() =~= before);
        assert(now.last() == value);
        let id = value.id();
        if !asked.contains(&id) {
            assert(!ids@.contains(all[n].spec_id()));
            return Err(FetchError::IdentityMismatch { cached_type: cached_type.to_owned() });
        }
        let ghost was = seen@;
        assert(was.contains(id) == has_id(before, id));
        if seen.insert(id) {
            values.push(value);
        }
        assert forall|k: i64| #[trigger] seen@.contains(k) == has_id(now, k) by {
            assert(was.contains(k) == has_id(before, k));
            if has_id(before, k) {
                let w = choose|w: int|
                    0 <= w < before.len() && (#[trigger] before[w]).spec_id() == k;
                assert(now[w].spec_id() == k);
            }
            if k == id {
                assert(now[n].spec_id() == k);
            }
            if has_id(now, k) && k != id {
                let w = choose|w: int| 0 <= w < now.len() && (#[trigger] now[w]).spec_id() == k;
                assert(before[w].spec_id() == k);
            }
        }
        assert forall|k: int| 0 <= k < now.len() implies ids@.contains(
            (#[trigger] now[k]).spec_id(),
        ) by {
            if k < n {
                assert(before[k] == now[k]);
            }
        }
    }
    assert(all.take(all.len() as int) =~= all);
    Ok(values)
}

/// What a lookup of many ids comes to: what was cached and then what was fetched, or the
/// error.
pub open spec fn is_batch_outcome<T>(
    hits: Seq<Arc<T>>,
    inserted: Result<Vec<Arc<T>>, InsertError>,
    r: Result<Vec<Arc<T>>, FetchError>,
) -> bool {
    match inserted {
        Ok(fetched) => r matches Ok(all) && all@ == hits + fetched@,
        Err(err) => r == Err::<Vec<Arc<T>>, FetchError>(FetchError::Insert(err)),
    }
}

/// Settles a lookup of many ids.
pub fn settle_batch<T>(hits: Vec<Arc<T>>, inserted: Result<Vec<Arc<T>>, InsertError>) -> (r: Result<
    Vec<Arc<T>>,
    FetchError,
>)
    ensures
        is_batch_outcome(hits@, inserted, r),
{
    match inserted {
        Ok(fetched) => {
            let ghost more = fetched@;
            let mut all = hits;
            let mut rest = fetched;
            all.append(&mut rest);
            assert(all@ =~= hits@ + more);
            Ok(all)
        },
        Err(err) => Err(FetchError::Insert(err)),
    }
}

/// What a value that the backend gave for `id` comes to: the value, or the error that it
/// has another id.
pub open spec fn is_checked_value<T: Cacheable>(
    id: i64,
    cached_type: Seq<char>,
    value: T,
    r: Result<T, BackendError>,
) -> bool {
    if value.spec_id() == id {
        r == Ok::<T, BackendError>(value)
    } else {
        r matches Err(BackendError::Serialization(text)) && text@
            == "backend returned mismatched id for "@ + cached_type
    }
}

/// Checks a value that the backend gave for `id`.
pub fn check_backend_value<T: Cacheable>(id: &i64, cached_type: &str, value: T) -> (r: Result<
    T,
    BackendError,
>)
    ensures
        is_checked_value(*id, cached_type@, value, r),
{
    if value.id() != *id {
        let mut text = "backend returned mismatched id for ".to_owned();
        text.append(cached_type);
        return Err(BackendError::Serialization(text));
    }
    Ok(value)
}

/// A checked batch holds each id at most once, and no id that was not asked for.
pub proof fn checked_batch_has_each_id_once<T: Cacheable>(values: Seq<T>, ids: Seq<i64>)
    requires
        all_asked_for(values, ids),
    ensures
        all_asked_for(first_of_each(values), ids),
        forall|i: int, j: int|
            0 <= i < j < first_of_each(values).len() ==> (
            #[trigger] first_of_each(values)[i]).spec_id() != (
            #[trigger] first_of_each(values)[j]).spec_id(),
        forall|id: i64| #[trigger] has_id(first_of_each(values), id) == has_id(values, id),
    decreases values.len(),
{
    let kept = first_of_each(values);
    if values.len() > 0 {
        let rest = values.drop_last();
        let last = values.last();
        assert(all_asked_for(rest, ids)) by {
            assert forall|i: int| 0 <= i < rest.len() implies ids.contains(
                (#[trigger] rest[i]).spec_id(),
            ) by {
                assert(values[i] == rest[i]);
            }
        }
        checked_batch_has_each_id_once(rest, ids);
        let before = first_of_each(rest);
        assert(ids.contains(last.spec_id())) by {
            assert(values[values.len() - 1] == last);
        }
        assert(has_id(before, last.spec_id()) == has_id(rest, last.spec_id()));
        assert forall|id: i64| #[trigger] has_id(kept, id) == has_id(values, id) by {
            assert(has_id(before, id) == has_id(rest, id));
            if has_id(values, id) {
                let w = choose|w: int|
                    0 <= w < values.len() && (#[trigger] values[w]).spec_id() == id;
                if w < rest.len() {
                    assert(rest[w].spec_id() == id);
                }
                if has_id(rest, id) {
                    let v = choose|v: int|
                        0 <= v < before.len() && (#[trigger] before[v]).spec_id() == id;
                    assert(kept[v].spec_id() == id);
                } else {
                    assert(kept[before.len() as int].spec_id() == id);
                }
            }
            if has_id(kept, id) {
                let w = choose|w: int| 0 <= w < kept.len() && (#[trigger] kept[w]).spec_id() == id;
                if w < before.len() {
                    assert(before[w].spec_id() == id);
                    let v = choose|v: int|
                        0 <= v < rest.len() && (#[trigger] rest[v]).spec_id() == id;
                    assert(values[v].spec_id() == id);
                } else {
                    assert(values[values.len() - 1].spec_id() == id);
                }
            }
        }
        if !has_id(rest, last.spec_id()) {
            assert forall|i: int, j: int| 0 <= i < j < kept.len() implies (
            #[trigger] kept[i]).spec_id() != (#[trigger] kept[j]).spec_id() by {
                if j == before.len() {
                    assert(before[i] == kept[i]);
                    if kept[i].spec_id() == last.spec_id() {
                        assert(has_id(before, last.spec_id()));
                    }
                } else {
                    assert(before[i].spec_id() != before[j].spec_id());
                }
            }
        }
    }
}

/// Of fetched values the first of each id is kept: a value that comes last is kept where no
/// earlier one has its id, and dropped otherwise.
pub proof fn first_fetched_value_of_an_id_is_kept<T: Cacheable>(values: Seq<T>, value: T)
    ensures
        first_of_each(Seq::<T>::empty()).len() == 0,
        first_of_each(values.push(value)) == if exists|i: int|
            0 <= i < values.len() && (#[trigger] values[i]).spec_id() == value.spec_id() {
            first_of_each(values)
        } else {
            first_of_each(values).push(value)
        },
{
    assert(values.push(value).drop_last() =~= values);
}

/// A batch is refused exactly where one of its values was not asked for.
pub proof fn batches_hold_what_was_asked_for<T: Cacheable>(
    ids: Seq<i64>,
    cached_type: Seq<char>,
    fetched: Seq<T>,
    r: Result<Vec<T>, FetchError>,
)
    requires
        is_checked_batch(ids, cached_type, fetched, r),
    ensures
        r is Err <==> exists|i: int|
            0 <= i < fetched.len() && !ids.contains((#[trigger] fetched[i]).spec_id()),
        r matches Err(e) ==> e is IdentityMismatch,
        r matches Ok(values) ==> values@ == first_of_each(fetched),
{
}

/// A lookup of many ids gives what was cached and then what was fetched; where the fetched
/// values could not be inserted, it fails with that.
pub proof fn lookups_give_hits_and_then_fetched<T>(
    hits: Seq<Arc<T>>,
    fetched: Vec<Arc<T>>,
    err: InsertError,
    taken: Result<Vec<Arc<T>>, FetchError>,
    failed: Result<Vec<Arc<T>>, FetchError>,
)
    requires
        is_batch_outcome(hits, Ok(fetched), taken),
        is_batch_outcome(hits, Err(err), failed),
    ensures
        taken matches Ok(all) && all@.len() == hits.len() + fetched@.len() && all@.take(
            hits.len() as int,
        ) == hits && all@.skip(hits.len() as int) == fetched@,
        failed == Err::<Vec<Arc<T>>, FetchError>(FetchError::Insert(err)),
{
    if let Ok(all) = taken {
        assert(all@.take(hits.len() as int) =~= hits);
        assert(all@.skip(hits.len() as int) =~= fetched@);
    }
}

/// A backend's value is taken exactly where it has the id that was asked for.
pub proof fn backend_values_have_the_id<T: Cacheable>(
    id: i64,
    cached_type: Seq<char>,
    value: T,
    r: Result<T, BackendError>,
)
    requires
        is_checked_value(id, cached_type, value, r),
    ensures
        r is Ok <==> value.spec_id() == id,
        r matches Ok(taken) ==> taken == value,
{
}

} // verus!

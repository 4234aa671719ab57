//! What holds of a pool across its operations.

use vstd::prelude::*;
use crate::cacheable::Cacheable;
use crate::error::InsertError;
use crate::punnu::config::OnConflict;
use crate::punnu::delta::{DeltaApplyStats, DeltaFilter, DeltaResult};
use crate::punnu::events::PunnuEvent;
use crate::punnu::pool::Punnu;
use crate::punnu::refresh::RefreshMode;
use crate::punnu::state::Entry;
use crate::punnu::write::Committed;
use crate::time::{Duration, Instant};
use std::sync::Arc;

verus! {

/// What is inserted is found: unless the insert was refused, a lookup finds
/// the value at any later time before its deadline.
pub proof fn inserted_value_is_found<T: Cacheable>(
    pre: &Punnu<T>,
    post: &Punnu<T>,
    value: Arc<T>,
    ttl: Option<Duration>,
    now: Instant,
    r: Committed<T, Result<Arc<T>, InsertError>>,
    later: Instant,
)
    requires
        pre.wf(),
        Punnu::insert_effect(pre, post, value, ttl, now, r),
        r.result is Ok,
        now <= later,
        !crate::time::reached(crate::time::deadline(now, ttl), later),
    ensures
        crate::punnu::model::live(post.entries(), value.spec_id(), later),
        post.entries()[value.spec_id()].value == value,
{
    pre.lemma_wf();
    let m = pre.entries();
    let id = value.spec_id();
    let entry = Entry {
        value,
        expires_at: crate::time::deadline(now, ttl),
        last_access_epoch: crate::punnu::model::next_epoch(pre.clock()),
    };
    let victims = choose|victims: Seq<i64>| #[trigger]
        crate::punnu::model::insert_outcome(
            m,
            pre.capacity(),
            pre.policy(),
            now,
            entry,
            victims,
            post.entries(),
            r.events@,
        );
    lemma_insert_outcome(m, pre.capacity(), pre.policy(), now, entry, victims, post.entries(), r.events@);
}

/// An insert loses nothing where there is room: unless it was refused, every
/// other entry stays as it was, where the pool was not full or had the id.
pub proof fn insert_with_room_keeps_the_rest<T: Cacheable>(
    pre: &Punnu<T>,
    post: &Punnu<T>,
    value: Arc<T>,
    ttl: Option<Duration>,
    now: Instant,
    r: Committed<T, Result<Arc<T>, InsertError>>,
    other: i64,
)
    requires
        pre.wf(),
        Punnu::insert_effect(pre, post, value, ttl, now, r),
        pre.entries().dom().contains(value.spec_id()) || pre.entries().dom().len()
            < pre.capacity(),
        other != value.spec_id(),
    ensures
        post.entries().dom().contains(other) == pre.entries().dom().contains(other),
        pre.entries().dom().contains(other) ==> post.entries()[other] == pre.entries()[other],
{
    pre.lemma_wf();
    let m = pre.entries();
    if r.result is Ok {
        let id = value.spec_id();
        let entry = Entry {
            value,
            expires_at: crate::time::deadline(now, ttl),
            last_access_epoch: crate::punnu::model::next_epoch(pre.clock()),
        };
        let victims = choose|victims: Seq<i64>| #[trigger]
            crate::punnu::model::insert_outcome(
                m,
                pre.capacity(),
                pre.policy(),
                now,
                entry,
                victims,
                post.entries(),
                r.events@,
            );
        let base = crate::punnu::model::drop_if_expired(m, id, now);
        let written = base.insert(id, entry);
        assert(written.dom() =~= m.dom().insert(id));
        assert(written.dom().len() <= pre.capacity());
        crate::punnu::model::lemma_eviction_run(written, pre.capacity(), Some(id), victims);
        assert(victims =~= Seq::<i64>::empty());
        assert(crate::punnu::model::without(written, victims) =~= written);
    }
}

/// An insert invents nothing: what the pool holds afterwards is the new entry
/// and entries that it held before. No event tells of the new entry's eviction.
pub proof fn insert_adds_one_entry<T: Cacheable>(
    pre: &Punnu<T>,
    post: &Punnu<T>,
    value: Arc<T>,
    ttl: Option<Duration>,
    now: Instant,
    r: Committed<T, Result<Arc<T>, InsertError>>,
)
    requires
        pre.wf(),
        Punnu::insert_effect(pre, post, value, ttl, now, r),
    ensures
        forall|id: i64| #[trigger]
            post.entries().dom().contains(id) && id != value.spec_id()
                ==> pre.entries().dom().contains(id) && post.entries()[id] == pre.entries()[id],
        forall|i: int|
            0 <= i < r.events@.len() ==> ((#[trigger] r.events@[i]) matches PunnuEvent::Invalidate {
                id,
                reason,
            } ==> id != value.spec_id()),
{
    pre.lemma_wf();
    if r.result is Ok {
        let entry = Entry {
            value,
            expires_at: crate::time::deadline(now, ttl),
            last_access_epoch: crate::punnu::model::next_epoch(pre.clock()),
        };
        let victims = choose|victims: Seq<i64>| #[trigger]
            crate::punnu::model::insert_outcome(
                pre.entries(),
                pre.capacity(),
                pre.policy(),
                now,
                entry,
                victims,
                post.entries(),
                r.events@,
            );
        lemma_insert_outcome(
            pre.entries(),
            pre.capacity(),
            pre.policy(),
            now,
            entry,
            victims,
            post.entries(),
            r.events@,
        );
        assert forall|i: int| 0 <= i < r.events@.len() implies
            ((#[trigger] r.events@[i]) matches PunnuEvent::Invalidate {
            id,
            reason,
        } ==> id != value.spec_id()) by {
            if i < victims.len() {
                assert(victims.contains(victims[i]));
            }
        }
    }
}

/// What one write leaves behind.
proof fn lemma_insert_outcome<T: Cacheable>(
    m: Map<i64, Entry<T>>,
    capacity: usize,
    policy: OnConflict,
    now: Instant,
    entry: Entry<T>,
    victims: Seq<i64>,
    post: Map<i64, Entry<T>>,
    events: Seq<PunnuEvent<T>>,
)
    requires
        crate::punnu::model::keyed(m),
        capacity >= 1,
        crate::punnu::model::insert_outcome(m, capacity, policy, now, entry, victims, post, events),
    ensures
        !victims.contains(entry.value.spec_id()),
        !entry.expired(now) ==> post.dom().contains(entry.value.spec_id())
            && post[entry.value.spec_id()] == entry,
        forall|id: i64| #[trigger]
            post.dom().contains(id) && id != entry.value.spec_id() ==> m.dom().contains(id)
                && post[id] == m[id],
{
    let id = entry.value.spec_id();
    let base = crate::punnu::model::drop_if_expired(m, id, now);
    let written = base.insert(id, entry);
    assert(crate::punnu::model::keyed(written));
    crate::punnu::model::lemma_make_room(written, capacity, now);
    let roomy = crate::punnu::model::make_room(written, capacity, now);
    crate::punnu::model::lemma_eviction_run(roomy, capacity, Some(id), victims);
    if !entry.expired(now) {
        assert(crate::punnu::model::live(written, id, now));
        assert(roomy.dom().contains(id));
    }
}

/// The item that a delta or a refresh writes for an id is the last one of that
/// id.
pub proof fn last_item_of_an_id_wins<T: Cacheable>(items: Seq<T>, dropped: Set<i64>, i: int)
    requires
        0 <= i < items.len(),
        !dropped.contains(items[i].spec_id()),
        forall|j: int| i < j < items.len()
            ==> (#[trigger] items[j]).spec_id() != items[i].spec_id(),
    ensures
        crate::punnu::model::latest(items, dropped).dom().contains(items[i].spec_id()),
        *crate::punnu::model::latest(items, dropped)[items[i].spec_id()] == items[i],
    decreases items.len(),
{
    let front = items.drop_last();
    if i < items.len() - 1 {
        assert(front[i] == items[i]);
        assert forall|j: int| i < j < front.len() implies (#[trigger] front[j]).spec_id()
            != front[i].spec_id() by {
            assert(front[j] == items[j]);
        }
        last_item_of_an_id_wins(front, dropped, i);
        assert(items[items.len() - 1].spec_id() != items[i].spec_id());
    }
}

/// The ids that are written are those of the items, without the dropped ones.
proof fn lemma_latest_ids<T: Cacheable>(items: Seq<T>, dropped: Set<i64>)
    ensures
        forall|id: i64| #[trigger]
            crate::punnu::model::latest(items, dropped).dom().contains(id) ==> !dropped.contains(id)
                && crate::punnu::model::latest(items, dropped)[id].spec_id() == id,
    decreases items.len(),
{
    if items.len() > 0 {
        lemma_latest_ids(items.drop_last(), dropped);
        let before = crate::punnu::model::latest(items.drop_last(), dropped);
        let after = crate::punnu::model::latest(items, dropped);
        assert forall|id: i64| #[trigger] after.dom().contains(id) implies !dropped.contains(id)
            && after[id].spec_id() == id by {
            if id != items.last().spec_id() {
                assert(before.dom().contains(id));
            }
        }
    }
}

/// What writing several items leaves behind.
proof fn lemma_accept<T: Cacheable, S: DeltaFilter<T>>(
    m: Map<i64, Entry<T>>,
    clock: u64,
    items: Map<i64, Arc<T>>,
    ids: Seq<i64>,
    filter: S,
    policy: OnConflict,
    ttl: Option<Duration>,
    now: Instant,
)
    requires
        crate::punnu::model::keyed(m),
        forall|id: i64| #[trigger] items.dom().contains(id) ==> items[id].spec_id() == id,
        forall|i: int| 0 <= i < ids.len() ==> items.dom().contains(#[trigger] ids[i]),
    ensures
        ({
            let a = crate::punnu::model::accept(m, clock, items, ids, filter, policy, ttl, now);
            &&& crate::punnu::model::keyed(a.entries)
            &&& forall|id: i64|
                !ids.contains(id)
                    ==> ((#[trigger] a.entries.dom().contains(id)) == m.dom().contains(
                    id,
                ) && (m.dom().contains(id) ==> a.entries[id] == m[id]))
            &&& forall|id: i64| #[trigger]
                a.entries.dom().contains(id) ==> m.dom().contains(id) || ids.contains(id)
        }),
    decreases ids.len(),
{
    if ids.len() > 0 {
        let front = ids.drop_last();
        let id = ids.last();
        assert forall|i: int| 0 <= i < front.len() implies items.dom().contains(
            #[trigger] front[i],
        ) by {
            assert(front[i] == ids[i]);
        }
        lemma_accept(m, clock, items, front, filter, policy, ttl, now);
        assert(items.dom().contains(ids[ids.len() - 1]));
        let before = crate::punnu::model::accept(m, clock, items, front, filter, policy, ttl, now);
        let after = crate::punnu::model::accept(m, clock, items, ids, filter, policy, ttl, now);
        assert forall|k: i64| ids.contains(k) == (front.contains(k) || k == id) by {
            if front.contains(k) {
                let i = front.index_of(k);
                assert(ids[i] == k);
            }
            if k == id {
                assert(ids[ids.len() - 1] == k);
            }
            if ids.contains(k) && k != id {
                let i = ids.index_of(k);
                assert(front[i] == k);
            }
        }
        assert forall|k: i64| !ids.contains(k) implies ((#[trigger] after.entries.dom().contains(k))
            == m.dom().contains(k) && (m.dom().contains(k) ==> after.entries[k] == m[k])) by {
            assert(before.entries.dom().contains(k) == m.dom().contains(k));
        }
        assert forall|k: i64| #[trigger] after.entries.dom().contains(k) implies m.dom().contains(k)
            || ids.contains(k) by {
            if k != id {
                assert(before.entries.dom().contains(k));
            }
        }
    }
}

/// A tombstone wins: no id that a delta deletes is resident afterwards, not
/// even where the delta also has an item for it.
pub proof fn tombstones_win<T: Cacheable, S: DeltaFilter<T>>(
    pre: &Punnu<T>,
    post: &Punnu<T>,
    delta: DeltaResult<T>,
    filter: S,
    now: Instant,
    r: Committed<T, DeltaApplyStats>,
    id: i64,
)
    requires
        pre.wf(),
        Punnu::delta_effect(pre, post, delta, filter, now, r),
        delta.tombstones@.contains(id),
    ensures
        !post.entries().dom().contains(id),
{
    let items = crate::punnu::model::latest(delta.items@, delta.tombstones@);
    let (ids, buried, victims) = choose|ids: Seq<i64>, buried: Seq<i64>, victims: Seq<i64>| #[trigger]
        crate::punnu::model::delta_outcome(
            pre.entries(),
            pre.clock(),
            pre.settings(),
            now,
            items,
            delta.tombstones@,
            filter,
            ids,
            buried,
            victims,
            post.entries(),
            r.events@,
            r.result,
            post.clock(),
        );
    let a = crate::punnu::model::accept(
        pre.entries(),
        pre.clock(),
        items,
        ids,
        filter,
        pre.policy(),
        pre.settings().default_ttl,
        now,
    );
    assert(!a.entries.remove_keys(delta.tombstones@).dom().contains(id));
}

/// Absence deletes nothing: a live entry that a delta has neither an item nor a
/// tombstone for stays as it was, where the delta evicts nothing visible.
pub proof fn absence_from_a_delta_deletes_nothing<T: Cacheable, S: DeltaFilter<T>>(
    pre: &Punnu<T>,
    post: &Punnu<T>,
    delta: DeltaResult<T>,
    filter: S,
    now: Instant,
    r: Committed<T, DeltaApplyStats>,
    id: i64,
)
    requires
        pre.wf(),
        Punnu::delta_effect(pre, post, delta, filter, now, r),
        crate::punnu::model::live(pre.entries(), id, now),
        !delta.tombstones@.contains(id),
        forall|i: int| 0 <= i < delta.items@.len() ==> (#[trigger] delta.items@[i]).spec_id() != id,
        r.result.lru_evictions == 0,
    ensures
        post.entries().dom().contains(id),
        post.entries()[id] == pre.entries()[id],
{
    pre.lemma_wf();
    let m = pre.entries();
    let items = crate::punnu::model::latest(delta.items@, delta.tombstones@);
    let (ids, buried, victims) = choose|ids: Seq<i64>, buried: Seq<i64>, victims: Seq<i64>| #[trigger]
        crate::punnu::model::delta_outcome(
            m,
            pre.clock(),
            pre.settings(),
            now,
            items,
            delta.tombstones@,
            filter,
            ids,
            buried,
            victims,
            post.entries(),
            r.events@,
            r.result,
            post.clock(),
        );
    let a = crate::punnu::model::accept(
        m,
        pre.clock(),
        items,
        ids,
        filter,
        pre.policy(),
        pre.settings().default_ttl,
        now,
    );
    lemma_latest_ids(delta.items@, delta.tombstones@);
    lemma_unmentioned_is_not_latest(delta.items@, delta.tombstones@, id);
    assert forall|i: int| 0 <= i < ids.len() implies items.dom().contains(#[trigger] ids[i]) by {
        assert(ids.to_set().contains(ids[i]));
    }
    lemma_accept(
        m,
        pre.clock(),
        items,
        ids,
        filter,
        pre.policy(),
        pre.settings().default_ttl,
        now,
    );
    assert(!ids.contains(id)) by {
        if ids.contains(id) {
            assert(ids.to_set().contains(id));
        }
    }
    assert(a.entries.dom().contains(id));
    let buried_map = a.entries.remove_keys(delta.tombstones@);
    assert(crate::punnu::model::keyed(buried_map)) by {
        assert(buried_map.dom().subset_of(a.entries.dom()));
        vstd::set_lib::lemma_set_subset_finite(a.entries.dom(), buried_map.dom());
    }
    crate::punnu::model::lemma_make_room(buried_map, pre.capacity(), now);
    assert(crate::punnu::model::live(buried_map, id, now));
    lemma_live_ids_member(m, victims, now, id);
}

/// An id that no item has is not among the latest items.
proof fn lemma_unmentioned_is_not_latest<T: Cacheable>(
    items: Seq<T>,
    dropped: Set<i64>,
    id: i64,
)
    requires
        forall|i: int| 0 <= i < items.len() ==> (#[trigger] items[i]).spec_id() != id,
    ensures
        !crate::punnu::model::latest(items, dropped).dom().contains(id),
    decreases items.len(),
{
    if items.len() > 0 {
        let front = items.drop_last();
        assert forall|i: int| 0 <= i < front.len() implies
            (#[trigger] front[i]).spec_id() != id by {
            assert(front[i] == items[i]);
        }
        lemma_unmentioned_is_not_latest(front, dropped, id);
        assert(items[items.len() - 1].spec_id() != id);
    }
}

/// A live id that is listed is among the live ids of the list.
proof fn lemma_live_ids_member<T>(m: Map<i64, Entry<T>>, ids: Seq<i64>, now: Instant, id: i64)
    ensures
        ids.contains(id) && crate::punnu::model::live(m, id, now)
            ==> crate::punnu::model::live_ids(m, ids, now).contains(id),
    decreases ids.len(),
{
    if ids.contains(id) && crate::punnu::model::live(m, id, now) {
        let front = ids.drop_last();
        let before = crate::punnu::model::live_ids(m, front, now);
        let after = crate::punnu::model::live_ids(m, ids, now);
        if ids.last() == id {
            assert(after[before.len() as int] == id);
        } else {
            let i = ids.index_of(id);
            assert(front[i] == id);
            lemma_live_ids_member(m, front, now, id);
            let j = before.index_of(id);
            assert(after[j] == id);
        }
    }
}

/// A replacing refresh leaves only what was fetched.
pub proof fn replacing_refresh_keeps_only_fetched<T: Cacheable>(
    pre: &Punnu<T>,
    post: &Punnu<T>,
    items: Seq<T>,
    now: Instant,
    r: Committed<T, ()>,
    id: i64,
)
    requires
        pre.wf(),
        Punnu::refresh_effect(pre, post, items, RefreshMode::Replace, now, r),
        post.entries().dom().contains(id),
    ensures
        exists|i: int| 0 <= i < items.len() && (#[trigger] items[i]).spec_id() == id,
{
    pre.lemma_wf();
    let m = pre.entries();
    let fetched = crate::punnu::model::latest(items, Set::empty());
    let (ids, victims) = choose|ids: Seq<i64>, victims: Seq<i64>| #[trigger]
        crate::punnu::model::refresh_outcome(
            m,
            pre.order(),
            pre.clock(),
            pre.settings(),
            now,
            fetched,
            RefreshMode::Replace,
            ids,
            victims,
            post.entries(),
            r.events@,
            post.clock(),
        );
    let kept = m.restrict(fetched.dom());
    assert(kept.dom().subset_of(m.dom()));
    vstd::set_lib::lemma_set_subset_finite(m.dom(), kept.dom());
    assert(crate::punnu::model::keyed(kept));
    lemma_latest_ids(items, Set::empty());
    assert forall|i: int| 0 <= i < ids.len() implies fetched.dom().contains(#[trigger] ids[i]) by {
        assert(ids.to_set().contains(ids[i]));
    }
    let all = crate::punnu::delta::AcceptAll {  };
    lemma_accept(
        kept,
        pre.clock(),
        fetched,
        ids,
        all,
        pre.policy(),
        pre.settings().default_ttl,
        now,
    );
    let a = crate::punnu::model::accept(
        kept,
        pre.clock(),
        fetched,
        ids,
        all,
        pre.policy(),
        pre.settings().default_ttl,
        now,
    );
    crate::punnu::model::lemma_make_room(a.entries, pre.capacity(), now);
    assert(a.entries.dom().contains(id));
    assert(fetched.dom().contains(id)) by {
        if !kept.dom().contains(id) {
            assert(ids.contains(id));
            let i = ids.index_of(id);
            assert(fetched.dom().contains(ids[i]));
        }
    }
    if forall|i: int| 0 <= i < items.len() ==> (#[trigger] items[i]).spec_id() != id {
        lemma_unmentioned_is_not_latest(items, Set::empty(), id);
    }
}

/// An upserting refresh deletes nothing: an entry that was not fetched stays
/// as it was, unless it was evicted.
pub proof fn upserting_refresh_keeps_the_rest<T: Cacheable>(
    pre: &Punnu<T>,
    post: &Punnu<T>,
    items: Seq<T>,
    now: Instant,
    r: Committed<T, ()>,
    id: i64,
)
    requires
        pre.wf(),
        Punnu::refresh_effect(pre, post, items, RefreshMode::UpsertOnly, now, r),
        crate::punnu::model::live(pre.entries(), id, now),
        forall|i: int| 0 <= i < items.len() ==> (#[trigger] items[i]).spec_id() != id,
        !r.events@.contains(
            PunnuEvent::Invalidate {
                id,
                reason: crate::punnu::events::EventReason::spec_lru_evict(),
            },
        ),
    ensures
        post.entries().dom().contains(id),
        post.entries()[id] == pre.entries()[id],
{
    pre.lemma_wf();
    let m = pre.entries();
    let fetched = crate::punnu::model::latest(items, Set::empty());
    let (ids, victims) = choose|ids: Seq<i64>, victims: Seq<i64>| #[trigger]
        crate::punnu::model::refresh_outcome(
            m,
            pre.order(),
            pre.clock(),
            pre.settings(),
            now,
            fetched,
            RefreshMode::UpsertOnly,
            ids,
            victims,
            post.entries(),
            r.events@,
            post.clock(),
        );
    lemma_latest_ids(items, Set::empty());
    lemma_unmentioned_is_not_latest(items, Set::empty(), id);
    assert forall|i: int| 0 <= i < ids.len() implies fetched.dom().contains(#[trigger] ids[i]) by {
        assert(ids.to_set().contains(ids[i]));
    }
    let all = crate::punnu::delta::AcceptAll {  };
    lemma_accept(
        m,
        pre.clock(),
        fetched,
        ids,
        all,
        pre.policy(),
        pre.settings().default_ttl,
        now,
    );
    let a = crate::punnu::model::accept(
        m,
        pre.clock(),
        fetched,
        ids,
        all,
        pre.policy(),
        pre.settings().default_ttl,
        now,
    );
    assert(!ids.contains(id)) by {
        if ids.contains(id) {
            assert(ids.to_set().contains(id));
        }
    }
    assert(a.entries.dom().contains(id));
    crate::punnu::model::lemma_make_room(a.entries, pre.capacity(), now);
    assert(crate::punnu::model::live(a.entries, id, now));
    lemma_live_ids_member(m, victims, now, id);
    if victims.contains(id) {
        let evicted = crate::punnu::model::live_ids(m, victims, now);
        let reason = crate::punnu::events::EventReason::spec_lru_evict();
        let j = evicted.index_of(id);
        assert(crate::punnu::model::invalidations::<T>(evicted, reason)[j]
            == (PunnuEvent::<T>::Invalidate { id, reason }));
        assert(r.events@[j] == (PunnuEvent::<T>::Invalidate { id, reason }));
    }
}

/// A sweep removes nothing that is live.
pub proof fn sweep_spares_live_entries<T>(
    m: Map<i64, Entry<T>>,
    candidates: Seq<i64>,
    now: Instant,
    id: i64,
)
    requires
        crate::punnu::model::live(m, id, now),
    ensures
        !crate::punnu::model::expired_among(m, candidates, now).contains(id),
        crate::punnu::model::without(
            m,
            crate::punnu::model::expired_among(m, candidates, now),
        ).dom().contains(id),
    decreases candidates.len(),
{
    let gone = crate::punnu::model::expired_among(m, candidates, now);
    if candidates.len() > 0 {
        sweep_spares_live_entries(m, candidates.drop_last(), now, id);
        let before = crate::punnu::model::expired_among(m, candidates.drop_last(), now);
        if gone.contains(id) {
            let i = gone.index_of(id);
            if i < before.len() {
                assert(before[i] == id);
            }
        }
    }
}

/// A sweep over all ids leaves no expired entry.
pub proof fn full_sweep_leaves_no_expired_entry<T>(
    m: Map<i64, Entry<T>>,
    candidates: Seq<i64>,
    now: Instant,
    id: i64,
)
    requires
        candidates.contains(id),
        m.dom().contains(id),
        m[id].expired(now),
    ensures
        crate::punnu::model::expired_among(m, candidates, now).contains(id),
    decreases candidates.len(),
{
    let front = candidates.drop_last();
    let before = crate::punnu::model::expired_among(m, front, now);
    let after = crate::punnu::model::expired_among(m, candidates, now);
    if candidates.last() == id {
        if !before.contains(id) {
            assert(after[before.len() as int] == id);
        } else {
            let i = before.index_of(id);
            assert(after[i] == id);
        }
    } else {
        let i = candidates.index_of(id);
        assert(front[i] == id);
        full_sweep_leaves_no_expired_entry(m, front, now, id);
        let j = before.index_of(id);
        assert(after[j] == id);
    }
}

/// A lookup never finds what is expired, and the ids it reports missing are
/// exactly those of the request that are not live.
pub proof fn missing_ids_are_those_not_live<T>(
    m: Map<i64, Entry<T>>,
    ids: Seq<i64>,
    now: Instant,
    id: i64,
)
    ensures
        crate::punnu::model::missing_ids(m, ids, now).contains(id) <==> ids.contains(id)
            && !crate::punnu::model::live(m, id, now),
        crate::punnu::model::missing_ids(m, ids, now).no_duplicates(),
    decreases ids.len(),
{
    if ids.len() > 0 {
        let front = ids.drop_last();
        missing_ids_are_those_not_live(m, front, now, id);
        missing_ids_are_those_not_live(m, front, now, ids.last());
        let before = crate::punnu::model::missing_ids(m, front, now);
        let after = crate::punnu::model::missing_ids(m, ids, now);
        assert(ids.contains(id) == (front.contains(id) || id == ids.last())) by {
            if front.contains(id) {
                let i = front.index_of(id);
                assert(ids[i] == id);
            }
            if id == ids.last() {
                assert(ids[ids.len() - 1] == id);
            }
            if ids.contains(id) && id != ids.last() {
                let i = ids.index_of(id);
                assert(front[i] == id);
            }
        }
        if after.len() > before.len() {
            assert(after == before.push(ids.last()));
            if before.contains(id) {
                let i = before.index_of(id);
                assert(after[i] == id);
            }
            if id == ids.last() {
                assert(after[before.len() as int] == id);
            }
            if after.contains(id) && id != ids.last() {
                let i = after.index_of(id);
                assert(before[i] == id);
            }
        }
    }
}

} // verus!

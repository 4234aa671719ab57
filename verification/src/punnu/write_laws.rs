//! What a write leaves behind, told by the values, the deadlines and the events alone.

use vstd::prelude::*;
use crate::cacheable::Cacheable;
use crate::error::InsertError;
use crate::punnu::config::OnConflict;
use crate::punnu::delta::{AcceptAll, DeltaApplyStats, DeltaFilter, DeltaResult, KeepNewer};
use crate::punnu::events::{EventReason, PunnuEvent};
use crate::punnu::pool::{FetchManyInsertResult, Punnu};
use crate::punnu::refresh::RefreshMode;
use crate::punnu::state::Entry;
use crate::punnu::write::Committed;
use crate::time::{Duration, Instant};
use crate::watermark::{DeltaSyncCacheable, MonotonicWatermark};
use std::sync::Arc;

verus! {

/// `id` has an entry whose deadline is still to come.
pub open spec fn can_be_read<T>(m: Map<i64, Entry<T>>, id: i64, now: Instant) -> bool {
    m.dom().contains(id) && (m[id].expires_at matches Some(t) ==> now < t)
}

/// `expires_at` is when a time to live that began at `now` has passed: never without one,
/// nor where the clock ends first.
pub open spec fn ends_after(now: Instant, ttl: Option<Duration>, expires_at: Option<Instant>) -> bool {
    match expires_at {
        Some(t) => ttl matches Some(d) && t == now + d,
        None => ttl matches Some(d) ==> now + d > u128::MAX,
    }
}

/// Live entries are those that can be read.
pub proof fn live_entries_can_be_read<T>(m: Map<i64, Entry<T>>, id: i64, now: Instant)
    ensures
        crate::punnu::model::live(m, id, now) <==> can_be_read(m, id, now),
{
}

/// An insert is refused exactly where the pool rejects conflicts and the id can be read;
/// then nothing changes and nothing is told.
pub proof fn insert_is_refused_on_conflict_only<T: Cacheable>(
    pre: &Punnu<T>,
    post: &Punnu<T>,
    value: Arc<T>,
    ttl: Option<Duration>,
    now: Instant,
    r: Committed<T, Result<Arc<T>, InsertError>>,
)
    requires
        pre.wf(),
        Punnu::insert_effect(pre, post, value, ttl, now, r),
    ensures
        r.result is Err <==> pre.settings().on_conflict == OnConflict::Reject && can_be_read(
            pre.entries(),
            value.spec_id(),
            now,
        ),
        r.result matches Ok(kept) ==> kept == value,
        r.result is Err ==> post.entries() == pre.entries() && r.events@.len() == 0,
        post.settings() == pre.settings(),
{
}

/// What was inserted is resident with the value, the deadline that its time to live gives
/// it, and the newest epoch.
pub proof fn inserted_entry_is_as_given<T: Cacheable>(
    pre: &Punnu<T>,
    post: &Punnu<T>,
    value: Arc<T>,
    ttl: Option<Duration>,
    now: Instant,
    r: Committed<T, Result<Arc<T>, InsertError>>,
)
    requires
        pre.wf(),
        Punnu::insert_effect(pre, post, value, ttl, now, r),
        r.result is Ok,
        ttl != Some(0u128),
    ensures
        post.entries().dom().contains(value.spec_id()),
        post.entries()[value.spec_id()].value == value,
        ends_after(now, ttl, post.entries()[value.spec_id()].expires_at),
        pre.clock() < u64::MAX ==> post.entries()[value.spec_id()].last_access_epoch == pre.clock()
            + 1,
        post.clock() == post.entries()[value.spec_id()].last_access_epoch,
{
    pre.lemma_wf();
    let entry = Entry {
        value,
        expires_at: crate::time::deadline(now, ttl),
        last_access_epoch: crate::punnu::model::next_epoch(pre.clock()),
    };
    let victims = choose|victims: Seq<i64>| #[trigger]
        crate::punnu::model::insert_outcome(
            pre.entries(),
            pre.capacity(),
            pre.policy(),
            now,
            entry,
            victims,
            post.entries(),
            r.events@,
        );
    let id = value.spec_id();
    let base = crate::punnu::model::drop_if_expired(pre.entries(), id, now);
    let written = base.insert(id, entry);
    assert(crate::punnu::model::keyed(written));
    crate::punnu::model::lemma_make_room(written, pre.capacity(), now);
    let roomy = crate::punnu::model::make_room(written, pre.capacity(), now);
    crate::punnu::model::lemma_eviction_run(roomy, pre.capacity(), Some(id), victims);
    assert(crate::punnu::model::live(written, id, now));
    assert(roomy.dom().contains(id));
}

/// The last event of an insert tells of the write: of an update, with both values, where
/// the pool updates and the id could be read, and of an insert otherwise.
pub proof fn insert_tells_of_the_write_last<T: Cacheable>(
    pre: &Punnu<T>,
    post: &Punnu<T>,
    value: Arc<T>,
    ttl: Option<Duration>,
    now: Instant,
    r: Committed<T, Result<Arc<T>, InsertError>>,
)
    requires
        pre.wf(),
        Punnu::insert_effect(pre, post, value, ttl, now, r),
        r.result is Ok,
    ensures
        r.events@.len() > 0,
        r.events@.last() == (if pre.settings().on_conflict == OnConflict::Update && can_be_read(
            pre.entries(),
            value.spec_id(),
            now,
        ) {
            PunnuEvent::Update { old: pre.entries()[value.spec_id()].value, new: value }
        } else {
            PunnuEvent::Insert { value }
        }),
{
}

/// The events before the last tell of evictions: each of an entry that was there and is
/// gone, and every readable entry that is gone is told of. They stop when the pool is just
/// full.
pub proof fn insert_tells_of_every_eviction<T: Cacheable>(
    pre: &Punnu<T>,
    post: &Punnu<T>,
    value: Arc<T>,
    ttl: Option<Duration>,
    now: Instant,
    r: Committed<T, Result<Arc<T>, InsertError>>,
)
    requires
        pre.wf(),
        Punnu::insert_effect(pre, post, value, ttl, now, r),
        r.result is Ok,
    ensures
        forall|i: int| 0 <= i < r.events@.len() - 1 ==> ((#[trigger] r.events@[i]) matches
            PunnuEvent::Invalidate { id, reason } && reason is LruEvict && id != value.spec_id()
            && pre.entries().dom().contains(id) && !post.entries().dom().contains(id)),
        forall|x: i64|
            #![trigger post.entries().dom().contains(x)]
            can_be_read(pre.entries(), x, now) && !post.entries().dom().contains(x) && x
                != value.spec_id() ==> exists|i: int|
                0 <= i < r.events@.len() - 1 && ((#[trigger] r.events@[i]) matches
                    PunnuEvent::Invalidate { id, reason } && id == x),
        r.events@.len() > 1 ==> post.entries().dom().len() == pre.capacity(),
        post.entries().dom().len() <= pre.capacity(),
{
    pre.lemma_wf();
    let entry = Entry {
        value,
        expires_at: crate::time::deadline(now, ttl),
        last_access_epoch: crate::punnu::model::next_epoch(pre.clock()),
    };
    let victims = choose|victims: Seq<i64>| #[trigger]
        crate::punnu::model::insert_outcome(
            pre.entries(),
            pre.capacity(),
            pre.policy(),
            now,
            entry,
            victims,
            post.entries(),
            r.events@,
        );
    let id = value.spec_id();
    let base = crate::punnu::model::drop_if_expired(pre.entries(), id, now);
    let written = base.insert(id, entry);
    assert(crate::punnu::model::keyed(written));
    crate::punnu::model::lemma_make_room(written, pre.capacity(), now);
    let roomy = crate::punnu::model::make_room(written, pre.capacity(), now);
    crate::punnu::model::lemma_eviction_run(roomy, pre.capacity(), Some(id), victims);
    assert forall|i: int| 0 <= i < r.events@.len() - 1 implies ((#[trigger] r.events@[i]) matches
        PunnuEvent::Invalidate { id: gone, reason } && reason is LruEvict && gone
        != value.spec_id() && pre.entries().dom().contains(gone)
        && !post.entries().dom().contains(gone)) by {
        assert(victims.contains(victims[i]));
        assert(victims.to_set().contains(victims[i]));
        assert(roomy.dom().contains(victims[i]));
    }
    assert forall|x: i64|
        #![trigger post.entries().dom().contains(x)]
        can_be_read(pre.entries(), x, now) && !post.entries().dom().contains(x) && x
            != value.spec_id() implies exists|i: int|
        0 <= i < r.events@.len() - 1 && ((#[trigger] r.events@[i]) matches PunnuEvent::Invalidate {
            id: gone,
            reason,
        } && gone == x) by {
        assert(crate::punnu::model::live(written, x, now));
        assert(roomy.dom().contains(x));
        assert(victims.contains(x));
        let i = victims.index_of(x);
        assert(r.events@[i] == (PunnuEvent::<T>::Invalidate {
            id: victims[i],
            reason: EventReason::spec_lru_evict(),
        }));
    }
}

/// An entry that was dropped is gone and no other is touched. It counts and is told of
/// where it could be read.
pub proof fn invalidation_drops_one_entry<T: Cacheable>(
    pre: &Punnu<T>,
    post: &Punnu<T>,
    id: i64,
    reason: EventReason,
    now: Instant,
    r: Committed<T, bool>,
    other: i64,
)
    requires
        pre.wf(),
        Punnu::invalidate_effect(pre, post, id, reason, now, r),
        other != id,
    ensures
        !post.entries().dom().contains(id),
        post.entries().dom().contains(other) == pre.entries().dom().contains(other),
        pre.entries().dom().contains(other) ==> post.entries()[other] == pre.entries()[other],
        r.result == can_be_read(pre.entries(), id, now),
        r.result ==> r.events@.len() == 1 && r.events@[0] == (PunnuEvent::<T>::Invalidate {
            id,
            reason,
        }),
        !r.result ==> r.events@.len() == 0,
{
}

/// What the entry of one id becomes when items are written: `b` are the entries that its
/// item meets.
pub open spec fn item_met<T: Cacheable, S: DeltaFilter<T>>(
    m: Map<i64, Entry<T>>,
    b: Map<i64, Entry<T>>,
    after: Map<i64, Entry<T>>,
    id: i64,
    value: Arc<T>,
    filter: S,
    policy: OnConflict,
    ttl: Option<Duration>,
    now: Instant,
) -> bool {
    &&& b.dom().contains(id) == can_be_read(m, id, now)
    &&& b.dom().contains(id) ==> b[id] == m[id]
    &&& if b.dom().contains(id) && policy == OnConflict::Reject || filter.skips(b, id, *value) {
        &&& after.dom().contains(id) == b.dom().contains(id)
        &&& after.dom().contains(id) ==> after[id] == m[id]
    } else {
        &&& after.dom().contains(id)
        &&& after[id].value == value
        &&& ends_after(now, ttl, after[id].expires_at)
    }
}

proof fn lemma_item_met<T: Cacheable, S: DeltaFilter<T>>(
    m: Map<i64, Entry<T>>,
    clock: u64,
    items: Map<i64, Arc<T>>,
    ids: Seq<i64>,
    filter: S,
    policy: OnConflict,
    ttl: Option<Duration>,
    now: Instant,
    id: i64,
)
    requires
        ids.no_duplicates(),
    ensures
        ({
            let after = crate::punnu::model::accept(m, clock, items, ids, filter, policy, ttl, now);
            &&& ids.contains(id) ==> exists|b: Map<i64, Entry<T>>| #[trigger]
                item_met(m, b, after.entries, id, items[id], filter, policy, ttl, now)
            &&& !ids.contains(id) ==> after.entries.dom().contains(id) == m.dom().contains(id) && (
            m.dom().contains(id) ==> after.entries[id] == m[id])
        }),
    decreases ids.len(),
{
    if ids.len() > 0 {
        let front = ids.drop_last();
        assert(front.no_duplicates());
        lemma_item_met(m, clock, items, front, filter, policy, ttl, now, id);
        let before = crate::punnu::model::accept(m, clock, items, front, filter, policy, ttl, now);
        let after = crate::punnu::model::accept(m, clock, items, ids, filter, policy, ttl, now);
        let last = ids.last();
        assert(!front.contains(last)) by {
            if front.contains(last) {
                let i = front.index_of(last);
                assert(ids[i] == ids[ids.len() - 1]);
            }
        }
        if id == last {
            let b = crate::punnu::model::drop_if_expired(before.entries, id, now);
            assert(item_met(m, b, after.entries, id, items[id], filter, policy, ttl, now));
            assert(ids[ids.len() - 1] == id);
        } else {
            if ids.contains(id) {
                let i = ids.index_of(id);
                assert(front[i] == id);
                let b = choose|b: Map<i64, Entry<T>>| #[trigger]
                    item_met(m, b, before.entries, id, items[id], filter, policy, ttl, now);
                assert(item_met(m, b, after.entries, id, items[id], filter, policy, ttl, now));
            } else if front.contains(id) {
                let i = front.index_of(id);
                assert(ids[i] == id);
            }
        }
    }
}

/// What is resident after a delta for an id that it has an item for.
pub proof fn delta_writes_its_items<T: Cacheable, S: DeltaFilter<T>>(
    pre: &Punnu<T>,
    post: &Punnu<T>,
    delta: DeltaResult<T>,
    filter: S,
    now: Instant,
    r: Committed<T, DeltaApplyStats>,
    i: int,
)
    requires
        pre.wf(),
        Punnu::delta_effect(pre, post, delta, filter, now, r),
        0 <= i < delta.items@.len(),
        forall|j: int| i < j < delta.items@.len() ==> (#[trigger] delta.items@[j]).spec_id()
            != delta.items@[i].spec_id(),
        post.entries().dom().contains(delta.items@[i].spec_id()),
    ensures
        ({
            let id = delta.items@[i].spec_id();
            let readable = can_be_read(pre.entries(), id, now);
            let left = readable && post.entries()[id] == pre.entries()[id];
            let written = *post.entries()[id].value == delta.items@[i] && ends_after(
                now,
                pre.settings().default_ttl,
                post.entries()[id].expires_at,
            );
            &&& left || written
            &&& readable && pre.settings().on_conflict == OnConflict::Reject ==> left
            &&& !(readable && pre.settings().on_conflict == OnConflict::Reject) && (forall|
                b: Map<i64, Entry<T>>,
            |
                b.dom().contains(id) == readable && (readable ==> b[id] == pre.entries()[id])
                    ==> !#[trigger] filter.skips(b, id, delta.items@[i])) ==> written
            &&& (forall|b: Map<i64, Entry<T>>|
                b.dom().contains(id) == readable && (readable ==> b[id] == pre.entries()[id])
                    ==> #[trigger] filter.skips(b, id, delta.items@[i])) ==> left
        }),
{
    let id = delta.items@[i].spec_id();
    let tombstones = delta.tombstones@;
    let items = crate::punnu::model::latest(delta.items@, tombstones);
    let (ids, buried, victims) = choose|ids: Seq<i64>, buried: Seq<i64>, victims: Seq<i64>| #[trigger]
        crate::punnu::model::delta_outcome(
            pre.entries(),
            pre.clock(),
            pre.settings(),
            now,
            items,
            tombstones,
            filter,
            ids,
            buried,
            victims,
            post.entries(),
            r.events@,
            r.result,
            post.clock(),
        );
    assert(!tombstones.contains(id));
    crate::punnu::laws::last_item_of_an_id_wins(delta.items@, tombstones, i);
    assert(ids.to_set().contains(id));
    lemma_item_met(
        pre.entries(),
        pre.clock(),
        items,
        ids,
        filter,
        pre.policy(),
        pre.settings().default_ttl,
        now,
        id,
    );
    let a = crate::punnu::model::accept(
        pre.entries(),
        pre.clock(),
        items,
        ids,
        filter,
        pre.policy(),
        pre.settings().default_ttl,
        now,
    );
    let b = choose|b: Map<i64, Entry<T>>| #[trigger]
        item_met(
            pre.entries(),
            b,
            a.entries,
            id,
            items[id],
            filter,
            pre.policy(),
            pre.settings().default_ttl,
            now,
        );
    assert(post.entries()[id] == a.entries[id]);
}

/// Where no item is passed over, an id that a delta has an item for holds its last item and
/// lives for the default time, unless the pool rejects conflicts and the id could be read.
pub proof fn applied_items_are_cached<T: Cacheable>(
    pre: &Punnu<T>,
    post: &Punnu<T>,
    delta: DeltaResult<T>,
    now: Instant,
    r: Committed<T, DeltaApplyStats>,
    i: int,
)
    requires
        pre.wf(),
        Punnu::delta_effect(pre, post, delta, AcceptAll {  }, now, r),
        0 <= i < delta.items@.len(),
        forall|j: int| i < j < delta.items@.len() ==> (#[trigger] delta.items@[j]).spec_id()
            != delta.items@[i].spec_id(),
        post.entries().dom().contains(delta.items@[i].spec_id()),
    ensures
        ({
            let id = delta.items@[i].spec_id();
            if pre.settings().on_conflict == OnConflict::Reject && can_be_read(
                pre.entries(),
                id,
                now,
            ) {
                post.entries()[id] == pre.entries()[id]
            } else {
                *post.entries()[id].value == delta.items@[i] && ends_after(
                    now,
                    pre.settings().default_ttl,
                    post.entries()[id].expires_at,
                )
            }
        }),
{
    delta_writes_its_items(pre, post, delta, AcceptAll {  }, now, r, i);
}

/// A recovered item is passed over exactly where a newer one of its id can be read; every
/// other item is written as ever.
pub proof fn recovered_items_yield_to_newer_ones<T: DeltaSyncCacheable>(
    pre: &Punnu<T>,
    post: &Punnu<T>,
    delta: DeltaResult<T>,
    filter: KeepNewer<'_>,
    now: Instant,
    r: Committed<T, DeltaApplyStats>,
    i: int,
)
    requires
        pre.wf(),
        Punnu::delta_effect(pre, post, delta, filter, now, r),
        pre.settings().on_conflict != OnConflict::Reject,
        0 <= i < delta.items@.len(),
        forall|j: int| i < j < delta.items@.len() ==> (#[trigger] delta.items@[j]).spec_id()
            != delta.items@[i].spec_id(),
        post.entries().dom().contains(delta.items@[i].spec_id()),
    ensures
        ({
            let id = delta.items@[i].spec_id();
            if filter.recovered_ids@.contains(id) && can_be_read(pre.entries(), id, now)
                && !pre.entries()[id].value.spec_watermark().at_most(
                delta.items@[i].spec_watermark(),
            ) {
                post.entries()[id] == pre.entries()[id]
            } else {
                *post.entries()[id].value == delta.items@[i] && ends_after(
                    now,
                    pre.settings().default_ttl,
                    post.entries()[id].expires_at,
                )
            }
        }),
{
    delta_writes_its_items(pre, post, delta, filter, now, r, i);
}

/// What is resident after a refresh for an id that was fetched: the last value of the id,
/// for the default time, unless the pool rejects conflicts and the id could be read.
pub proof fn refreshed_items_are_cached<T: Cacheable>(
    pre: &Punnu<T>,
    post: &Punnu<T>,
    items: Seq<T>,
    mode: RefreshMode,
    now: Instant,
    r: Committed<T, ()>,
    i: int,
)
    requires
        pre.wf(),
        Punnu::refresh_effect(pre, post, items, mode, now, r),
        0 <= i < items.len(),
        forall|j: int| i < j < items.len() ==> (#[trigger] items[j]).spec_id()
            != items[i].spec_id(),
        post.entries().dom().contains(items[i].spec_id()),
    ensures
        ({
            let id = items[i].spec_id();
            if pre.settings().on_conflict == OnConflict::Reject && can_be_read(
                pre.entries(),
                id,
                now,
            ) {
                post.entries()[id] == pre.entries()[id]
            } else {
                *post.entries()[id].value == items[i] && ends_after(
                    now,
                    pre.settings().default_ttl,
                    post.entries()[id].expires_at,
                )
            }
        }),
{
    let id = items[i].spec_id();
    let m = pre.entries();
    let fetched = crate::punnu::model::latest(items, Set::empty());
    let (ids, victims) = choose|ids: Seq<i64>, victims: Seq<i64>| #[trigger]
        crate::punnu::model::refresh_outcome(
            m,
            pre.order(),
            pre.clock(),
            pre.settings(),
            now,
            fetched,
            mode,
            ids,
            victims,
            post.entries(),
            r.events@,
            post.clock(),
        );
    let kept = if mode == RefreshMode::Replace {
        m.restrict(fetched.dom())
    } else {
        m
    };
    crate::punnu::laws::last_item_of_an_id_wins(items, Set::empty(), i);
    assert(ids.to_set().contains(id));
    let all = AcceptAll {  };
    lemma_item_met(
        kept,
        pre.clock(),
        fetched,
        ids,
        all,
        pre.policy(),
        pre.settings().default_ttl,
        now,
        id,
    );
    let a = crate::punnu::model::accept(
        kept,
        pre.clock(),
        fetched,
        ids,
        all,
        pre.policy(),
        pre.settings().default_ttl,
        now,
    );
    let b = choose|b: Map<i64, Entry<T>>| #[trigger]
        item_met(
            kept,
            b,
            a.entries,
            id,
            fetched[id],
            all,
            pre.policy(),
            pre.settings().default_ttl,
            now,
        );
    assert(post.entries()[id] == a.entries[id]);
}

/// Where a batch of fetched values stands after some of them.
proof fn lemma_batch<T: Cacheable>(
    m: Map<i64, Entry<T>>,
    policy: OnConflict,
    reserved: Set<i64>,
    now: Instant,
    values: Seq<(Arc<T>, Option<Instant>, u64)>,
    id: i64,
)
    ensures
        match crate::punnu::model::batch(m, policy, reserved, now, values) {
            crate::punnu::model::BatchProgress::Taken(written, taken) => {
                &&& taken.len() == values.len()
                &&& forall|i: int| 0 <= i < values.len() ==> !reserved.contains(
                    (#[trigger] values[i]).0.spec_id(),
                )
                &&& (forall|i: int| 0 <= i < values.len() ==> (#[trigger] values[i]).0.spec_id()
                    != id) ==> written.dom().contains(id) == m.dom().contains(id) && (
                m.dom().contains(id) ==> written[id] == m[id])
                &&& forall|i: int|
                    0 <= i < values.len() && (#[trigger] values[i]).0.spec_id() == id && (forall|
                        j: int,
                    |
                        i < j < values.len() ==> (#[trigger] values[j]).0.spec_id() != id)
                        ==> written.dom().contains(id) && written[id].value == values[i].0
                        && written[id].expires_at == values[i].1
            },
            crate::punnu::model::BatchProgress::Blocked(held) => reserved.contains(held) && exists|
                i: int,
            |
                0 <= i < values.len() && (#[trigger] values[i]).0.spec_id() == held,
            crate::punnu::model::BatchProgress::Refused => policy == OnConflict::Reject,
        },
    decreases values.len(),
{
    if values.len() > 0 {
        let front = values.drop_last();
        lemma_batch(m, policy, reserved, now, front, id);
        let last = values.len() - 1;
        match crate::punnu::model::batch(m, policy, reserved, now, front) {
            crate::punnu::model::BatchProgress::Taken(before, took) => {
                match crate::punnu::model::batch(m, policy, reserved, now, values) {
                    crate::punnu::model::BatchProgress::Taken(written, taken) => {
                        assert forall|i: int| 0 <= i < values.len() implies !reserved.contains(
                            (#[trigger] values[i]).0.spec_id(),
                        ) by {
                            if i < last {
                                assert(front[i] == values[i]);
                            }
                        }
                        if forall|i: int|
                            0 <= i < values.len() ==> (#[trigger] values[i]).0.spec_id() != id {
                            assert forall|i: int| 0 <= i < front.len() implies (
                            #[trigger] front[i]).0.spec_id() != id by {
                                assert(values[i] == front[i]);
                            }
                            assert(values[last].0.spec_id() != id);
                        }
                        assert forall|i: int|
                            0 <= i < values.len() && (#[trigger] values[i]).0.spec_id() == id && (
                            forall|j: int|
                                i < j < values.len() ==> (#[trigger] values[j]).0.spec_id()
                                    != id) implies written.dom().contains(id) && written[id].value
                            == values[i].0 && written[id].expires_at == values[i].1 by {
                            if i < last {
                                assert(front[i] == values[i]);
                                assert(values[last].0.spec_id() != id);
                                assert forall|j: int| i < j < front.len() implies (
                                #[trigger] front[j]).0.spec_id() != id by {
                                    assert(values[j] == front[j]);
                                }
                            }
                        }
                    },
                    crate::punnu::model::BatchProgress::Blocked(held) => {
                        assert(values[last].0.spec_id() == held);
                    },
                    crate::punnu::model::BatchProgress::Refused => {},
                }
            },
            crate::punnu::model::BatchProgress::Blocked(held) => {
                let i = choose|i: int|
                    0 <= i < front.len() && (#[trigger] front[i]).0.spec_id() == held;
                assert(values[i] == front[i]);
            },
            crate::punnu::model::BatchProgress::Refused => {},
        }
    }
}

/// A batch of fetched values that was taken: every id of it that is resident holds its last
/// value and ends when the default time to live, counted from the write, has passed. The
/// caller gets all values, in order.
pub proof fn fetched_values_live_the_default_time<T: Cacheable>(
    m: Map<i64, Entry<T>>,
    capacity: usize,
    policy: OnConflict,
    reserved: Set<i64>,
    clock: u64,
    ttl: Option<Duration>,
    now: Instant,
    values: Seq<Arc<T>>,
    post: Map<i64, Entry<T>>,
    events: Seq<PunnuEvent<T>>,
    inserted: Vec<Arc<T>>,
    i: int,
)
    requires
        crate::punnu::pool::insert_many_outcome(
            m,
            capacity,
            policy,
            reserved,
            now,
            crate::punnu::model::fetched_batch(values, clock, ttl, now),
            post,
            events,
            FetchManyInsertResult::Ready(Ok(inserted)),
        ),
        0 <= i < values.len(),
        forall|j: int| i < j < values.len() ==> (#[trigger] values[j]).spec_id()
            != values[i].spec_id(),
    ensures
        inserted@ == values,
        post.dom().contains(values[i].spec_id()) ==> post[values[i].spec_id()].value == values[i]
            && ends_after(now, ttl, post[values[i].spec_id()].expires_at),
        ttl matches Some(d) ==> forall|at: Instant|
            now + d <= at ==> !#[trigger] can_be_read(post, values[i].spec_id(), at),
{
    let batch = crate::punnu::model::fetched_batch(values, clock, ttl, now);
    let id = values[i].spec_id();
    lemma_batch(m, policy, reserved, now, batch, id);
    assert(batch[i].0 == values[i]);
    assert forall|j: int| i < j < batch.len() implies (#[trigger] batch[j]).0.spec_id() != id by {
        assert(values[j].spec_id() != id);
    }
    assert(crate::punnu::model::batch_values(batch) =~= values);
}

/// A batch is blocked only by an id of it that a backend write holds, and refused only
/// where the pool rejects conflicts; then the pool stays as it was and nothing is told.
pub proof fn batches_stop_for_a_reason<T: Cacheable>(
    m: Map<i64, Entry<T>>,
    capacity: usize,
    policy: OnConflict,
    reserved: Set<i64>,
    clock: u64,
    ttl: Option<Duration>,
    now: Instant,
    values: Seq<Arc<T>>,
    post: Map<i64, Entry<T>>,
    events: Seq<PunnuEvent<T>>,
    result: FetchManyInsertResult<T>,
)
    requires
        crate::punnu::pool::insert_many_outcome(
            m,
            capacity,
            policy,
            reserved,
            now,
            crate::punnu::model::fetched_batch(values, clock, ttl, now),
            post,
            events,
            result,
        ),
    ensures
        match result {
            FetchManyInsertResult::Blocked(held) => {
                &&& reserved.contains(held)
                &&& exists|i: int| 0 <= i < values.len() && (#[trigger] values[i]).spec_id() == held
                &&& post == m
                &&& events.len() == 0
            },
            FetchManyInsertResult::Ready(Err(_)) => policy == OnConflict::Reject && post == m
                && events.len() == 0,
            FetchManyInsertResult::Ready(Ok(_)) => forall|i: int|
                0 <= i < values.len() ==> !reserved.contains((#[trigger] values[i]).spec_id()),
        },
{
    let batch = crate::punnu::model::fetched_batch(values, clock, ttl, now);
    lemma_batch(m, policy, reserved, now, batch, 0);
    match result {
        FetchManyInsertResult::Blocked(held) => {
            let i = choose|i: int|
                0 <= i < batch.len() && (#[trigger] batch[i]).0.spec_id() == held;
            assert(values[i].spec_id() == held);
        },
        FetchManyInsertResult::Ready(Ok(_)) => {
            assert forall|i: int| 0 <= i < values.len() implies !reserved.contains(
                (#[trigger] values[i]).spec_id(),
            ) by {
                assert(batch[i].0 == values[i]);
            }
        },
        _ => {},
    }
}

/// What is listed as written, for one id.
proof fn lemma_accepted_item<T: Cacheable, S: DeltaFilter<T>>(
    m: Map<i64, Entry<T>>,
    clock: u64,
    items: Map<i64, Arc<T>>,
    ids: Seq<i64>,
    filter: S,
    policy: OnConflict,
    ttl: Option<Duration>,
    now: Instant,
    id: i64,
)
    requires
        ids.no_duplicates(),
    ensures
        ({
            let a = crate::punnu::model::accept(m, clock, items, ids, filter, policy, ttl, now);
            let old = if can_be_read(m, id, now) {
                Some(m[id].value)
            } else {
                None
            };
            &&& forall|k: int| 0 <= k < a.items.len() ==> ids.contains((#[trigger] a.items[k]).0)
            &&& ids.contains(id) && !(can_be_read(m, id, now) && policy == OnConflict::Reject) && (
            forall|b: Map<i64, Entry<T>>| !#[trigger] filter.skips(b, id, *items[id]))
                ==> a.items.contains((id, old))
        }),
    decreases ids.len(),
{
    if ids.len() > 0 {
        let front = ids.drop_last();
        let last = ids.last();
        assert(front.no_duplicates());
        lemma_accepted_item(m, clock, items, front, filter, policy, ttl, now, id);
        lemma_item_met(m, clock, items, front, filter, policy, ttl, now, last);
        let before = crate::punnu::model::accept(m, clock, items, front, filter, policy, ttl, now);
        let a = crate::punnu::model::accept(m, clock, items, ids, filter, policy, ttl, now);
        let old = if can_be_read(m, id, now) {
            Some(m[id].value)
        } else {
            None
        };
        assert(!front.contains(last)) by {
            if front.contains(last) {
                let i = front.index_of(last);
                assert(ids[i] == ids[ids.len() - 1]);
            }
        }
        assert forall|k: int| 0 <= k < a.items.len() implies ids.contains(
            (#[trigger] a.items[k]).0,
        ) by {
            if k < before.items.len() {
                assert(a.items[k] == before.items[k]);
                assert(front.contains(before.items[k].0));
                let i = front.index_of(before.items[k].0);
                assert(ids[i] == a.items[k].0);
            } else {
                assert(ids[ids.len() - 1] == last);
            }
        }
        if ids.contains(id) && !(can_be_read(m, id, now) && policy == OnConflict::Reject) && (
        forall|b: Map<i64, Entry<T>>| !#[trigger] filter.skips(b, id, *items[id])) {
            if id == last {
                let b = crate::punnu::model::drop_if_expired(before.entries, id, now);
                assert(!filter.skips(b, id, *items[id]));
                assert(a.items[before.items.len() as int] == (id, old));
            } else {
                let i = ids.index_of(id);
                assert(front[i] == id);
                let k = before.items.index_of((id, old));
                assert(a.items[k] == (id, old));
            }
        }
    }
}

/// The event of a written item that is resident.
proof fn lemma_accepted_event<T: Cacheable>(
    post: Map<i64, Entry<T>>,
    policy: OnConflict,
    items: Seq<(i64, Option<Arc<T>>)>,
    id: i64,
    old: Option<Arc<T>>,
)
    requires
        items.contains((id, old)),
        post.dom().contains(id),
    ensures
        crate::punnu::model::accepted_events(post, policy, items).contains(
            crate::punnu::model::write_event(policy, old, post[id].value),
        ),
    decreases items.len(),
{
    let front = items.drop_last();
    let before = crate::punnu::model::accepted_events(post, policy, front);
    let after = crate::punnu::model::accepted_events(post, policy, items);
    let event = crate::punnu::model::write_event(policy, old, post[id].value);
    if items.last() == (id, old) {
        assert(after[before.len() as int] == event);
    } else {
        let i = items.index_of((id, old));
        assert(front[i] == (id, old));
        lemma_accepted_event(post, policy, front, id, old);
        let k = before.index_of(event);
        assert(after[k] == event);
    }
}

/// Events of writes are no invalidations.
proof fn lemma_accepted_events_are_writes<T: Cacheable>(
    post: Map<i64, Entry<T>>,
    policy: OnConflict,
    items: Seq<(i64, Option<Arc<T>>)>,
)
    ensures
        forall|k: int|
            0 <= k < crate::punnu::model::accepted_events(post, policy, items).len() ==> !((
            #[trigger] crate::punnu::model::accepted_events(post, policy, items)[k]) is Invalidate),
    decreases items.len(),
{
    if items.len() > 0 {
        lemma_accepted_events_are_writes(post, policy, items.drop_last());
    }
}

/// The event that tells of a write over what `pre` holds: of an update, with both values,
/// where the pool updates and the id could be read, and of an insert otherwise.
pub open spec fn tells_of<T: Cacheable>(
    pre: Map<i64, Entry<T>>,
    policy: OnConflict,
    id: i64,
    value: Arc<T>,
    now: Instant,
) -> PunnuEvent<T> {
    if policy == OnConflict::Update && can_be_read(pre, id, now) {
        PunnuEvent::Update { old: pre[id].value, new: value }
    } else {
        PunnuEvent::Insert { value }
    }
}

/// A delta tells of every item that it wrote and that is resident.
pub proof fn delta_tells_of_its_items<T: Cacheable>(
    pre: &Punnu<T>,
    post: &Punnu<T>,
    delta: DeltaResult<T>,
    now: Instant,
    r: Committed<T, DeltaApplyStats>,
    i: int,
)
    requires
        pre.wf(),
        Punnu::delta_effect(pre, post, delta, AcceptAll {  }, now, r),
        0 <= i < delta.items@.len(),
        post.entries().dom().contains(delta.items@[i].spec_id()),
        !(pre.settings().on_conflict == OnConflict::Reject && can_be_read(
            pre.entries(),
            delta.items@[i].spec_id(),
            now,
        )),
    ensures
        r.events@.contains(
            tells_of(
                pre.entries(),
                pre.settings().on_conflict,
                delta.items@[i].spec_id(),
                post.entries()[delta.items@[i].spec_id()].value,
                now,
            ),
        ),
{
    let id = delta.items@[i].spec_id();
    let m = pre.entries();
    let tombstones = delta.tombstones@;
    let items = crate::punnu::model::latest(delta.items@, tombstones);
    let filter = AcceptAll {  };
    let (ids, buried, victims) = choose|ids: Seq<i64>, buried: Seq<i64>, victims: Seq<i64>| #[trigger]
        crate::punnu::model::delta_outcome(
            m,
            pre.clock(),
            pre.settings(),
            now,
            items,
            tombstones,
            filter,
            ids,
            buried,
            victims,
            post.entries(),
            r.events@,
            r.result,
            post.clock(),
        );
    assert(!tombstones.contains(id));
    lemma_some_item_is_latest(delta.items@, tombstones, i);
    assert(ids.to_set().contains(id));
    let ttl = pre.settings().default_ttl;
    let a = crate::punnu::model::accept(m, pre.clock(), items, ids, filter, pre.policy(), ttl, now);
    lemma_accepted_item(m, pre.clock(), items, ids, filter, pre.policy(), ttl, now, id);
    let old = if can_be_read(m, id, now) {
        Some(m[id].value)
    } else {
        None
    };
    lemma_accepted_event(post.entries(), pre.policy(), a.items, id, old);
    let written = crate::punnu::model::accepted_events(post.entries(), pre.policy(), a.items);
    let event = crate::punnu::model::write_event(pre.policy(), old, post.entries()[id].value);
    let k = written.index_of(event);
    let n = r.events@.len() - written.len();
    assert(r.events@[n + k] == event);
}

/// An item that is not deleted has an id among those that are written.
proof fn lemma_some_item_is_latest<T: Cacheable>(items: Seq<T>, dropped: Set<i64>, i: int)
    requires
        0 <= i < items.len(),
        !dropped.contains(items[i].spec_id()),
    ensures
        crate::punnu::model::latest(items, dropped).dom().contains(items[i].spec_id()),
    decreases items.len(),
{
    if i < items.len() - 1 {
        assert(items.drop_last()[i] == items[i]);
        lemma_some_item_is_latest(items.drop_last(), dropped, i);
    }
}

/// The events of a delta, and its counts: first the deletions, then the evictions, then the
/// writes.
pub proof fn delta_counts_its_events<T: Cacheable, S: DeltaFilter<T>>(
    pre: &Punnu<T>,
    post: &Punnu<T>,
    delta: DeltaResult<T>,
    filter: S,
    now: Instant,
    r: Committed<T, DeltaApplyStats>,
)
    requires
        pre.wf(),
        Punnu::delta_effect(pre, post, delta, filter, now, r),
    ensures
        r.events@.len() == r.result.tombstones_evicted + r.result.lru_evictions
            + r.result.applied_items,
        forall|k: int|
            0 <= k < r.events@.len() ==> (match #[trigger] r.events@[k] {
                PunnuEvent::Invalidate { id, reason } => if k < r.result.tombstones_evicted {
                    reason is OnDelete
                } else {
                    k < r.result.tombstones_evicted + r.result.lru_evictions && reason is LruEvict
                },
                _ => k >= r.result.tombstones_evicted + r.result.lru_evictions,
            }),
        post.entries().dom().len() <= pre.capacity(),
{
    pre.lemma_wf();
    let m = pre.entries();
    let tombstones = delta.tombstones@;
    let items = crate::punnu::model::latest(delta.items@, tombstones);
    let (ids, buried, victims) = choose|ids: Seq<i64>, buried: Seq<i64>, victims: Seq<i64>| #[trigger]
        crate::punnu::model::delta_outcome(
            m,
            pre.clock(),
            pre.settings(),
            now,
            items,
            tombstones,
            filter,
            ids,
            buried,
            victims,
            post.entries(),
            r.events@,
            r.result,
            post.clock(),
        );
    let a = crate::punnu::model::accept(
        m,
        pre.clock(),
        items,
        ids,
        filter,
        pre.policy(),
        pre.settings().default_ttl,
        now,
    );
    lemma_accepted_events_are_writes(post.entries(), pre.policy(), a.items);
}

/// A readable entry that a delta deletes is told of, and counts as deleted.
pub proof fn delta_tells_of_its_deletions<T: Cacheable, S: DeltaFilter<T>>(
    pre: &Punnu<T>,
    post: &Punnu<T>,
    delta: DeltaResult<T>,
    filter: S,
    now: Instant,
    r: Committed<T, DeltaApplyStats>,
    id: i64,
)
    requires
        pre.wf(),
        Punnu::delta_effect(pre, post, delta, filter, now, r),
        delta.tombstones@.contains(id),
    ensures
        r.events@.contains(PunnuEvent::Invalidate { id, reason: EventReason::OnDelete })
            <==> can_be_read(pre.entries(), id, now),
{
    pre.lemma_wf();
    let m = pre.entries();
    let tombstones = delta.tombstones@;
    let items = crate::punnu::model::latest(delta.items@, tombstones);
    let (ids, buried, victims) = choose|ids: Seq<i64>, buried: Seq<i64>, victims: Seq<i64>| #[trigger]
        crate::punnu::model::delta_outcome(
            m,
            pre.clock(),
            pre.settings(),
            now,
            items,
            tombstones,
            filter,
            ids,
            buried,
            victims,
            post.entries(),
            r.events@,
            r.result,
            post.clock(),
        );
    let ttl = pre.settings().default_ttl;
    let a = crate::punnu::model::accept(m, pre.clock(), items, ids, filter, pre.policy(), ttl, now);
    lemma_dropped_is_not_latest(delta.items@, tombstones, id);
    assert(!ids.contains(id)) by {
        if ids.contains(id) {
            assert(ids.to_set().contains(id));
        }
    }
    lemma_item_met(m, pre.clock(), items, ids, filter, pre.policy(), ttl, now, id);
    assert(buried.to_set().contains(id));
    lemma_live_ids(a.entries, buried, now, id);
    let deleted = crate::punnu::model::live_ids(a.entries, buried, now);
    let event = PunnuEvent::<T>::Invalidate { id, reason: EventReason::OnDelete };
    if can_be_read(m, id, now) {
        let k = deleted.index_of(id);
        assert(r.events@[k] == event);
    }
    if r.events@.contains(event) {
        delta_counts_its_events(pre, post, delta, filter, now, r);
        let k = r.events@.index_of(event);
        assert(k < deleted.len());
        assert(deleted[k] == id);
    }
}

/// A deleted id is not written.
proof fn lemma_dropped_is_not_latest<T: Cacheable>(items: Seq<T>, dropped: Set<i64>, id: i64)
    requires
        dropped.contains(id),
    ensures
        !crate::punnu::model::latest(items, dropped).dom().contains(id),
    decreases items.len(),
{
    if items.len() > 0 {
        lemma_dropped_is_not_latest(items.drop_last(), dropped, id);
    }
}

/// The live ids of a list are those of it that are live.
proof fn lemma_live_ids<T>(m: Map<i64, Entry<T>>, ids: Seq<i64>, now: Instant, id: i64)
    ensures
        crate::punnu::model::live_ids(m, ids, now).contains(id) <==> ids.contains(id)
            && crate::punnu::model::live(m, id, now),
    decreases ids.len(),
{
    if ids.len() > 0 {
        let front = ids.drop_last();
        lemma_live_ids(m, front, now, id);
        let before = crate::punnu::model::live_ids(m, front, now);
        let after = crate::punnu::model::live_ids(m, ids, now);
        assert(ids.contains(id) == (front.contains(id) || id == ids.last())) by {
            if front.contains(id) {
                let i = front.index_of(id);
                assert(ids[i] == id);
            }
            if id == ids.last() {
                assert(ids[ids.len() - 1] == id);
            }
            if ids.contains(id) && id != ids.last() {
                let i = ids.index_of(id);
                assert(front[i] == id);
            }
        }
        if after.len() > before.len() {
            if before.contains(id) {
                let i = before.index_of(id);
                assert(after[i] == id);
            }
            if id == ids.last() {
                assert(after[before.len() as int] == id);
            }
            if after.contains(id) && id != ids.last() {
                let i = after.index_of(id);
                assert(before[i] == id);
            }
        }
    }
}

/// The ids that are live stand in their order: what is live in one list after another is
/// what is live in both, and a single id is listed where it can be read.
pub proof fn live_ids_keep_their_order<T>(
    m: Map<i64, Entry<T>>,
    first: Seq<i64>,
    id: i64,
    now: Instant,
)
    ensures
        crate::punnu::model::live_ids(m, first.push(id), now) == if can_be_read(m, id, now) {
            crate::punnu::model::live_ids(m, first, now).push(id)
        } else {
            crate::punnu::model::live_ids(m, first, now)
        },
        crate::punnu::model::live_values(m, first.push(id), now) == if can_be_read(m, id, now) {
            crate::punnu::model::live_values(m, first, now).push(m[id].value)
        } else {
            crate::punnu::model::live_values(m, first, now)
        },
        crate::punnu::model::live_values(m, Seq::empty(), now).len() == 0,
        crate::punnu::model::live_ids(m, Seq::empty(), now).len() == 0,
{
    assert(first.push(id).drop_last() =~= first);
}

/// A readable entry that a delta does not delete and that is gone after it was evicted, and
/// is told of.
pub proof fn delta_tells_of_every_eviction<T: Cacheable, S: DeltaFilter<T>>(
    pre: &Punnu<T>,
    post: &Punnu<T>,
    delta: DeltaResult<T>,
    filter: S,
    now: Instant,
    r: Committed<T, DeltaApplyStats>,
    id: i64,
)
    requires
        pre.wf(),
        Punnu::delta_effect(pre, post, delta, filter, now, r),
        can_be_read(pre.entries(), id, now),
        !delta.tombstones@.contains(id),
        !post.entries().dom().contains(id),
        pre.settings().default_ttl != Some(0u128),
    ensures
        r.result.lru_evictions > 0,
        exists|k: int| 0 <= k < r.events@.len() && ((#[trigger] r.events@[k]) matches
            PunnuEvent::Invalidate { id: gone, reason } && gone == id && reason is LruEvict),
{
    pre.lemma_wf();
    let m = pre.entries();
    let tombstones = delta.tombstones@;
    let items = crate::punnu::model::latest(delta.items@, tombstones);
    let (ids, buried, victims) = choose|ids: Seq<i64>, buried: Seq<i64>, victims: Seq<i64>| #[trigger]
        crate::punnu::model::delta_outcome(
            m,
            pre.clock(),
            pre.settings(),
            now,
            items,
            tombstones,
            filter,
            ids,
            buried,
            victims,
            post.entries(),
            r.events@,
            r.result,
            post.clock(),
        );
    let ttl = pre.settings().default_ttl;
    let a = crate::punnu::model::accept(m, pre.clock(), items, ids, filter, pre.policy(), ttl, now);
    lemma_item_met(m, pre.clock(), items, ids, filter, pre.policy(), ttl, now, id);
    assert(crate::punnu::model::live(a.entries, id, now)) by {
        if ids.contains(id) {
            let b = choose|b: Map<i64, Entry<T>>| #[trigger]
                item_met(m, b, a.entries, id, items[id], filter, pre.policy(), ttl, now);
        }
    }
    assert(victims.contains(id));
    lemma_live_ids(m, victims, now, id);
    let evicted = crate::punnu::model::live_ids(m, victims, now);
    let deleted = crate::punnu::model::live_ids(a.entries, buried, now);
    let k = evicted.index_of(id);
    assert(r.events@[deleted.len() + k] == (PunnuEvent::<T>::Invalidate {
        id: evicted[k],
        reason: EventReason::spec_lru_evict(),
    }));
}

/// A replacing refresh tells of every readable entry that it drops, as of one dropped by
/// hand; any refresh tells of what it wrote.
pub proof fn refresh_tells_of_its_changes<T: Cacheable>(
    pre: &Punnu<T>,
    post: &Punnu<T>,
    items: Seq<T>,
    mode: RefreshMode,
    now: Instant,
    r: Committed<T, ()>,
    id: i64,
)
    requires
        pre.wf(),
        Punnu::refresh_effect(pre, post, items, mode, now, r),
    ensures
        mode == RefreshMode::Replace && can_be_read(pre.entries(), id, now) && (forall|i: int|
            0 <= i < items.len() ==> (#[trigger] items[i]).spec_id() != id)
            ==> r.events@.contains(PunnuEvent::Invalidate { id, reason: EventReason::Manual }),
        post.entries().dom().contains(id) && (exists|i: int|
            0 <= i < items.len() && (#[trigger] items[i]).spec_id() == id) && !(
        pre.settings().on_conflict == OnConflict::Reject && can_be_read(pre.entries(), id, now))
            ==> r.events@.contains(
            tells_of(
                pre.entries(),
                pre.settings().on_conflict,
                id,
                post.entries()[id].value,
                now,
            ),
        ),
        post.entries().dom().len() <= pre.capacity(),
{
    pre.lemma_wf();
    let m = pre.entries();
    let fetched = crate::punnu::model::latest(items, Set::empty());
    let (ids, victims) = choose|ids: Seq<i64>, victims: Seq<i64>| #[trigger]
        crate::punnu::model::refresh_outcome(
            m,
            pre.order(),
            pre.clock(),
            pre.settings(),
            now,
            fetched,
            mode,
            ids,
            victims,
            post.entries(),
            r.events@,
            post.clock(),
        );
    let kept = if mode == RefreshMode::Replace {
        m.restrict(fetched.dom())
    } else {
        m
    };
    let ttl = pre.settings().default_ttl;
    let filter = AcceptAll {  };
    let a = crate::punnu::model::accept(
        kept,
        pre.clock(),
        fetched,
        ids,
        filter,
        pre.policy(),
        ttl,
        now,
    );
    let written = crate::punnu::model::accepted_events(post.entries(), pre.policy(), a.items);
    let evicted = crate::punnu::model::live_ids(m, victims, now);
    if mode == RefreshMode::Replace && can_be_read(m, id, now) && (forall|i: int|
        0 <= i < items.len() ==> (#[trigger] items[i]).spec_id() != id) {
        lemma_unfetched(items, id);
        lemma_absent_ids(pre.order(), fetched.dom(), id);
        assert(pre.order().to_set().contains(id));
        let absent = crate::punnu::model::absent_ids(pre.order(), fetched.dom());
        lemma_live_ids(m, absent, now, id);
        let gone = crate::punnu::model::live_ids(m, absent, now);
        let k = gone.index_of(id);
        assert(r.events@[k] == (PunnuEvent::<T>::Invalidate { id, reason: EventReason::Manual }));
    }
    if post.entries().dom().contains(id) && (exists|i: int|
        0 <= i < items.len() && (#[trigger] items[i]).spec_id() == id) && !(
    pre.settings().on_conflict == OnConflict::Reject && can_be_read(m, id, now)) {
        let i = choose|i: int| 0 <= i < items.len() && (#[trigger] items[i]).spec_id() == id;
        lemma_some_item_is_latest(items, Set::empty(), i);
        assert(ids.to_set().contains(id));
        lemma_accepted_item(kept, pre.clock(), fetched, ids, filter, pre.policy(), ttl, now, id);
        let old = if can_be_read(kept, id, now) {
            Some(kept[id].value)
        } else {
            None
        };
        lemma_accepted_event(post.entries(), pre.policy(), a.items, id, old);
        let event = crate::punnu::model::write_event(pre.policy(), old, post.entries()[id].value);
        let k = written.index_of(event);
        assert(r.events@[r.events@.len() - written.len() + k] == event);
    }
}

/// What no item has was not fetched.
proof fn lemma_unfetched<T: Cacheable>(items: Seq<T>, id: i64)
    requires
        forall|i: int| 0 <= i < items.len() ==> (#[trigger] items[i]).spec_id() != id,
    ensures
        !crate::punnu::model::latest(items, Set::empty()).dom().contains(id),
    decreases items.len(),
{
    if items.len() > 0 {
        let front = items.drop_last();
        assert forall|i: int| 0 <= i < front.len() implies (#[trigger] front[i]).spec_id() != id by {
            assert(front[i] == items[i]);
        }
        lemma_unfetched(front, id);
        assert(items[items.len() - 1].spec_id() != id);
    }
}

/// The absent ids of a list are those of it that are not kept.
proof fn lemma_absent_ids(order: Seq<i64>, kept: Set<i64>, id: i64)
    ensures
        crate::punnu::model::absent_ids(order, kept).contains(id) <==> order.contains(id)
            && !kept.contains(id),
    decreases order.len(),
{
    if order.len() > 0 {
        let front = order.drop_last();
        lemma_absent_ids(front, kept, id);
        let before = crate::punnu::model::absent_ids(front, kept);
        let after = crate::punnu::model::absent_ids(order, kept);
        assert(order.contains(id) == (front.contains(id) || id == order.last())) by {
            if front.contains(id) {
                let i = front.index_of(id);
                assert(order[i] == id);
            }
            if id == order.last() {
                assert(order[order.len() - 1] == id);
            }
            if order.contains(id) && id != order.last() {
                let i = order.index_of(id);
                assert(front[i] == id);
            }
        }
        if after.len() > before.len() {
            if before.contains(id) {
                let i = before.index_of(id);
                assert(after[i] == id);
            }
            if id == order.last() {
                assert(after[before.len() as int] == id);
            }
            if after.contains(id) && id != order.last() {
                let i = after.index_of(id);
                assert(before[i] == id);
            }
        }
    }
}

/// Looking an id up finds its value where it can be read, and makes its entry the one that
/// was touched last: no entry but that one changes, and of that one only its epoch.
pub proof fn lookup_touches_what_it_finds<T>(
    m: Map<i64, Entry<T>>,
    clock: u64,
    first: Seq<i64>,
    id: i64,
    now: Instant,
)
    ensures
        ({
            let (before, at) = crate::punnu::model::looked_up(m, clock, first, now);
            let (after, then_at) = crate::punnu::model::looked_up(m, clock, first.push(id), now);
            &&& before.dom() == m.dom() && after.dom() == m.dom()
            &&& can_be_read(m, id, now) ==> after[id].last_access_epoch == then_at && (at < u64::MAX
                ==> then_at == at + 1)
            &&& !can_be_read(m, id, now) ==> then_at == at && after == before
            &&& forall|other: i64|
                other != id && #[trigger] m.dom().contains(other) ==> after[other] == before[other]
            &&& forall|any: i64| #[trigger]
                m.dom().contains(any) ==> after[any].value == m[any].value && after[any].expires_at
                    == m[any].expires_at
        }),
{
    assert(first.push(id).drop_last() =~= first);
    crate::punnu::model::lemma_looked_up(m, clock, first, now);
    crate::punnu::model::lemma_looked_up(m, clock, first.push(id), now);
}

/// Each lookup is counted: as a hit where the id can be read, and as a miss otherwise, after
/// an eviction where its entry is expired.
pub proof fn lookups_are_counted<T>(
    m: Map<i64, Entry<T>>,
    first: Seq<i64>,
    id: i64,
    now: Instant,
)
    ensures
        ({
            let before = crate::punnu::pool::lookup_samples(m, first, now);
            let after = crate::punnu::pool::lookup_samples(m, first.push(id), now);
            &&& can_be_read(m, id, now) ==> after == before.push(
                crate::punnu::config::Sample::Hit(crate::punnu::config::CacheTier::L1),
            )
            &&& !m.dom().contains(id) ==> after == before.push(crate::punnu::config::Sample::Miss)
            &&& m.dom().contains(id) && !can_be_read(m, id, now) ==> after.len() == before.len() + 2
                && after.last() == crate::punnu::config::Sample::Miss && (after[before.len() as int]
                matches crate::punnu::config::Sample::Eviction(reason) && reason is TtlExpired)
        }),
{
    assert(first.push(id).drop_last() =~= first);
    assert(first.push(id).last() == id);
}

/// A sweep lists exactly the expired entries among its candidates, each once.
pub proof fn sweep_lists_what_is_expired<T>(
    m: Map<i64, Entry<T>>,
    candidates: Seq<i64>,
    now: Instant,
    id: i64,
)
    ensures
        crate::punnu::model::expired_among(m, candidates, now).contains(id) <==> candidates.contains(
            id,
        ) && m.dom().contains(id) && !can_be_read(m, id, now),
        crate::punnu::model::expired_among(m, candidates, now).no_duplicates(),
    decreases candidates.len(),
{
    if candidates.len() > 0 {
        let front = candidates.drop_last();
        sweep_lists_what_is_expired(m, front, now, id);
        sweep_lists_what_is_expired(m, front, now, candidates.last());
        let before = crate::punnu::model::expired_among(m, front, now);
        let after = crate::punnu::model::expired_among(m, candidates, now);
        assert(candidates.contains(id) == (front.contains(id) || id == candidates.last())) by {
            if front.contains(id) {
                let i = front.index_of(id);
                assert(candidates[i] == id);
            }
            if id == candidates.last() {
                assert(candidates[candidates.len() - 1] == id);
            }
            if candidates.contains(id) && id != candidates.last() {
                let i = candidates.index_of(id);
                assert(front[i] == id);
            }
        }
        if after.len() > before.len() {
            assert(after == before.push(candidates.last()));
            if before.contains(id) {
                let i = before.index_of(id);
                assert(after[i] == id);
            }
            if id == candidates.last() {
                assert(after[before.len() as int] == id);
            }
            if after.contains(id) && id != candidates.last() {
                let i = after.index_of(id);
                assert(before[i] == id);
            }
        }
    }
}

/// The samples of a write: one for each invalidation, in order, and the new size last;
/// none where nothing was told.
pub proof fn writes_are_counted<T: Cacheable>(events: Seq<PunnuEvent<T>>, event: PunnuEvent<T>, len: usize)
    ensures
        crate::punnu::config::committed_samples(Seq::<PunnuEvent<T>>::empty(), len).len() == 0,
        ({
            let before = crate::punnu::config::eviction_samples(events);
            let samples = crate::punnu::config::committed_samples(events.push(event), len);
            match event {
                PunnuEvent::Invalidate { id, reason } => samples == before.push(
                    crate::punnu::config::Sample::Eviction(reason),
                ).push(crate::punnu::config::Sample::LruSize(len)),
                _ => samples == before.push(crate::punnu::config::Sample::LruSize(len)),
            }
        }),
        crate::punnu::config::eviction_samples(Seq::<PunnuEvent<T>>::empty()).len() == 0,
{
    assert(events.push(event).drop_last() =~= events);
}

/// Where an entry was evicted, the expired ones went first.
proof fn lemma_expired_go_first<T: Cacheable>(
    written: Map<i64, Entry<T>>,
    capacity: usize,
    now: Instant,
    protected: Option<i64>,
    victims: Seq<i64>,
    y: i64,
)
    requires
        written.dom().finite(),
        ({
            let roomy = crate::punnu::model::make_room(written, capacity, now);
            &&& crate::punnu::model::eviction_run(roomy, capacity, protected, victims)
            &&& crate::punnu::model::without(roomy, victims).dom().contains(y)
        }),
        victims.len() > 0,
    ensures
        can_be_read(
            crate::punnu::model::without(
                crate::punnu::model::make_room(written, capacity, now),
                victims,
            ),
            y,
            now,
        ),
{
    let roomy = crate::punnu::model::make_room(written, capacity, now);
    assert(crate::punnu::model::eviction_step(roomy, capacity, protected, victims, 0));
    assert(crate::punnu::model::without(roomy, victims.take(0)) =~= roomy);
}

/// An insert evicts what can be read only where nothing expired is left.
pub proof fn insert_evicts_expired_entries_first<T: Cacheable>(
    pre: &Punnu<T>,
    post: &Punnu<T>,
    value: Arc<T>,
    ttl: Option<Duration>,
    now: Instant,
    r: Committed<T, Result<Arc<T>, InsertError>>,
    x: i64,
    y: i64,
)
    requires
        pre.wf(),
        Punnu::insert_effect(pre, post, value, ttl, now, r),
        r.result is Ok,
        x != value.spec_id(),
        can_be_read(pre.entries(), x, now),
        !post.entries().dom().contains(x),
        post.entries().dom().contains(y),
    ensures
        can_be_read(post.entries(), y, now),
        post.entries().dom().len() == pre.capacity(),
{
    pre.lemma_wf();
    insert_tells_of_every_eviction(pre, post, value, ttl, now, r);
    assert(!post.entries().dom().contains(x));
    let entry = Entry {
        value,
        expires_at: crate::time::deadline(now, ttl),
        last_access_epoch: crate::punnu::model::next_epoch(pre.clock()),
    };
    let victims = choose|victims: Seq<i64>| #[trigger]
        crate::punnu::model::insert_outcome(
            pre.entries(),
            pre.capacity(),
            pre.policy(),
            now,
            entry,
            victims,
            post.entries(),
            r.events@,
        );
    let base = crate::punnu::model::drop_if_expired(pre.entries(), value.spec_id(), now);
    let written = base.insert(value.spec_id(), entry);
    lemma_expired_go_first(written, pre.capacity(), now, Some(value.spec_id()), victims, y);
}

/// A delta evicts what can be read only where nothing expired is left.
pub proof fn delta_evicts_expired_entries_first<T: Cacheable, S: DeltaFilter<T>>(
    pre: &Punnu<T>,
    post: &Punnu<T>,
    delta: DeltaResult<T>,
    filter: S,
    now: Instant,
    r: Committed<T, DeltaApplyStats>,
    x: i64,
    y: i64,
)
    requires
        pre.wf(),
        Punnu::delta_effect(pre, post, delta, filter, now, r),
        pre.settings().default_ttl != Some(0u128),
        can_be_read(pre.entries(), x, now),
        !delta.tombstones@.contains(x),
        !post.entries().dom().contains(x),
        post.entries().dom().contains(y),
    ensures
        can_be_read(post.entries(), y, now),
{
    pre.lemma_wf();
    let m = pre.entries();
    let tombstones = delta.tombstones@;
    let items = crate::punnu::model::latest(delta.items@, tombstones);
    let (ids, buried, victims) = choose|ids: Seq<i64>, buried: Seq<i64>, victims: Seq<i64>| #[trigger]
        crate::punnu::model::delta_outcome(
            m,
            pre.clock(),
            pre.settings(),
            now,
            items,
            tombstones,
            filter,
            ids,
            buried,
            victims,
            post.entries(),
            r.events@,
            r.result,
            post.clock(),
        );
    let ttl = pre.settings().default_ttl;
    let a = crate::punnu::model::accept(m, pre.clock(), items, ids, filter, pre.policy(), ttl, now);
    lemma_item_met(m, pre.clock(), items, ids, filter, pre.policy(), ttl, now, x);
    assert(crate::punnu::model::live(a.entries, x, now)) by {
        if ids.contains(x) {
            let b = choose|b: Map<i64, Entry<T>>| #[trigger]
                item_met(m, b, a.entries, x, items[x], filter, pre.policy(), ttl, now);
        }
    }
    assert(victims.contains(x));
    lemma_accept_is_finite(m, pre.clock(), items, ids, filter, pre.policy(), ttl, now);
    let written = a.entries.remove_keys(tombstones);
    assert(written.dom().subset_of(a.entries.dom()));
    vstd::set_lib::lemma_set_subset_finite(a.entries.dom(), written.dom());
    lemma_expired_go_first(written, pre.capacity(), now, None, victims, y);
}

/// What is written stays finite, and each written entry gets an epoch later than the clock
/// stood at, no later than it stands then.
proof fn lemma_accept_is_finite<T: Cacheable, S: DeltaFilter<T>>(
    m: Map<i64, Entry<T>>,
    clock: u64,
    items: Map<i64, Arc<T>>,
    ids: Seq<i64>,
    filter: S,
    policy: OnConflict,
    ttl: Option<Duration>,
    now: Instant,
)
    requires
        m.dom().finite(),
    ensures
        ({
            let a = crate::punnu::model::accept(m, clock, items, ids, filter, policy, ttl, now);
            &&& a.entries.dom().finite()
            &&& a.entries.dom().len() <= m.dom().len() + ids.len()
            &&& clock + ids.len() <= u64::MAX ==> clock <= a.clock <= clock + ids.len()
            &&& clock + ids.len() <= u64::MAX ==> forall|id: i64| #[trigger]
                a.entries.dom().contains(id) ==> (m.dom().contains(id) && a.entries[id] == m[id])
                    || clock < a.entries[id].last_access_epoch <= a.clock
        }),
    decreases ids.len(),
{
    if ids.len() > 0 {
        lemma_accept_is_finite(m, clock, items, ids.drop_last(), filter, policy, ttl, now);
    }
}

/// What a delta writes counts as touched after everything that it did not write.
pub proof fn written_items_are_the_newest<T: Cacheable, S: DeltaFilter<T>>(
    pre: &Punnu<T>,
    post: &Punnu<T>,
    delta: DeltaResult<T>,
    filter: S,
    now: Instant,
    r: Committed<T, DeltaApplyStats>,
    id: i64,
)
    requires
        pre.wf(),
        Punnu::delta_effect(pre, post, delta, filter, now, r),
        pre.clock() + delta.items@.len() <= u64::MAX,
        post.entries().dom().contains(id),
    ensures
        pre.entries().dom().contains(id) && post.entries()[id] == pre.entries()[id] || (pre.clock()
            < post.entries()[id].last_access_epoch <= post.clock()),
{
    pre.lemma_wf();
    let m = pre.entries();
    let items = crate::punnu::model::latest(delta.items@, delta.tombstones@);
    let (ids, buried, victims) = choose|ids: Seq<i64>, buried: Seq<i64>, victims: Seq<i64>| #[trigger]
        crate::punnu::model::delta_outcome(
            m,
            pre.clock(),
            pre.settings(),
            now,
            items,
            delta.tombstones@,
            filter,
            ids,
            buried,
            victims,
            post.entries(),
            r.events@,
            r.result,
            post.clock(),
        );
    lemma_latest_is_short(delta.items@, delta.tombstones@);
    ids.unique_seq_to_set();
    lemma_accept_is_finite(
        m,
        pre.clock(),
        items,
        ids,
        filter,
        pre.policy(),
        pre.settings().default_ttl,
        now,
    );
}

/// There are no more latest items than items.
proof fn lemma_latest_is_short<T: Cacheable>(items: Seq<T>, dropped: Set<i64>)
    ensures
        crate::punnu::model::latest(items, dropped).dom().finite(),
        crate::punnu::model::latest(items, dropped).dom().len() <= items.len(),
    decreases items.len(),
{
    if items.len() > 0 {
        lemma_latest_is_short(items.drop_last(), dropped);
    }
}

/// Where there is room for the pool and every item, a delta keeps all: each item that it
/// does not delete is resident, and so is every entry that it does not delete.
pub proof fn delta_with_room_loses_nothing<T: Cacheable>(
    pre: &Punnu<T>,
    post: &Punnu<T>,
    delta: DeltaResult<T>,
    now: Instant,
    r: Committed<T, DeltaApplyStats>,
    i: int,
    id: i64,
)
    requires
        pre.wf(),
        Punnu::delta_effect(pre, post, delta, AcceptAll {  }, now, r),
        pre.entries().dom().len() + delta.items@.len() <= pre.capacity(),
        0 <= i < delta.items@.len(),
    ensures
        !delta.tombstones@.contains(delta.items@[i].spec_id()) ==> post.entries().dom().contains(
            delta.items@[i].spec_id(),
        ),
        can_be_read(pre.entries(), id, now) && !delta.tombstones@.contains(id)
            ==> post.entries().dom().contains(id),
        r.result.lru_evictions == 0,
{
    pre.lemma_wf();
    let m = pre.entries();
    let filter = AcceptAll {  };
    let tombstones = delta.tombstones@;
    let items = crate::punnu::model::latest(delta.items@, tombstones);
    let (ids, buried, victims) = choose|ids: Seq<i64>, buried: Seq<i64>, victims: Seq<i64>| #[trigger]
        crate::punnu::model::delta_outcome(
            m,
            pre.clock(),
            pre.settings(),
            now,
            items,
            tombstones,
            filter,
            ids,
            buried,
            victims,
            post.entries(),
            r.events@,
            r.result,
            post.clock(),
        );
    let ttl = pre.settings().default_ttl;
    let a = crate::punnu::model::accept(m, pre.clock(), items, ids, filter, pre.policy(), ttl, now);
    lemma_latest_is_short(delta.items@, tombstones);
    ids.unique_seq_to_set();
    lemma_accept_is_finite(m, pre.clock(), items, ids, filter, pre.policy(), ttl, now);
    let written = a.entries.remove_keys(tombstones);
    assert(written.dom().subset_of(a.entries.dom()));
    vstd::set_lib::lemma_set_subset_finite(a.entries.dom(), written.dom());
    vstd::set_lib::lemma_len_subset(written.dom(), a.entries.dom());
    crate::punnu::model::lemma_eviction_run(written, pre.capacity(), None, victims);
    assert(victims =~= Seq::<i64>::empty());
    assert(crate::punnu::model::without(written, victims) =~= written);
    let item = delta.items@[i].spec_id();
    if !tombstones.contains(item) {
        lemma_some_item_is_latest(delta.items@, tombstones, i);
        assert(ids.to_set().contains(item));
        lemma_item_met(m, pre.clock(), items, ids, filter, pre.policy(), ttl, now, item);
        let b = choose|b: Map<i64, Entry<T>>| #[trigger]
            item_met(m, b, a.entries, item, items[item], filter, pre.policy(), ttl, now);
    }
    lemma_item_met(m, pre.clock(), items, ids, filter, pre.policy(), ttl, now, id);
    if can_be_read(m, id, now) && ids.contains(id) {
        let b = choose|b: Map<i64, Entry<T>>| #[trigger]
            item_met(m, b, a.entries, id, items[id], filter, pre.policy(), ttl, now);
    }
    assert(crate::punnu::model::live_ids(m, victims, now).len() == 0);
}

/// In a pool of up to five entries, what is evicted is the entry that was touched least
/// recently, the protected one aside; that goes only where it is alone.
pub proof fn small_pools_evict_the_least_recent<T>(
    m: Map<i64, Entry<T>>,
    protected: Option<i64>,
    id: i64,
    other: i64,
)
    requires
        m.dom().finite(),
        m.dom().len() <= 5,
        crate::punnu::model::may_evict(m, protected, id),
        m.dom().contains(other),
        protected != Some(other),
    ensures
        m.dom().contains(id),
        m[id].last_access_epoch <= m[other].last_access_epoch,
        protected == Some(id) ==> m.dom().len() <= 1,
{
    if crate::punnu::eviction::is_sampled_victim(m, id) {
        crate::punnu::eviction::small_pools_evict_the_oldest(m, id);
    }
}

/// The access clock counts on by one for each write.
pub proof fn epochs_count_on(clock: u64, n: nat)
    requires
        clock + n <= u64::MAX,
    ensures
        crate::punnu::model::nth_epoch(clock, n) == clock + n,
    decreases n,
{
    if n > 0 {
        epochs_count_on(clock, (n - 1) as nat);
    }
}

/// A batch tells of each of its values whose id is resident: of an update where the pool
/// updates and something readable was there, and of an insert otherwise.
pub proof fn batches_tell_of_their_values<T: Cacheable>(
    m: Map<i64, Entry<T>>,
    capacity: usize,
    policy: OnConflict,
    reserved: Set<i64>,
    clock: u64,
    ttl: Option<Duration>,
    now: Instant,
    values: Seq<Arc<T>>,
    post: Map<i64, Entry<T>>,
    events: Seq<PunnuEvent<T>>,
    inserted: Vec<Arc<T>>,
    i: int,
)
    requires
        crate::punnu::pool::insert_many_outcome(
            m,
            capacity,
            policy,
            reserved,
            now,
            crate::punnu::model::fetched_batch(values, clock, ttl, now),
            post,
            events,
            FetchManyInsertResult::Ready(Ok(inserted)),
        ),
        0 <= i < values.len(),
        post.dom().contains(values[i].spec_id()),
    ensures
        exists|k: int|
            0 <= k < events.len() && (match #[trigger] events[k] {
                PunnuEvent::Insert { value } => value == values[i],
                PunnuEvent::Update { old, new } => policy == OnConflict::Update && new == values[i],
                _ => false,
            }),
        policy != OnConflict::Update ==> events.contains(PunnuEvent::Insert { value: values[i] }),
{
    let batch = crate::punnu::model::fetched_batch(values, clock, ttl, now);
    lemma_batch_lists(m, policy, reserved, now, batch);
    match crate::punnu::model::batch(m, policy, reserved, now, batch) {
        crate::punnu::model::BatchProgress::Taken(written, taken) => {
            let victims = choose|victims: Seq<i64>| #[trigger]
                crate::punnu::model::batch_outcome(
                    m,
                    capacity,
                    policy,
                    now,
                    written,
                    taken,
                    victims,
                    post,
                    events,
                );
            assert(batch[i].0 == values[i]);
            assert(taken[i].1 == values[i]);
            lemma_batch_event(post, policy, taken, i);
            let told = crate::punnu::model::batch_events(post, policy, taken);
            let event = crate::punnu::model::write_event(policy, taken[i].2, taken[i].1);
            let k = told.index_of(event);
            let n = events.len() - told.len();
            assert(events[n + k] == event);
        },
        _ => {},
    }
}

/// A batch that was taken lists its values.
proof fn lemma_batch_lists<T: Cacheable>(
    m: Map<i64, Entry<T>>,
    policy: OnConflict,
    reserved: Set<i64>,
    now: Instant,
    values: Seq<(Arc<T>, Option<Instant>, u64)>,
)
    ensures
        crate::punnu::model::batch(m, policy, reserved, now, values) matches
            crate::punnu::model::BatchProgress::Taken(written, taken) ==> taken.len()
            == values.len() && forall|i: int|
            0 <= i < taken.len() ==> (#[trigger] taken[i]).1 == values[i].0 && taken[i].0
                == values[i].0.spec_id(),
    decreases values.len(),
{
    if values.len() > 0 {
        lemma_batch_lists(m, policy, reserved, now, values.drop_last());
    }
}

/// The event of a listed value that is resident.
proof fn lemma_batch_event<T: Cacheable>(
    post: Map<i64, Entry<T>>,
    policy: OnConflict,
    taken: Seq<(i64, Arc<T>, Option<Arc<T>>)>,
    i: int,
)
    requires
        0 <= i < taken.len(),
        post.dom().contains(taken[i].0),
    ensures
        crate::punnu::model::batch_events(post, policy, taken).contains(
            crate::punnu::model::write_event(policy, taken[i].2, taken[i].1),
        ),
    decreases taken.len(),
{
    let front = taken.drop_last();
    let before = crate::punnu::model::batch_events(post, policy, front);
    let after = crate::punnu::model::batch_events(post, policy, taken);
    let event = crate::punnu::model::write_event(policy, taken[i].2, taken[i].1);
    if i == taken.len() - 1 {
        assert(after[before.len() as int] == event);
    } else {
        assert(front[i] == taken[i]);
        lemma_batch_event(post, policy, front, i);
        let k = before.index_of(event);
        assert(after[k] == event);
    }
}

/// Each event of written items tells of one of them that is resident.
proof fn lemma_accepted_events_are_of_items<T: Cacheable>(
    post: Map<i64, Entry<T>>,
    policy: OnConflict,
    items: Seq<(i64, Option<Arc<T>>)>,
    k: int,
)
    requires
        0 <= k < crate::punnu::model::accepted_events(post, policy, items).len(),
    ensures
        exists|j: int|
            0 <= j < items.len() && post.dom().contains((#[trigger] items[j]).0)
                && crate::punnu::model::accepted_events(post, policy, items)[k]
                == crate::punnu::model::write_event(policy, items[j].1, post[items[j].0].value),
    decreases items.len(),
{
    if items.len() > 0 {
        let front = items.drop_last();
        let before = crate::punnu::model::accepted_events(post, policy, front);
        if k < before.len() {
            lemma_accepted_events_are_of_items(post, policy, front, k);
            let j = choose|j: int|
                0 <= j < front.len() && post.dom().contains((#[trigger] front[j]).0) && before[k]
                    == crate::punnu::model::write_event(policy, front[j].1, post[front[j].0].value);
            assert(items[j] == front[j]);
        } else {
            assert(items[items.len() - 1] == items.last());
        }
    }
}

/// What is listed as written has an item, and is listed with the value that it replaced
/// where that could be read.
proof fn lemma_accepted_items_are_items<T: Cacheable, S: DeltaFilter<T>>(
    m: Map<i64, Entry<T>>,
    clock: u64,
    items: Map<i64, Arc<T>>,
    ids: Seq<i64>,
    filter: S,
    policy: OnConflict,
    ttl: Option<Duration>,
    now: Instant,
    k: int,
)
    requires
        ids.no_duplicates(),
        0 <= k < crate::punnu::model::accept(m, clock, items, ids, filter, policy, ttl, now).items.len(),
    ensures
        ({
            let a = crate::punnu::model::accept(m, clock, items, ids, filter, policy, ttl, now);
            let id = a.items[k].0;
            &&& ids.contains(id)
            &&& a.items[k].1 == (if can_be_read(m, id, now) {
                Some(m[id].value)
            } else {
                None
            })
            &&& !(can_be_read(m, id, now) && policy == OnConflict::Reject)
        }),
    decreases ids.len(),
{
    if ids.len() > 0 {
        let front = ids.drop_last();
        let last = ids.last();
        assert(front.no_duplicates());
        let before = crate::punnu::model::accept(m, clock, items, front, filter, policy, ttl, now);
        let a = crate::punnu::model::accept(m, clock, items, ids, filter, policy, ttl, now);
        if k < before.items.len() {
            lemma_accepted_items_are_items(m, clock, items, front, filter, policy, ttl, now, k);
            let i = front.index_of(before.items[k].0);
            assert(ids[i] == a.items[k].0);
        } else {
            assert(!front.contains(last)) by {
                if front.contains(last) {
                    let i = front.index_of(last);
                    assert(ids[i] == ids[ids.len() - 1]);
                }
            }
            lemma_item_met(m, clock, items, front, filter, policy, ttl, now, last);
            assert(ids[ids.len() - 1] == last);
        }
    }
}

/// A delta tells of nothing that did not happen: a write event is of an item that is
/// resident with the value told of, a deletion of a readable entry that the delta deletes,
/// and an eviction of a readable entry that is gone; an eviction leaves the pool just full.
pub proof fn delta_tells_the_truth<T: Cacheable, S: DeltaFilter<T>>(
    pre: &Punnu<T>,
    post: &Punnu<T>,
    delta: DeltaResult<T>,
    filter: S,
    now: Instant,
    r: Committed<T, DeltaApplyStats>,
    k: int,
)
    requires
        pre.wf(),
        Punnu::delta_effect(pre, post, delta, filter, now, r),
        0 <= k < r.events@.len(),
    ensures
        match r.events@[k] {
            PunnuEvent::Invalidate { id, reason } => if reason is OnDelete {
                delta.tombstones@.contains(id) && can_be_read(pre.entries(), id, now)
                    && !post.entries().dom().contains(id)
            } else {
                reason is LruEvict && can_be_read(pre.entries(), id, now)
                    && !post.entries().dom().contains(id) && post.entries().dom().len()
                    == pre.capacity()
            },
            PunnuEvent::Insert { value } => exists|id: i64| #[trigger]
                post.entries().dom().contains(id) && post.entries()[id].value == value
                    && r.events@[k] == tells_of(
                    pre.entries(),
                    pre.settings().on_conflict,
                    id,
                    value,
                    now,
                ),
            PunnuEvent::Update { old, new } => exists|id: i64| #[trigger]
                post.entries().dom().contains(id) && post.entries()[id].value == new
                    && r.events@[k] == tells_of(
                    pre.entries(),
                    pre.settings().on_conflict,
                    id,
                    new,
                    now,
                ),
        },
{
    pre.lemma_wf();
    delta_counts_its_events(pre, post, delta, filter, now, r);
    let m = pre.entries();
    let tombstones = delta.tombstones@;
    let items = crate::punnu::model::latest(delta.items@, tombstones);
    let (ids, buried, victims) = choose|ids: Seq<i64>, buried: Seq<i64>, victims: Seq<i64>| #[trigger]
        crate::punnu::model::delta_outcome(
            m,
            pre.clock(),
            pre.settings(),
            now,
            items,
            tombstones,
            filter,
            ids,
            buried,
            victims,
            post.entries(),
            r.events@,
            r.result,
            post.clock(),
        );
    let ttl = pre.settings().default_ttl;
    let a = crate::punnu::model::accept(m, pre.clock(), items, ids, filter, pre.policy(), ttl, now);
    let deleted = crate::punnu::model::live_ids(a.entries, buried, now);
    let evicted = crate::punnu::model::live_ids(m, victims, now);
    let written = crate::punnu::model::accepted_events(post.entries(), pre.policy(), a.items);
    if k < deleted.len() {
        let id = deleted[k];
        assert(deleted.contains(id));
        lemma_live_ids(a.entries, buried, now, id);
        assert(buried.to_set().contains(id));
        lemma_dropped_is_not_latest(delta.items@, tombstones, id);
        assert(!ids.contains(id)) by {
            if ids.contains(id) {
                assert(ids.to_set().contains(id));
            }
        }
        lemma_item_met(m, pre.clock(), items, ids, filter, pre.policy(), ttl, now, id);
        assert(r.events@[k] == (PunnuEvent::<T>::Invalidate { id, reason: EventReason::OnDelete }));
    } else if k < deleted.len() + evicted.len() {
        let id = evicted[k - deleted.len()];
        assert(evicted.contains(id));
        lemma_live_ids(m, victims, now, id);
        assert(r.events@[k] == (PunnuEvent::<T>::Invalidate {
            id,
            reason: EventReason::spec_lru_evict(),
        }));
        lemma_accept_is_finite(m, pre.clock(), items, ids, filter, pre.policy(), ttl, now);
        let left = a.entries.remove_keys(tombstones);
        assert(left.dom().subset_of(a.entries.dom()));
        vstd::set_lib::lemma_set_subset_finite(a.entries.dom(), left.dom());
        let roomy = crate::punnu::model::make_room(left, pre.capacity(), now);
        assert(roomy.dom().subset_of(left.dom()));
        vstd::set_lib::lemma_set_subset_finite(left.dom(), roomy.dom());
        crate::punnu::model::lemma_eviction_run(roomy, pre.capacity(), None, victims);
        assert(victims.to_set().contains(id));
    } else {
        let j = k - deleted.len() - evicted.len();
        assert(r.events@[k] == written[j]);
        lemma_accepted_events_are_of_items(post.entries(), pre.policy(), a.items, j);
        let n = choose|n: int|
            0 <= n < a.items.len() && post.entries().dom().contains((#[trigger] a.items[n]).0)
                && written[j] == crate::punnu::model::write_event(
                pre.policy(),
                a.items[n].1,
                post.entries()[a.items[n].0].value,
            );
        lemma_accepted_items_are_items(
            m,
            pre.clock(),
            items,
            ids,
            filter,
            pre.policy(),
            ttl,
            now,
            n,
        );
        assert(post.entries().dom().contains(a.items[n].0));
    }
}

/// A pool that rejects conflicts takes a batch only where none of its ids could be read, and
/// refuses it only where one could or an id comes twice.
pub proof fn rejecting_pools_refuse_known_ids<T: Cacheable>(
    m: Map<i64, Entry<T>>,
    capacity: usize,
    reserved: Set<i64>,
    clock: u64,
    ttl: Option<Duration>,
    now: Instant,
    values: Seq<Arc<T>>,
    post: Map<i64, Entry<T>>,
    events: Seq<PunnuEvent<T>>,
    result: FetchManyInsertResult<T>,
)
    requires
        crate::punnu::pool::insert_many_outcome(
            m,
            capacity,
            OnConflict::Reject,
            reserved,
            now,
            crate::punnu::model::fetched_batch(values, clock, ttl, now),
            post,
            events,
            result,
        ),
    ensures
        match result {
            FetchManyInsertResult::Ready(Ok(_)) => forall|i: int|
                0 <= i < values.len() ==> !can_be_read(m, (#[trigger] values[i]).spec_id(), now),
            FetchManyInsertResult::Ready(Err(_)) => exists|i: int| #[trigger]
                clashes_at(m, ids_of(values), now, i),
            FetchManyInsertResult::Blocked(_) => true,
        },
{
    let batch = crate::punnu::model::fetched_batch(values, clock, ttl, now);
    lemma_rejecting_batch(m, reserved, now, batch);
    match result {
        FetchManyInsertResult::Ready(Ok(_)) => {
            assert forall|i: int| 0 <= i < values.len() implies !can_be_read(
                m,
                (#[trigger] values[i]).spec_id(),
                now,
            ) by {
                assert(batch[i].0 == values[i]);
            }
        },
        FetchManyInsertResult::Ready(Err(_)) => {
            assert(batch_ids(batch) =~= ids_of(values));
        },
        _ => {},
    }
}

/// The ids of values.
pub open spec fn ids_of<T: Cacheable>(values: Seq<Arc<T>>) -> Seq<i64> {
    Seq::new(values.len(), |i: int| values[i].spec_id())
}

/// The ids of the values of a batch.
spec fn batch_ids<T: Cacheable>(values: Seq<(Arc<T>, Option<Instant>, u64)>) -> Seq<i64> {
    Seq::new(values.len(), |i: int| values[i].0.spec_id())
}

/// The id at place `i` could be read, or came before.
pub open spec fn clashes_at<T>(m: Map<i64, Entry<T>>, ids: Seq<i64>, now: Instant, i: int) -> bool {
    0 <= i < ids.len() && (can_be_read(m, ids[i], now) || ids.take(i).contains(ids[i]))
}

#[verifier::spinoff_prover]
proof fn lemma_rejecting_batch<T: Cacheable>(
    m: Map<i64, Entry<T>>,
    reserved: Set<i64>,
    now: Instant,
    values: Seq<(Arc<T>, Option<Instant>, u64)>,
)
    ensures
        match crate::punnu::model::batch(m, OnConflict::Reject, reserved, now, values) {
            crate::punnu::model::BatchProgress::Taken(written, taken) => forall|i: int|
                0 <= i < values.len() ==> !can_be_read(m, (#[trigger] values[i]).0.spec_id(), now),
            crate::punnu::model::BatchProgress::Blocked(_) => true,
            crate::punnu::model::BatchProgress::Refused => exists|i: int| #[trigger]
                clashes_at(m, batch_ids(values), now, i),
        },
    decreases values.len(),
{
    if values.len() > 0 {
        let front = values.drop_last();
        let last = values.len() - 1;
        let ids = batch_ids(values);
        let front_ids = batch_ids(front);
        assert(ids.drop_last() =~= front_ids);
        lemma_rejecting_batch(m, reserved, now, front);
        let id = values[last].0.spec_id();
        lemma_batch(m, OnConflict::Reject, reserved, now, front, id);
        match crate::punnu::model::batch(m, OnConflict::Reject, reserved, now, front) {
            crate::punnu::model::BatchProgress::Taken(before, took) => {
                lemma_rejecting_step(m, reserved, now, values, before, took);
            },
            crate::punnu::model::BatchProgress::Blocked(_) => {},
            crate::punnu::model::BatchProgress::Refused => {
                let i = choose|i: int| #[trigger] clashes_at(m, front_ids, now, i);
                assert(ids.take(i) =~= front_ids.take(i));
                assert(clashes_at(m, ids, now, i));
            },
        }
    }
}

#[verifier::spinoff_prover]
proof fn lemma_rejecting_step<T: Cacheable>(
    m: Map<i64, Entry<T>>,
    reserved: Set<i64>,
    now: Instant,
    values: Seq<(Arc<T>, Option<Instant>, u64)>,
    before: Map<i64, Entry<T>>,
    took: Seq<(i64, Arc<T>, Option<Arc<T>>)>,
)
    requires
        values.len() > 0,
        crate::punnu::model::batch(m, OnConflict::Reject, reserved, now, values.drop_last())
            == crate::punnu::model::BatchProgress::Taken(before, took),
        forall|i: int|
            0 <= i < values.drop_last().len() ==> !can_be_read(
                m,
                (#[trigger] values.drop_last()[i]).0.spec_id(),
                now,
            ),
        ({
            let front = values.drop_last();
            let id = values.last().0.spec_id();
            (forall|i: int| 0 <= i < front.len() ==> (#[trigger] front[i]).0.spec_id() != id)
                ==> before.dom().contains(id) == m.dom().contains(id) && (m.dom().contains(id)
                ==> before[id] == m[id])
        }),
    ensures
        match crate::punnu::model::batch(m, OnConflict::Reject, reserved, now, values) {
            crate::punnu::model::BatchProgress::Taken(written, taken) => forall|i: int|
                0 <= i < values.len() ==> !can_be_read(m, (#[trigger] values[i]).0.spec_id(), now),
            crate::punnu::model::BatchProgress::Blocked(_) => true,
            crate::punnu::model::BatchProgress::Refused => exists|i: int| #[trigger]
                clashes_at(m, batch_ids(values), now, i),
        },
{
    let front = values.drop_last();
    let last = values.len() - 1;
    let id = values.last().0.spec_id();
    let ids = batch_ids(values);
    let earlier = exists|i: int| 0 <= i < front.len() && (#[trigger] front[i]).0.spec_id() == id;
    if earlier {
        let i = choose|i: int| 0 <= i < front.len() && (#[trigger] front[i]).0.spec_id() == id;
        assert(ids.take(last)[i] == ids[last]);
        assert(clashes_at(m, ids, now, last));
        assert(!can_be_read(m, front[i].0.spec_id(), now));
    }
    if crate::punnu::model::batch(m, OnConflict::Reject, reserved, now, values) is Taken {
        assert forall|i: int| 0 <= i < values.len() implies !can_be_read(
            m,
            (#[trigger] values[i]).0.spec_id(),
            now,
        ) by {
            if i < last {
                assert(front[i] == values[i]);
            }
        }
    }
    if crate::punnu::model::batch(m, OnConflict::Reject, reserved, now, values) is Refused
        && !earlier {
        assert(can_be_read(m, id, now));
        assert(clashes_at(m, ids, now, last));
    }
}

/// Missing ids come in the order of their first mention.
pub proof fn missing_ids_keep_their_order<T>(
    m: Map<i64, Entry<T>>,
    first: Seq<i64>,
    id: i64,
    now: Instant,
)
    ensures
        crate::punnu::model::missing_ids(m, Seq::empty(), now).len() == 0,
        crate::punnu::model::missing_ids(m, first.push(id), now) == if can_be_read(m, id, now)
            || first.contains(id) {
            crate::punnu::model::missing_ids(m, first, now)
        } else {
            crate::punnu::model::missing_ids(m, first, now).push(id)
        },
{
    assert(first.push(id).drop_last() =~= first);
    crate::punnu::laws::missing_ids_are_those_not_live(m, first, now, id);
}

/// A refresh tells of nothing that did not happen: a drop by hand is of a readable entry that
/// a replacing refresh did not fetch, an eviction of a readable entry that is gone, and a
/// write of a resident entry with the value told of.
pub proof fn refresh_tells_the_truth<T: Cacheable>(
    pre: &Punnu<T>,
    post: &Punnu<T>,
    items: Seq<T>,
    mode: RefreshMode,
    now: Instant,
    r: Committed<T, ()>,
    k: int,
)
    requires
        pre.wf(),
        Punnu::refresh_effect(pre, post, items, mode, now, r),
        0 <= k < r.events@.len(),
    ensures
        match r.events@[k] {
            PunnuEvent::Invalidate { id, reason } => if reason is Manual {
                mode == RefreshMode::Replace && can_be_read(pre.entries(), id, now)
                    && !post.entries().dom().contains(id) && forall|i: int|
                    0 <= i < items.len() ==> (#[trigger] items[i]).spec_id() != id
            } else {
                reason is LruEvict && can_be_read(pre.entries(), id, now)
                    && !post.entries().dom().contains(id)
            },
            PunnuEvent::Insert { value } => exists|id: i64| #[trigger]
                post.entries().dom().contains(id) && post.entries()[id].value == value
                    && r.events@[k] == tells_of(
                    pre.entries(),
                    pre.settings().on_conflict,
                    id,
                    value,
                    now,
                ),
            PunnuEvent::Update { old, new } => exists|id: i64| #[trigger]
                post.entries().dom().contains(id) && post.entries()[id].value == new
                    && r.events@[k] == tells_of(
                    pre.entries(),
                    pre.settings().on_conflict,
                    id,
                    new,
                    now,
                ),
        },
{
    pre.lemma_wf();
    let m = pre.entries();
    let fetched = crate::punnu::model::latest(items, Set::empty());
    let (ids, victims) = choose|ids: Seq<i64>, victims: Seq<i64>| #[trigger]
        crate::punnu::model::refresh_outcome(
            m,
            pre.order(),
            pre.clock(),
            pre.settings(),
            now,
            fetched,
            mode,
            ids,
            victims,
            post.entries(),
            r.events@,
            post.clock(),
        );
    let kept = if mode == RefreshMode::Replace {
        m.restrict(fetched.dom())
    } else {
        m
    };
    let absent = crate::punnu::model::absent_ids(pre.order(), fetched.dom());
    let gone = if mode == RefreshMode::Replace {
        crate::punnu::model::live_ids(m, absent, now)
    } else {
        Seq::empty()
    };
    let ttl = pre.settings().default_ttl;
    let filter = AcceptAll {  };
    let a = crate::punnu::model::accept(
        kept,
        pre.clock(),
        fetched,
        ids,
        filter,
        pre.policy(),
        ttl,
        now,
    );
    let evicted = crate::punnu::model::live_ids(m, victims, now);
    let written = crate::punnu::model::accepted_events(post.entries(), pre.policy(), a.items);
    if k < gone.len() {
        let id = gone[k];
        assert(gone.contains(id));
        lemma_live_ids(m, absent, now, id);
        lemma_absent_ids(pre.order(), fetched.dom(), id);
        assert forall|i: int| 0 <= i < items.len() implies (#[trigger] items[i]).spec_id() != id by {
            if items[i].spec_id() == id {
                lemma_some_item_is_latest(items, Set::empty(), i);
            }
        }
        assert(!ids.contains(id)) by {
            if ids.contains(id) {
                assert(ids.to_set().contains(id));
            }
        }
        lemma_item_met(kept, pre.clock(), fetched, ids, filter, pre.policy(), ttl, now, id);
        assert(r.events@[k] == (PunnuEvent::<T>::Invalidate { id, reason: EventReason::Manual }));
    } else if k < gone.len() + evicted.len() {
        let id = evicted[k - gone.len()];
        assert(evicted.contains(id));
        lemma_live_ids(m, victims, now, id);
        assert(victims.to_set().contains(id));
        assert(r.events@[k] == (PunnuEvent::<T>::Invalidate {
            id,
            reason: EventReason::spec_lru_evict(),
        }));
    } else {
        let j = k - gone.len() - evicted.len();
        assert(r.events@[k] == written[j]);
        lemma_accepted_events_are_of_items(post.entries(), pre.policy(), a.items, j);
        let n = choose|n: int|
            0 <= n < a.items.len() && post.entries().dom().contains((#[trigger] a.items[n]).0)
                && written[j] == crate::punnu::model::write_event(
                pre.policy(),
                a.items[n].1,
                post.entries()[a.items[n].0].value,
            );
        lemma_accepted_items_are_items(
            kept,
            pre.clock(),
            fetched,
            ids,
            filter,
            pre.policy(),
            ttl,
            now,
            n,
        );
        let id = a.items[n].0;
        assert(ids.to_set().contains(id));
        assert(fetched.dom().contains(id));
        assert(can_be_read(kept, id, now) == can_be_read(m, id, now));
        assert(post.entries().dom().contains(id));
    }
}

/// A batch tells of an eviction only of a readable entry that is gone.
pub proof fn batches_tell_of_true_evictions<T: Cacheable>(
    m: Map<i64, Entry<T>>,
    capacity: usize,
    policy: OnConflict,
    reserved: Set<i64>,
    clock: u64,
    ttl: Option<Duration>,
    now: Instant,
    values: Seq<Arc<T>>,
    post: Map<i64, Entry<T>>,
    events: Seq<PunnuEvent<T>>,
    result: FetchManyInsertResult<T>,
    k: int,
)
    requires
        crate::punnu::pool::insert_many_outcome(
            m,
            capacity,
            policy,
            reserved,
            now,
            crate::punnu::model::fetched_batch(values, clock, ttl, now),
            post,
            events,
            result,
        ),
        0 <= k < events.len(),
    ensures
        events[k] matches PunnuEvent::Invalidate { id, reason } ==> reason is LruEvict
            && can_be_read(m, id, now) && !post.dom().contains(id),
        post.dom().len() <= capacity || events.len() == 0,
{
    let batch = crate::punnu::model::fetched_batch(values, clock, ttl, now);
    match crate::punnu::model::batch(m, policy, reserved, now, batch) {
        crate::punnu::model::BatchProgress::Taken(written, taken) => {
            let victims = choose|victims: Seq<i64>| #[trigger]
                crate::punnu::model::batch_outcome(
                    m,
                    capacity,
                    policy,
                    now,
                    written,
                    taken,
                    victims,
                    post,
                    events,
                );
            let evicted = crate::punnu::model::live_ids(m, victims, now);
            if k < evicted.len() {
                assert(evicted.contains(evicted[k]));
                lemma_live_ids(m, victims, now, evicted[k]);
                assert(victims.to_set().contains(evicted[k]));
            } else {
                lemma_batch_events_are_writes(post, policy, taken);
                assert(events[k] == crate::punnu::model::batch_events(post, policy, taken)[k
                    - evicted.len()]);
            }
        },
        _ => {},
    }
}

/// Events of the values of a batch are no invalidations.
proof fn lemma_batch_events_are_writes<T: Cacheable>(
    post: Map<i64, Entry<T>>,
    policy: OnConflict,
    taken: Seq<(i64, Arc<T>, Option<Arc<T>>)>,
)
    ensures
        forall|k: int|
            0 <= k < crate::punnu::model::batch_events(post, policy, taken).len() ==> !((
            #[trigger] crate::punnu::model::batch_events(post, policy, taken)[k]) is Invalidate),
    decreases taken.len(),
{
    if taken.len() > 0 {
        lemma_batch_events_are_writes(post, policy, taken.drop_last());
    }
}

} // verus!

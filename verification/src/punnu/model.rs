//! What writes do to the resident entries, over maps from id to entry.

use vstd::prelude::*;
use crate::cacheable::Cacheable;
use crate::punnu::config::{OnConflict, PunnuConfig};
use crate::punnu::delta::{AcceptAll, DeltaApplyStats, DeltaFilter};
use crate::punnu::events::{EventReason, PunnuEvent};
use crate::punnu::refresh::RefreshMode;
use crate::punnu::state::Entry;
use crate::time::{Duration, Instant};
use std::sync::Arc;

verus! {

/// `id` is resident and not expired.
pub open spec fn live<T>(m: Map<i64, Entry<T>>, id: i64, now: Instant) -> bool {
    m.dom().contains(id) && !m[id].expired(now)
}

/// The entries without that of `id`, where it is expired.
pub open spec fn drop_if_expired<T>(m: Map<i64, Entry<T>>, id: i64, now: Instant) -> Map<
    i64,
    Entry<T>,
> {
    if m.dom().contains(id) && m[id].expired(now) {
        m.remove(id)
    } else {
        m
    }
}

/// The entries that are not expired.
pub open spec fn unexpired<T>(m: Map<i64, Entry<T>>, now: Instant) -> Map<i64, Entry<T>> {
    m.restrict(Set::new(|id: i64| !m[id].expired(now)))
}

/// The entries after the expired ones made room: they go only where there are
/// more entries than `capacity`.
pub open spec fn make_room<T>(m: Map<i64, Entry<T>>, capacity: usize, now: Instant) -> Map<
    i64,
    Entry<T>,
> {
    if m.dom().len() <= capacity {
        m
    } else {
        unexpired(m, now)
    }
}

/// The entries without those of `ids`.
pub open spec fn without<T>(m: Map<i64, Entry<T>>, ids: Seq<i64>) -> Map<i64, Entry<T>> {
    m.remove_keys(ids.to_set())
}

/// `id` may be evicted from `m`: it is the oldest entry of a sample. Where that
/// is the protected entry and there is another, it is the oldest of the others.
pub open spec fn may_evict<T>(m: Map<i64, Entry<T>>, protected: Option<i64>, id: i64) -> bool {
    ||| crate::punnu::eviction::is_sampled_victim(m, id) && (protected != Some(id) || m.dom().len()
        <= 1)
    ||| {
        &&& protected matches Some(p)
        &&& m.dom().len() > 1
        &&& crate::punnu::eviction::is_sampled_victim(m, p)
        &&& crate::punnu::eviction::is_oldest(m, m.dom().remove(p), id)
    }
}

/// The `k`-th victim is taken while there are too many entries, and may be.
pub open spec fn eviction_step<T>(
    m: Map<i64, Entry<T>>,
    capacity: usize,
    protected: Option<i64>,
    victims: Seq<i64>,
    k: int,
) -> bool {
    let left = without(m, victims.take(k));
    left.dom().len() > capacity && may_evict(left, protected, victims[k])
}

/// Taking `victims` out of `m` one by one brings it down to `capacity`.
pub open spec fn eviction_run<T>(
    m: Map<i64, Entry<T>>,
    capacity: usize,
    protected: Option<i64>,
    victims: Seq<i64>,
) -> bool {
    &&& forall|k: int|
        0 <= k < victims.len() ==> #[trigger] eviction_step(m, capacity, protected, victims, k)
    &&& without(m, victims).dom().len() <= capacity
}

/// One invalidation per id, in order.
pub open spec fn invalidations<T: Cacheable>(ids: Seq<i64>, reason: EventReason) -> Seq<
    PunnuEvent<T>,
> {
    Seq::new(ids.len(), |i: int| PunnuEvent::Invalidate { id: ids[i], reason })
}

/// The ids that are live in `m`, in order.
pub open spec fn live_ids<T>(m: Map<i64, Entry<T>>, ids: Seq<i64>, now: Instant) -> Seq<i64>
    decreases ids.len(),
{
    if ids.len() == 0 {
        Seq::empty()
    } else {
        let before = live_ids(m, ids.drop_last(), now);
        if live(m, ids.last(), now) {
            before.push(ids.last())
        } else {
            before
        }
    }
}

/// The event that tells about a write of `value` over `replaced`.
pub open spec fn write_event<T: Cacheable>(
    policy: OnConflict,
    replaced: Option<Arc<T>>,
    value: Arc<T>,
) -> PunnuEvent<T> {
    match (replaced, policy) {
        (Some(old), OnConflict::Update) => PunnuEvent::Update { old, new: value },
        _ => PunnuEvent::Insert { value },
    }
}

/// The value that a write of `id` replaces.
pub open spec fn replaced_value<T>(m: Map<i64, Entry<T>>, id: i64) -> Option<Arc<T>> {
    if m.dom().contains(id) {
        Some(m[id].value)
    } else {
        None
    }
}

/// A write of `id` is refused: the pool rejects conflicts and `id` is live.
pub open spec fn conflicts<T>(
    m: Map<i64, Entry<T>>,
    policy: OnConflict,
    id: i64,
    now: Instant,
) -> bool {
    policy == OnConflict::Reject && live(m, id, now)
}

/// The access epoch after `clock`.
pub open spec fn next_epoch(clock: u64) -> u64 {
    if clock == u64::MAX {
        0
    } else {
        (clock + 1) as u64
    }
}

/// What a write of one entry comes to: an expired entry of its id counts as
/// absent, expired entries make room first, then `victims` are evicted and told
/// about, and last comes the event of the write itself.
pub open spec fn insert_outcome<T: Cacheable>(
    m: Map<i64, Entry<T>>,
    capacity: usize,
    policy: OnConflict,
    now: Instant,
    entry: Entry<T>,
    victims: Seq<i64>,
    post: Map<i64, Entry<T>>,
    events: Seq<PunnuEvent<T>>,
) -> bool {
    let id = entry.value.spec_id();
    let base = drop_if_expired(m, id, now);
    let roomy = make_room(base.insert(id, entry), capacity, now);
    &&& eviction_run(roomy, capacity, Some(id), victims)
    &&& post == without(roomy, victims)
    &&& events == invalidations::<T>(victims, EventReason::spec_lru_evict()).push(
        write_event(policy, replaced_value(base, id), entry.value),
    )
}

/// One value of a batch: the value, its deadline and its access epoch.
pub type BatchItem<T> = (Arc<T>, Option<Instant>, u64);

/// How far a batch of values gets.
pub enum BatchProgress<T> {
    /// A value's id is reserved by a backend write.
    Blocked(i64),
    /// A value was refused.
    Refused,
    /// Every value was taken: the entries, and for each value its id and the
    /// value that it replaced.
    Taken(Map<i64, Entry<T>>, Seq<(i64, Arc<T>, Option<Arc<T>>)>),
}

/// Writes `values` into `m` one after the other, up to the first that is
/// blocked or refused.
pub open spec fn batch<T: Cacheable>(
    m: Map<i64, Entry<T>>,
    policy: OnConflict,
    reserved: Set<i64>,
    now: Instant,
    values: Seq<BatchItem<T>>,
) -> BatchProgress<T>
    decreases values.len(),
{
    if values.len() == 0 {
        BatchProgress::Taken(m, Seq::empty())
    } else {
        match batch(m, policy, reserved, now, values.drop_last()) {
            BatchProgress::Taken(before, taken) => {
                let (value, expires_at, epoch) = values.last();
                let id = value.spec_id();
                let base = drop_if_expired(before, id, now);
                if reserved.contains(id) {
                    BatchProgress::Blocked(id)
                } else if base.dom().contains(id) && policy == OnConflict::Reject {
                    BatchProgress::Refused
                } else {
                    BatchProgress::Taken(
                        base.insert(id, Entry { value, expires_at, last_access_epoch: epoch }),
                        taken.push((id, value, replaced_value(base, id))),
                    )
                }
            },
            stopped => stopped,
        }
    }
}

/// A batch that stops early stops there however it goes on.
pub proof fn lemma_batch_stops<T: Cacheable>(
    m: Map<i64, Entry<T>>,
    policy: OnConflict,
    reserved: Set<i64>,
    now: Instant,
    values: Seq<BatchItem<T>>,
    k: int,
)
    requires
        0 <= k <= values.len(),
        !(batch(m, policy, reserved, now, values.take(k)) is Taken),
    ensures
        batch(m, policy, reserved, now, values) == batch(m, policy, reserved, now, values.take(k)),
    decreases values.len(),
{
    if k == values.len() {
        assert(values.take(k) =~= values);
    } else {
        assert(values.drop_last().take(k) =~= values.take(k));
        lemma_batch_stops(m, policy, reserved, now, values.drop_last(), k);
    }
}

/// The values of a batch.
pub open spec fn batch_values<T>(values: Seq<BatchItem<T>>) -> Seq<Arc<T>> {
    Seq::new(values.len(), |i: int| values[i].0)
}

/// The events of the values of a batch that are resident in `post`.
pub open spec fn batch_events<T: Cacheable>(
    post: Map<i64, Entry<T>>,
    policy: OnConflict,
    taken: Seq<(i64, Arc<T>, Option<Arc<T>>)>,
) -> Seq<PunnuEvent<T>>
    decreases taken.len(),
{
    if taken.len() == 0 {
        Seq::empty()
    } else {
        let before = batch_events(post, policy, taken.drop_last());
        let (id, value, old) = taken.last();
        if post.dom().contains(id) {
            before.push(write_event(policy, old, value))
        } else {
            before
        }
    }
}

/// What a batch that was taken comes to. Evictions are told about where the
/// victim could be seen before the batch.
pub open spec fn batch_outcome<T: Cacheable>(
    m: Map<i64, Entry<T>>,
    capacity: usize,
    policy: OnConflict,
    now: Instant,
    written: Map<i64, Entry<T>>,
    taken: Seq<(i64, Arc<T>, Option<Arc<T>>)>,
    victims: Seq<i64>,
    post: Map<i64, Entry<T>>,
    events: Seq<PunnuEvent<T>>,
) -> bool {
    let roomy = make_room(written, capacity, now);
    &&& eviction_run(roomy, capacity, None, victims)
    &&& post == without(roomy, victims)
    &&& events == invalidations::<T>(live_ids(m, victims, now), EventReason::spec_lru_evict())
        + batch_events(post, policy, taken)
}

/// The last item of each id, without the ids that are `dropped`.
pub open spec fn latest<T: Cacheable>(items: Seq<T>, dropped: Set<i64>) -> Map<i64, Arc<T>>
    decreases items.len(),
{
    if items.len() == 0 {
        Map::empty()
    } else {
        let before = latest(items.drop_last(), dropped);
        let id = items.last().spec_id();
        if dropped.contains(id) {
            before
        } else {
            before.insert(id, Arc::new(items.last()))
        }
    }
}

/// Where a write of several items stands: the entries, the ids that were
/// written with the value that each replaced, and the access clock.
pub struct Acceptance<T> {
    pub entries: Map<i64, Entry<T>>,
    pub items: Seq<(i64, Option<Arc<T>>)>,
    pub clock: u64,
}

/// Writes the items of `ids` into `m`, one after the other. An item is passed
/// over where the pool refuses it or `filter` skips it.
pub open spec fn accept<T: Cacheable, S: DeltaFilter<T>>(
    m: Map<i64, Entry<T>>,
    clock: u64,
    items: Map<i64, Arc<T>>,
    ids: Seq<i64>,
    filter: S,
    policy: OnConflict,
    ttl: Option<Duration>,
    now: Instant,
) -> Acceptance<T>
    decreases ids.len(),
{
    if ids.len() == 0 {
        Acceptance { entries: m, items: Seq::empty(), clock }
    } else {
        let a = accept(m, clock, items, ids.drop_last(), filter, policy, ttl, now);
        let id = ids.last();
        let base = drop_if_expired(a.entries, id, now);
        if base.dom().contains(id) && policy == OnConflict::Reject || filter.skips(
            base,
            id,
            *items[id],
        ) {
            Acceptance { entries: base, ..a }
        } else {
            let epoch = next_epoch(a.clock);
            Acceptance {
                entries: base.insert(
                    id,
                    Entry {
                        value: items[id],
                        expires_at: crate::time::deadline(now, ttl),
                        last_access_epoch: epoch,
                    },
                ),
                items: a.items.push((id, replaced_value(base, id))),
                clock: epoch,
            }
        }
    }
}

/// The events of the written items that are resident in `post`.
pub open spec fn accepted_events<T: Cacheable>(
    post: Map<i64, Entry<T>>,
    policy: OnConflict,
    items: Seq<(i64, Option<Arc<T>>)>,
) -> Seq<PunnuEvent<T>>
    decreases items.len(),
{
    if items.len() == 0 {
        Seq::empty()
    } else {
        let before = accepted_events(post, policy, items.drop_last());
        let (id, old) = items.last();
        if post.dom().contains(id) {
            before.push(write_event(policy, old, post[id].value))
        } else {
            before
        }
    }
}

/// The ids of `order` that are not in `kept`, in order.
pub open spec fn absent_ids(order: Seq<i64>, kept: Set<i64>) -> Seq<i64>
    decreases order.len(),
{
    if order.len() == 0 {
        Seq::empty()
    } else {
        let before = absent_ids(order.drop_last(), kept);
        if kept.contains(order.last()) {
            before
        } else {
            before.push(order.last())
        }
    }
}

/// What a delta comes to. Its items are written in ascending order of id, its
/// tombstones then remove their entries in the order `buried`, and capacity is
/// kept as for a batch.
pub open spec fn delta_outcome<T: Cacheable, S: DeltaFilter<T>>(
    m: Map<i64, Entry<T>>,
    clock: u64,
    config: PunnuConfig,
    now: Instant,
    items: Map<i64, Arc<T>>,
    tombstones: Set<i64>,
    filter: S,
    ids: Seq<i64>,
    buried: Seq<i64>,
    victims: Seq<i64>,
    post: Map<i64, Entry<T>>,
    events: Seq<PunnuEvent<T>>,
    stats: DeltaApplyStats,
    post_clock: u64,
) -> bool {
    let a = accept(m, clock, items, ids, filter, config.on_conflict, config.default_ttl, now);
    let roomy = make_room(a.entries.remove_keys(tombstones), config.lru_size, now);
    let deleted = live_ids(a.entries, buried, now);
    let evicted = live_ids(m, victims, now);
    let written = accepted_events(post, config.on_conflict, a.items);
    &&& crate::ids::ascending(ids) && crate::ids::lists(ids, items.dom())
    &&& crate::ids::lists(buried, tombstones)
    &&& eviction_run(roomy, config.lru_size, None, victims)
    &&& post == without(roomy, victims)
    &&& events == invalidations::<T>(deleted, EventReason::OnDelete) + invalidations::<T>(
        evicted,
        EventReason::spec_lru_evict(),
    ) + written
    &&& stats.applied_items == written.len()
    &&& stats.tombstones_evicted == deleted.len()
    &&& stats.lru_evictions == evicted.len()
    &&& post_clock == a.clock
}

/// What a refresh comes to. Where it replaces the pool, the entries of `order`
/// that were not fetched go first.
pub open spec fn refresh_outcome<T: Cacheable>(
    m: Map<i64, Entry<T>>,
    order: Seq<i64>,
    clock: u64,
    config: PunnuConfig,
    now: Instant,
    items: Map<i64, Arc<T>>,
    mode: RefreshMode,
    ids: Seq<i64>,
    victims: Seq<i64>,
    post: Map<i64, Entry<T>>,
    events: Seq<PunnuEvent<T>>,
    post_clock: u64,
) -> bool {
    let kept = if mode == RefreshMode::Replace {
        m.restrict(items.dom())
    } else {
        m
    };
    let gone = if mode == RefreshMode::Replace {
        live_ids(m, absent_ids(order, items.dom()), now)
    } else {
        Seq::empty()
    };
    let a = accept(
        kept,
        clock,
        items,
        ids,
        AcceptAll {  },
        config.on_conflict,
        config.default_ttl,
        now,
    );
    let roomy = make_room(a.entries, config.lru_size, now);
    &&& crate::ids::ascending(ids) && crate::ids::lists(ids, items.dom())
    &&& eviction_run(roomy, config.lru_size, None, victims)
    &&& post == without(roomy, victims)
    &&& events == invalidations::<T>(gone, EventReason::Manual) + invalidations::<T>(
        live_ids(m, victims, now),
        EventReason::spec_lru_evict(),
    ) + accepted_events(post, config.on_conflict, a.items)
    &&& post_clock == a.clock
}

/// The access epoch `n` steps after `clock`.
pub open spec fn nth_epoch(clock: u64, n: nat) -> u64
    decreases n,
{
    if n == 0 {
        clock
    } else {
        next_epoch(nth_epoch(clock, (n - 1) as nat))
    }
}

/// The batch that inserts `values`, each with an epoch of its own.
pub open spec fn fetched_batch<T>(
    values: Seq<Arc<T>>,
    clock: u64,
    ttl: Option<Duration>,
    now: Instant,
) -> Seq<BatchItem<T>> {
    Seq::new(
        values.len(),
        |i: int| (values[i], crate::time::deadline(now, ttl), nth_epoch(clock, (i + 1) as nat)),
    )
}

/// The entries and the clock after looking up `ids` in order: each live entry
/// is marked as just used.
pub open spec fn looked_up<T>(
    m: Map<i64, Entry<T>>,
    clock: u64,
    ids: Seq<i64>,
    now: Instant,
) -> (Map<i64, Entry<T>>, u64)
    decreases ids.len(),
{
    if ids.len() == 0 {
        (m, clock)
    } else {
        let (before, at) = looked_up(m, clock, ids.drop_last(), now);
        let id = ids.last();
        if live(before, id, now) {
            let epoch = next_epoch(at);
            (before.insert(id, Entry { last_access_epoch: epoch, ..before[id] }), epoch)
        } else {
            (before, at)
        }
    }
}

/// The values of the live ids, in order.
pub open spec fn live_values<T>(m: Map<i64, Entry<T>>, ids: Seq<i64>, now: Instant) -> Seq<Arc<T>>
    decreases ids.len(),
{
    if ids.len() == 0 {
        Seq::empty()
    } else {
        let before = live_values(m, ids.drop_last(), now);
        if live(m, ids.last(), now) {
            before.push(m[ids.last()].value)
        } else {
            before
        }
    }
}

/// The ids that are not live, each once, in the order of their first mention.
pub open spec fn missing_ids<T>(m: Map<i64, Entry<T>>, ids: Seq<i64>, now: Instant) -> Seq<i64>
    decreases ids.len(),
{
    if ids.len() == 0 {
        Seq::empty()
    } else {
        let before = missing_ids(m, ids.drop_last(), now);
        if live(m, ids.last(), now) || before.contains(ids.last()) {
            before
        } else {
            before.push(ids.last())
        }
    }
}

/// Looking ids up changes nothing but access epochs.
pub open spec fn same_but_epochs<T>(a: Map<i64, Entry<T>>, b: Map<i64, Entry<T>>) -> bool {
    &&& a.dom() == b.dom()
    &&& forall|id: i64| #[trigger]
        a.dom().contains(id) ==> a[id].value == b[id].value && a[id].expires_at == b[id].expires_at
}

/// Looking ids up changes nothing but access epochs.
pub proof fn lemma_looked_up<T>(m: Map<i64, Entry<T>>, clock: u64, ids: Seq<i64>, now: Instant)
    ensures
        same_but_epochs(m, looked_up(m, clock, ids, now).0),
    decreases ids.len(),
{
    if ids.len() > 0 {
        lemma_looked_up(m, clock, ids.drop_last(), now);
        let before = looked_up(m, clock, ids.drop_last(), now).0;
        let after = looked_up(m, clock, ids, now).0;
        assert(after.dom() =~= before.dom());
        assert forall|id: i64| #[trigger] m.dom().contains(id) implies m[id].value
            == after[id].value && m[id].expires_at == after[id].expires_at by {}
    }
}

/// The ids of expired entries among `ids`, each once, in order.
pub open spec fn expired_among<T>(m: Map<i64, Entry<T>>, ids: Seq<i64>, now: Instant) -> Seq<i64>
    decreases ids.len(),
{
    if ids.len() == 0 {
        Seq::empty()
    } else {
        let before = expired_among(m, ids.drop_last(), now);
        let id = ids.last();
        if m.dom().contains(id) && m[id].expired(now) && !before.contains(id) {
            before.push(id)
        } else {
            before
        }
    }
}

/// Each id is kept under the identity of its payload.
pub open spec fn keyed<T: Cacheable>(m: Map<i64, Entry<T>>) -> bool {
    &&& m.dom().finite()
    &&& forall|id: i64| #[trigger] m.dom().contains(id) ==> m[id].value.spec_id() == id
}

/// What an eviction run does: its victims were resident, each goes once, and
/// exactly as many go as there were too many. The protected entry stays.
pub proof fn lemma_eviction_run<T>(
    m: Map<i64, Entry<T>>,
    capacity: usize,
    protected: Option<i64>,
    victims: Seq<i64>,
)
    requires
        m.dom().finite(),
        eviction_run(m, capacity, protected, victims),
    ensures
        victims.no_duplicates(),
        victims.to_set().subset_of(m.dom()),
        without(m, victims).dom() == m.dom().difference(victims.to_set()),
        without(m, victims).dom().finite(),
        without(m, victims).dom().len() == m.dom().len() - victims.len(),
        m.dom().len() <= capacity ==> victims.len() == 0,
        m.dom().len() > capacity ==> without(m, victims).dom().len() == capacity,
        capacity >= 1 ==> (protected matches Some(p) ==> !victims.contains(p)),
{
    lemma_eviction_prefix(m, capacity, protected, victims, victims.len() as int);
    assert(victims.take(victims.len() as int) =~= victims);
    if victims.len() > 0 {
        assert(eviction_step(m, capacity, protected, victims, victims.len() - 1));
        lemma_eviction_prefix(m, capacity, protected, victims, victims.len() - 1);
        assert(eviction_step(m, capacity, protected, victims, 0));
        assert(without(m, victims.take(0)) =~= m);
    } else {
        assert(without(m, victims) =~= m);
    }
    if capacity >= 1 {
        if let Some(p) = protected {
            if victims.contains(p) {
                let k = victims.index_of(p);
                assert(eviction_step(m, capacity, protected, victims, k));
            }
        }
    }
}

proof fn lemma_eviction_prefix<T>(
    m: Map<i64, Entry<T>>,
    capacity: usize,
    protected: Option<i64>,
    victims: Seq<i64>,
    k: int,
)
    requires
        m.dom().finite(),
        0 <= k <= victims.len(),
        forall|k: int|
            0 <= k < victims.len() ==> #[trigger] eviction_step(m, capacity, protected, victims, k),
    ensures
        victims.take(k).no_duplicates(),
        victims.take(k).to_set().subset_of(m.dom()),
        without(m, victims.take(k)).dom() == m.dom().difference(victims.take(k).to_set()),
        without(m, victims.take(k)).dom().finite(),
        without(m, victims.take(k)).dom().len() == m.dom().len() - k,
    decreases k,
{
    if k == 0 {
        assert(victims.take(0) =~= Seq::<i64>::empty());
        assert(without(m, victims.take(0)) =~= m);
    } else {
        lemma_eviction_prefix(m, capacity, protected, victims, k - 1);
        let before = victims.take(k - 1);
        let v = victims[k - 1];
        assert(eviction_step(m, capacity, protected, victims, k - 1));
        let left = without(m, before);
        lemma_may_evict_is_resident(left, protected, v);
        assert(victims.take(k) =~= before.push(v));
        assert(victims.take(k).to_set() =~= before.to_set().insert(v)) by {
            assert forall|x: i64| before.push(v).contains(x) == (before.contains(x) || x == v) by {
                if before.contains(x) {
                    let i = before.index_of(x);
                    assert(before.push(v)[i] == x);
                }
                if x == v {
                    assert(before.push(v)[before.len() as int] == x);
                }
            }
        }
        assert(!before.contains(v)) by {
            assert(!before.to_set().contains(v));
        }
        assert(without(m, victims.take(k)) =~= left.remove(v));
    }
}

/// What may be evicted is resident.
pub proof fn lemma_may_evict_is_resident<T>(
    m: Map<i64, Entry<T>>,
    protected: Option<i64>,
    id: i64,
)
    requires
        may_evict(m, protected, id),
    ensures
        m.dom().contains(id),
{
    if crate::punnu::eviction::is_sampled_victim(m, id) {
        let sample = choose|sample: Set<i64>| #[trigger]
            crate::punnu::eviction::is_sample(m, sample) && crate::punnu::eviction::is_oldest(
                m,
                sample,
                id,
            );
        assert(sample.contains(id));
    }
}

/// A run goes on with one more victim.
pub proof fn lemma_eviction_extends<T>(
    m: Map<i64, Entry<T>>,
    capacity: usize,
    protected: Option<i64>,
    victims: Seq<i64>,
    v: i64,
)
    requires
        forall|k: int|
            0 <= k < victims.len() ==> #[trigger] eviction_step(m, capacity, protected, victims, k),
        without(m, victims).dom().len() > capacity,
        may_evict(without(m, victims), protected, v),
    ensures
        forall|k: int|
            0 <= k < victims.push(v).len() ==> #[trigger] eviction_step(
                m,
                capacity,
                protected,
                victims.push(v),
                k,
            ),
        without(m, victims.push(v)) == without(m, victims).remove(v),
{
    let more = victims.push(v);
    assert forall|k: int| 0 <= k < more.len() implies #[trigger] eviction_step(
        m,
        capacity,
        protected,
        more,
        k,
    ) by {
        if k < victims.len() {
            assert(eviction_step(m, capacity, protected, victims, k));
            assert(more.take(k) =~= victims.take(k));
        } else {
            assert(more.take(k) =~= victims);
        }
    }
    assert forall|x: i64| more.contains(x) == (victims.contains(x) || x == v) by {
        if victims.contains(x) {
            let i = victims.index_of(x);
            assert(more[i] == x);
        }
        if x == v {
            assert(more[victims.len() as int] == x);
        }
    }
    assert(without(m, more) =~= without(m, victims).remove(v));
}

/// Making room keeps what is kept under its identity that way, and drops
/// nothing that is live.
pub proof fn lemma_make_room<T: Cacheable>(m: Map<i64, Entry<T>>, capacity: usize, now: Instant)
    requires
        keyed(m),
    ensures
        keyed(make_room(m, capacity, now)),
        make_room(m, capacity, now).dom().subset_of(m.dom()),
        forall|id: i64|
            live(m, id, now) ==> #[trigger] make_room(m, capacity, now).dom().contains(id),
        forall|id: i64| #[trigger]
            make_room(m, capacity, now).dom().contains(id) ==> make_room(m, capacity, now)[id]
                == m[id],
{
    assert(unexpired(m, now).dom().subset_of(m.dom()));
    vstd::set_lib::lemma_set_subset_finite(m.dom(), unexpired(m, now).dom());
}

} // verus!

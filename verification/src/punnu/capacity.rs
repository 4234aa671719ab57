//! Keeping a pool within its capacity.

use vstd::prelude::*;
use crate::cacheable::Cacheable;
use crate::punnu::eviction::choose_sampled_lru_victim;
use crate::punnu::events::{EventReason, PunnuEvent};
use crate::punnu::state::L1State;
use crate::time::Instant;

verus! {

/// Drops the entry of `id` where it is expired, and tells whether it did.
pub fn remove_expired_entry<T: Cacheable>(
    state: &mut L1State<T>,
    id: &i64,
    now: Instant,
) -> (r: bool)
    requires
        old(state).wf(),
    ensures
        final(state).wf(),
        final(state)@ == crate::punnu::model::drop_if_expired(old(state)@, *id, now),
        r == (old(state)@.dom().contains(*id) && old(state)@[*id].expired(now)),
{
    let expired = match state.get(id) {
        Some(entry) => entry.is_expired_at(now),
        None => false,
    };
    if expired {
        let _removed = state.remove_entry(id);
    }
    expired
}

/// Drops every expired entry where there are more entries than `lru_size`.
pub fn remove_expired_entries_for_capacity<T: Cacheable>(
    state: &mut L1State<T>,
    lru_size: usize,
    now: Instant,
)
    requires
        old(state).wf(),
    ensures
        final(state).wf(),
        final(state)@ == crate::punnu::model::make_room(old(state)@, lru_size, now),
{
    let ghost m = old(state)@;
    if state.len() <= lru_size {
        return;
    }
    let ids = state.ids();
    proof {
        state.lemma_contents();
    }
    let mut i: usize = 0;
    while i < ids.len()
        invariant
            state.wf(),
            i <= ids@.len(),
            ids@.no_duplicates(),
            ids@.to_set() == m.dom(),
            forall|id: i64| #[trigger]
                state@.dom().contains(id) <==> m.dom().contains(id) && (!m[id].expired(now)
                    || ids@.index_of(id) >= i),
            forall|id: i64| #[trigger] state@.dom().contains(id) ==> state@[id] == m[id],
        decreases ids@.len() - i,
    {
        let ghost before = state@;
        let id = ids[i];
        proof {
            assert(ids@.contains(id));
            assert(ids@.index_of(id) == i);
            assert(ids@.to_set().contains(id));
        }
        let _gone = remove_expired_entry(state, &id, now);
        i += 1;
        assert forall|k: i64| #[trigger] state@.dom().contains(k) <==> m.dom().contains(k) && (
        !m[k].expired(now) || ids@.index_of(k) >= i) by {
            if m.dom().contains(k) && k != id {
                assert(ids@.to_set().contains(k));
                assert(ids@.contains(k));
                assert(ids@[ids@.index_of(k)] == k);
            }
            assert(before.dom().contains(k) == before.dom().contains(k));
        }
    }
    assert(state@ =~= crate::punnu::model::unexpired(m, now)) by {
        assert forall|id: i64| m.dom().contains(id) implies ids@.index_of(id) < ids@.len() by {
            assert(ids@.to_set().contains(id));
            assert(ids@.contains(id));
        }
    }
}

/// Tells whether `id` is the protected one.
fn is_protected(protected_id: Option<i64>, id: i64) -> (r: bool)
    ensures
        r == (protected_id == Some(id)),
{
    match protected_id {
        Some(protected) => protected == id,
        None => false,
    }
}

/// Finds the oldest entry other than `protected`, the first in slot order where
/// several are as old.
fn oldest_other<T: Cacheable>(state: &L1State<T>, protected: i64) -> (r: Option<i64>)
    requires
        state.wf(),
        state@.dom().contains(protected),
    ensures
        r is None <==> state@.dom().len() == 1,
        r matches Some(id) ==> crate::punnu::eviction::is_oldest(
            state@,
            state@.dom().remove(protected),
            id,
        ),
{
    let ghost order = state.order();
    proof {
        state.lemma_contents();
    }
    let mut best: Option<i64> = None;
    let mut best_epoch: u64 = u64::MAX;
    let mut i: usize = 0;
    let n = state.len();
    while i < n
        invariant
            state.wf(),
            order == state.order(),
            n == order.len(),
            i <= n,
            order.to_set() == state@.dom(),
            best is None ==> forall|j: int| 0 <= j < i ==> order[j] == protected,
            best matches Some(id) ==> {
                &&& id != protected
                &&& state@.dom().contains(id)
                &&& best_epoch == state@[id].last_access_epoch
                &&& forall|j: int|
                    0 <= j < i && order[j] != protected ==> best_epoch
                        <= state@[#[trigger] order[j]].last_access_epoch
            },
        decreases n - i,
    {
        assert(order.to_set().contains(order[i as int]));
        match state.key_at(i) {
            Some(id) => {
                if id != protected {
                    match state.get(&id) {
                        Some(entry) => {
                            let epoch: u64 = entry.access_epoch();
                            if best.is_none() || epoch < best_epoch {
                                best = Some(id);
                                best_epoch = epoch;
                            }
                        },
                        None => {},
                    }
                }
            },
            None => {},
        }
        i += 1;
    }
    proof {
        assert(order.to_set().contains(protected));
        let at = order.index_of(protected);
        if best is None {
            if order.len() > 1 {
                let other: int = if at == 0 {
                    1
                } else {
                    0
                };
                assert(order[other] == protected && order[at] == protected);
            }
        } else {
            let id = best->Some_0;
            assert forall|other: i64| #[trigger]
                state@.dom().remove(protected).contains(
                    other,
                ) implies state@[id].last_access_epoch <= state@[other].last_access_epoch by {
                assert(order.to_set().contains(other));
                assert(order[order.index_of(other)] == other);
            }
            assert(state@.dom().remove(protected).contains(id));
            if state@.dom().len() == 1 {
                assert(state@.dom().remove(protected).len() == 0);
                state@.dom().remove(protected).lemma_len0_is_empty();
            }
        }
    }
    best
}

/// Chooses the entry to evict next; `None` from an empty state.
pub fn choose_eviction_victim<T: Cacheable>(
    state: &L1State<T>,
    protected_id: Option<i64>,
    rng: &mut fastrand::Rng,
) -> (r: Option<i64>)
    requires
        state.wf(),
    ensures
        r is None <==> state@.dom().len() == 0,
        r matches Some(id) ==> crate::punnu::model::may_evict(state@, protected_id, id),
{
    let sampled = choose_sampled_lru_victim(state, rng);
    match sampled {
        Some(id) => {
            if is_protected(protected_id, id) && state.len() > 1 {
                assert(state@.dom().contains(id)) by {
                    let sample = choose|sample: Set<i64>| #[trigger]
                        crate::punnu::eviction::is_sample(state@, sample)
                            && crate::punnu::eviction::is_oldest(state@, sample, id);
                    assert(sample.contains(id));
                }
                oldest_other(state, id)
            } else {
                Some(id)
            }
        },
        None => None,
    }
}

/// Evicts entries until no more than `lru_size` are left, and lists them in
/// the order in which they went.
pub fn evict_ids_to_capacity<T: Cacheable>(
    state: &mut L1State<T>,
    lru_size: usize,
    protected_id: Option<i64>,
    rng: &mut fastrand::Rng,
) -> (r: Vec<i64>)
    requires
        old(state).wf(),
    ensures
        final(state).wf(),
        crate::punnu::model::eviction_run(old(state)@, lru_size, protected_id, r@),
        final(state)@ == crate::punnu::model::without(old(state)@, r@),
{
    let ghost m = old(state)@;
    let mut victims: Vec<i64> = Vec::new();
    assert(crate::punnu::model::without(m, victims@) =~= m);
    while state.len() > lru_size
        invariant
            state.wf(),
            forall|k: int|
                0 <= k < victims@.len() ==> #[trigger] crate::punnu::model::eviction_step(
                    m,
                    lru_size,
                    protected_id,
                    victims@,
                    k,
                ),
            state@ == crate::punnu::model::without(m, victims@),
        decreases state@.dom().len(),
    {
        proof {
            state.lemma_contents();
        }
        match choose_eviction_victim(state, protected_id, rng) {
            Some(victim_id) => {
                proof {
                    crate::punnu::model::lemma_may_evict_is_resident(
                        state@,
                        protected_id,
                        victim_id,
                    );
                    crate::punnu::model::lemma_eviction_extends(
                        m,
                        lru_size,
                        protected_id,
                        victims@,
                        victim_id,
                    );
                }
                let _gone = state.remove_entry(&victim_id);
                victims.push(victim_id);
            },
            None => {},
        }
    }
    victims
}

/// Turns ids into invalidations.
pub fn invalidation_events<T: Cacheable>(ids: &Vec<i64>, reason: EventReason) -> (r: Vec<
    PunnuEvent<T>,
>)
    ensures
        r@ == crate::punnu::model::invalidations::<T>(ids@, reason),
{
    let mut events: Vec<PunnuEvent<T>> = Vec::new();
    let mut i: usize = 0;
    while i < ids.len()
        invariant
            i <= ids@.len(),
            events@ == crate::punnu::model::invalidations::<T>(ids@.take(i as int), reason),
        decreases ids@.len() - i,
    {
        events.push(PunnuEvent::Invalidate { id: ids[i], reason });
        i += 1;
    }
    assert(ids@.take(i as int) =~= ids@);
    events
}

/// Evicts entries until no more than `lru_size` are left, tells about each of
/// them at the end of `events`, and counts them.
pub fn evict_to_capacity<T: Cacheable>(
    state: &mut L1State<T>,
    lru_size: usize,
    events: &mut Vec<PunnuEvent<T>>,
    protected_id: Option<i64>,
    rng: &mut fastrand::Rng,
) -> (r: usize)
    requires
        old(state).wf(),
    ensures
        final(state).wf(),
        exists|victims: Seq<i64>|
            {
                &&& #[trigger] crate::punnu::model::eviction_run(
                    old(state)@,
                    lru_size,
                    protected_id,
                    victims,
                )
                &&& final(state)@ == crate::punnu::model::without(old(state)@, victims)
                &&& final(events)@ == old(events)@ + crate::punnu::model::invalidations::<T>(
                    victims,
                    EventReason::spec_lru_evict(),
                )
                &&& r == victims.len()
            },
{
    let victims = evict_ids_to_capacity(state, lru_size, protected_id, rng);
    let evictions: usize = victims.len();
    let mut told = invalidation_events(&victims, EventReason::lru_evict());
    events.append(&mut told);
    assert(crate::punnu::model::eviction_run(old(state)@, lru_size, protected_id, victims@));
    evictions
}

/// Lists the ids that are live in `state`, in order.
pub fn live_among<T: Cacheable>(state: &L1State<T>, ids: &Vec<i64>, now: Instant) -> (r: Vec<i64>)
    requires
        state.wf(),
    ensures
        r@ == crate::punnu::model::live_ids(state@, ids@, now),
{
    let mut r: Vec<i64> = Vec::new();
    let mut i: usize = 0;
    while i < ids.len()
        invariant
            state.wf(),
            i <= ids@.len(),
            r@ == crate::punnu::model::live_ids(state@, ids@.take(i as int), now),
        decreases ids@.len() - i,
    {
        assert(ids@.take(i + 1).drop_last() =~= ids@.take(i as int));
        match state.get(&ids[i]) {
            Some(entry) => {
                if !entry.is_expired_at(now) {
                    r.push(ids[i]);
                }
            },
            None => {},
        }
        i += 1;
    }
    assert(ids@.take(i as int) =~= ids@);
    r
}

/// Tells about the victims that readers of `original_state` could see at `now`.
pub fn visible_lru_events<T: Cacheable>(
    original_state: &L1State<T>,
    victim_ids: &Vec<i64>,
    now: Instant,
) -> (r: Vec<PunnuEvent<T>>)
    requires
        original_state.wf(),
    ensures
        r@ == crate::punnu::model::invalidations::<T>(
            crate::punnu::model::live_ids(original_state@, victim_ids@, now),
            EventReason::spec_lru_evict(),
        ),
{
    let visible = live_among(original_state, victim_ids, now);
    invalidation_events(&visible, EventReason::lru_evict())
}

} // verus!

//! The pool: resident entries, their capacity, and every way to write them.

use vstd::prelude::*;
use crate::cacheable::Cacheable;
use crate::error::InsertError;
use crate::ids::{ascending_keys, some_order};
use crate::punnu::builder::PunnuBuilder;
use crate::punnu::capacity::{
    evict_ids_to_capacity, evict_to_capacity, invalidation_events, live_among,
    remove_expired_entries_for_capacity, remove_expired_entry, visible_lru_events,
};
use crate::punnu::config::{emit_committed_events, CacheTier, OnConflict, PunnuConfig, Sample};
use crate::punnu::delta::{AcceptAll, DeltaApplyStats, DeltaFilter, DeltaResult, KeepNewer};
use crate::punnu::events::{EventReason, InvalidationReason, PunnuEvent};
use crate::punnu::random::fresh_rng;
use crate::punnu::refresh::RefreshMode;
use crate::punnu::state::{Entry, L1State};
use crate::punnu::write::{Committed, PreparedWrite};
use crate::time::{expiry_deadline, Duration, Instant};
use crate::watermark::DeltaSyncCacheable;
use std::collections::{BTreeMap, BTreeSet, HashSet};
use std::sync::Arc;

verus! {

broadcast use vstd::std_specs::btree::group_btree_axioms;

/// A typed pool of entries, at most one per id.
#[verifier::reject_recursive_types(T)]
pub struct Punnu<T: Cacheable> {
    state: L1State<T>,
    config: PunnuConfig,
    access_clock: u64,
    eviction_rng: fastrand::Rng,
    strict_insert_ids: BTreeSet<i64>,
}

/// How inserting a fetched value went.
#[verifier::reject_recursive_types(T)]
pub enum FetchInsertResult<T: Cacheable> {
    /// The value that is cached now.
    Ready(Arc<T>),
    /// A backend write holds the id.
    Blocked(i64),
}

/// How inserting a batch of fetched values went.
#[verifier::reject_recursive_types(T)]
pub enum FetchManyInsertResult<T: Cacheable> {
    /// The values that were taken, or why none was.
    Ready(Result<Vec<Arc<T>>, InsertError>),
    /// A backend write holds the id.
    Blocked(i64),
}

/// What the insert of a batch comes to: where a value is blocked or refused,
/// nothing changes.
pub open spec fn insert_many_outcome<T: Cacheable>(
    m: Map<i64, Entry<T>>,
    capacity: usize,
    policy: OnConflict,
    reserved: Set<i64>,
    now: Instant,
    values: Seq<(Arc<T>, Option<Instant>, u64)>,
    post: Map<i64, Entry<T>>,
    events: Seq<PunnuEvent<T>>,
    result: FetchManyInsertResult<T>,
) -> bool {
    match crate::punnu::model::batch(m, policy, reserved, now, values) {
        crate::punnu::model::BatchProgress::Blocked(id) => {
            &&& post == m
            &&& events == Seq::<PunnuEvent<T>>::empty()
            &&& result == FetchManyInsertResult::<T>::Blocked(id)
        },
        crate::punnu::model::BatchProgress::Refused => {
            &&& post == m
            &&& events == Seq::<PunnuEvent<T>>::empty()
            &&& result matches FetchManyInsertResult::Ready(Err(e)) && e is Conflict
        },
        crate::punnu::model::BatchProgress::Taken(written, taken) => {
            &&& result matches FetchManyInsertResult::Ready(Ok(inserted)) && inserted@
                == crate::punnu::model::batch_values(values)
            &&& exists|victims: Seq<i64>| #[trigger]
                crate::punnu::model::batch_outcome(
                    m,
                    capacity,
                    policy,
                    now,
                    written,
                    taken,
                    victims,
                    post,
                    events,
                )
        },
    }
}

impl<T: Cacheable> Punnu<T> {
    /// The resident entries.
    pub closed spec fn entries(&self) -> Map<i64, Entry<T>> {
        self.state@
    }

    /// The resident ids in slot order.
    pub closed spec fn order(&self) -> Seq<i64> {
        self.state.order()
    }

    /// The settings.
    pub closed spec fn settings(&self) -> PunnuConfig {
        self.config
    }

    /// How many entries the pool holds at most.
    pub open spec fn capacity(&self) -> usize {
        self.settings().lru_size
    }

    /// What a write of a cached id does.
    pub open spec fn policy(&self) -> OnConflict {
        self.settings().on_conflict
    }

    /// The access epoch that was given out last.
    pub closed spec fn clock(&self) -> u64 {
        self.access_clock
    }

    /// The ids that backend writes hold.
    pub closed spec fn reserved(&self) -> Set<i64> {
        self.strict_insert_ids@
    }

    /// The pool has room for an entry and no more entries than it has room for.
    pub closed spec fn wf(&self) -> bool {
        &&& self.state.wf()
        &&& self.config.lru_size >= 1
        &&& self.state@.dom().len() <= self.config.lru_size
    }

    /// What `wf` says to callers.
    pub proof fn lemma_wf(&self)
        requires
            self.wf(),
        ensures
            self.capacity() >= 1,
            self.entries().dom().finite(),
            self.entries().dom().len() <= self.capacity(),
            crate::punnu::model::keyed(self.entries()),
            crate::ids::lists(self.order(), self.entries().dom()),
    {
        self.state.lemma_contents();
    }

    /// Only the entries and the generator may differ.
    pub open spec fn only_entries_changed(&self, before: &Self) -> bool {
        &&& self.settings() == before.settings()
        &&& self.clock() == before.clock()
        &&& self.reserved() == before.reserved()
    }

    /// Makes an empty pool.
    pub(crate) fn with_config(config: PunnuConfig) -> (r: Self)
        requires
            config.lru_size >= 1,
        ensures
            r.wf(),
            r.settings() == config,
            r.entries() == Map::<i64, Entry<T>>::empty(),
            r.order() == Seq::<i64>::empty(),
            r.reserved() == Set::<i64>::empty(),
            r.clock() == 0,
    {
        Punnu {
            state: L1State::empty(),
            config,
            access_clock: 0,
            eviction_rng: fresh_rng(),
            strict_insert_ids: BTreeSet::new(),
        }
    }

    /// Starts building a pool.
    pub fn builder() -> (r: PunnuBuilder<T>)
        ensures
            r.has_default_settings(),
            !r.backend_attached,
    {
        PunnuBuilder::new()
    }

    /// Gives out the next access epoch.
    fn next_access_epoch(&mut self) -> (r: u64)
        ensures
            r == crate::punnu::model::next_epoch(old(self).clock()),
            final(self).clock() == r,
            final(self).state == old(self).state,
            final(self).settings() == old(self).settings(),
            final(self).reserved() == old(self).reserved(),
    {
        self.access_clock = self.access_clock.wrapping_add(1);
        self.access_clock
    }

    /// Takes the state out for a write to prepare its successor from.
    fn take_state(&mut self) -> (r: L1State<T>)
        ensures
            r == old(self).state,
            final(self).state.wf(),
            final(self).only_entries_changed(old(self)),
    {
        let mut state = L1State::empty();
        core::mem::swap(&mut self.state, &mut state);
        state
    }

    /// Publishes a prepared write, and hands on its events and samples.
    fn with_write_coordinator<R>(&mut self, prepared: PreparedWrite<T, R>) -> (r: Committed<T, R>)
        requires
            prepared.state.wf(),
            prepared.state@.dom().len() <= old(self).config.lru_size,
            old(self).config.lru_size >= 1,
        ensures
            final(self).wf(),
            final(self).only_entries_changed(old(self)),
            final(self).state == prepared.state,
            r.result == prepared.result,
            r.events@ == prepared.events@,
            r.samples@ == crate::punnu::config::committed_samples(
                r.events@,
                final(self).entries().dom().len() as usize,
            ),
    {
        let post_len: usize = prepared.state().len();
        let (state, events, result) = prepared.into_parts();
        self.state = state;
        let samples = emit_committed_events(&events, post_len);
        Committed { result, events, samples }
    }

    /// Prepares the insert of `value` with the given deadline and epoch.
    fn prepare_insert(
        &mut self,
        state: L1State<T>,
        value: Arc<T>,
        expires_at: Option<Instant>,
        epoch: u64,
        now: Instant,
    ) -> (r: PreparedWrite<T, Result<Arc<T>, InsertError>>)
        requires
            state.wf(),
            old(self).config.lru_size >= 1,
        ensures
            final(self).only_entries_changed(old(self)),
            final(self).state == old(self).state,
            r.state.wf(),
            crate::punnu::model::conflicts(
                state@,
                old(self).policy(),
                value.spec_id(),
                now,
            ) ==> {
                &&& r.state@ == state@
                &&& r.events@ == Seq::<PunnuEvent<T>>::empty()
                &&& r.result matches Err(e) && e is Conflict
            },
            !crate::punnu::model::conflicts(
                state@,
                old(self).policy(),
                value.spec_id(),
                now,
            ) ==> {
                &&& r.result == Ok::<Arc<T>, InsertError>(value)
                &&& exists|victims: Seq<i64>| #[trigger]
                    crate::punnu::model::insert_outcome(
                        state@,
                        old(self).capacity(),
                        old(self).policy(),
                        now,
                        (Entry { value, expires_at, last_access_epoch: epoch }),
                        victims,
                        r.state@,
                        r.events@,
                    )
            },
    {
        let mut state = state;
        let ghost m = state@;
        let id = value.id();
        let _gone = remove_expired_entry(&mut state, &id, now);
        let ghost base = state@;
        let existing: Option<Arc<T>> = match state.get(&id) {
            Some(entry) => Some(entry.value.clone()),
            None => None,
        };
        if existing.is_some() && self.config.on_conflict == OnConflict::Reject {
            return PreparedWrite::new(state, Vec::new(), Err(InsertError::Conflict));
        }
        let entry = Entry::new(value.clone(), expires_at, epoch);
        let _replaced = state.insert_entry(id, Arc::new(entry));
        let write_event = refresh_write_event(self.config.on_conflict, existing, value.clone());
        let mut events: Vec<PunnuEvent<T>> = Vec::new();
        remove_expired_entries_for_capacity(&mut state, self.config.lru_size, now);
        let ghost roomy = state@;
        let _evictions = evict_to_capacity(
            &mut state,
            self.config.lru_size,
            &mut events,
            Some(id),
            &mut self.eviction_rng,
        );
        let ghost victims = choose|victims: Seq<i64>|
            {
                &&& #[trigger] crate::punnu::model::eviction_run(
                    roomy,
                    self.config.lru_size,
                    Some(id),
                    victims,
                )
                &&& state@ == crate::punnu::model::without(roomy, victims)
                &&& events@ == crate::punnu::model::invalidations::<T>(
                    victims,
                    EventReason::spec_lru_evict(),
                )
            };
        events.push(write_event);
        assert(crate::punnu::model::insert_outcome(
            m,
            old(self).capacity(),
            old(self).policy(),
            now,
            (Entry { value, expires_at, last_access_epoch: epoch }),
            victims,
            state@,
            events@,
        ));
        PreparedWrite::new(state, events, Ok(value))
    }

    /// Prepares the insert of a batch of values, of all or of none.
    fn prepare_insert_many(
        &mut self,
        state: L1State<T>,
        values: &Vec<(Arc<T>, Option<Instant>, u64)>,
        now: Instant,
    ) -> (r: PreparedWrite<T, FetchManyInsertResult<T>>)
        requires
            state.wf(),
            old(self).config.lru_size >= 1,
        ensures
            final(self).only_entries_changed(old(self)),
            final(self).state == old(self).state,
            r.state.wf(),
            insert_many_outcome(
                state@,
                old(self).capacity(),
                old(self).policy(),
                old(self).reserved(),
                now,
                values@,
                r.state@,
                r.events@,
                r.result,
            ),
    {
        let mut work = state;
        let original_state = work.clone();
        let ghost m = work@;
        let ghost policy = self.config.on_conflict;
        let ghost reserved = self.strict_insert_ids@;
        let mut accepted: Vec<(i64, Arc<T>, Option<Arc<T>>)> = Vec::new();
        let mut i: usize = 0;
        while i < values.len()
            invariant
                i <= values@.len(),
                work.wf(),
                original_state.wf(),
                original_state@ == m,
                m == state@,
                *self == *old(self),
                policy == self.config.on_conflict,
                reserved == self.strict_insert_ids@,
                crate::punnu::model::batch(m, policy, reserved, now, values@.take(i as int))
                    == crate::punnu::model::BatchProgress::Taken(work@, accepted@),
            decreases values@.len() - i,
        {
            let ghost next = values@.take(i + 1);
            assert(next.drop_last() =~= values@.take(i as int));
            assert(next.last() == values@[i as int]);
            let value = values[i].0.clone();
            let expires_at = values[i].1;
            let epoch: u64 = values[i].2;
            let id = value.id();
            let _gone = remove_expired_entry(&mut work, &id, now);
            if self.strict_insert_ids.contains(&id) {
                proof {
                    crate::punnu::model::lemma_batch_stops(
                        m,
                        policy,
                        reserved,
                        now,
                        values@,
                        i + 1,
                    );
                }
                return PreparedWrite::new(
                    original_state,
                    Vec::new(),
                    FetchManyInsertResult::Blocked(id),
                );
            }
            let existing: Option<Arc<T>> = match work.get(&id) {
                Some(entry) => Some(entry.value.clone()),
                None => None,
            };
            if existing.is_some() && self.config.on_conflict == OnConflict::Reject {
                proof {
                    crate::punnu::model::lemma_batch_stops(
                        m,
                        policy,
                        reserved,
                        now,
                        values@,
                        i + 1,
                    );
                }
                return PreparedWrite::new(
                    original_state,
                    Vec::new(),
                    FetchManyInsertResult::Ready(Err(InsertError::Conflict)),
                );
            }
            let entry = Entry::new(value.clone(), expires_at, epoch);
            let _replaced = work.insert_entry(id, Arc::new(entry));
            accepted.push((id, value, existing));
            i += 1;
        }
        assert(values@.take(i as int) =~= values@);
        let ghost written = work@;
        assert(crate::punnu::model::batch(
            state@,
            old(self).policy(),
            old(self).reserved(),
            now,
            values@,
        ) == crate::punnu::model::BatchProgress::Taken(written, accepted@));
        remove_expired_entries_for_capacity(&mut work, self.config.lru_size, now);
        let victims = evict_ids_to_capacity(
            &mut work,
            self.config.lru_size,
            None,
            &mut self.eviction_rng,
        );
        let mut events = visible_lru_events(&original_state, &victims, now);
        let mut told = batch_events(&work, self.config.on_conflict, &accepted);
        events.append(&mut told);
        let inserted = batch_values(values);
        let r = PreparedWrite::new(work, events, FetchManyInsertResult::Ready(Ok(inserted)));
        assert(crate::punnu::model::batch_outcome(
            state@,
            old(self).capacity(),
            old(self).policy(),
            now,
            written,
            accepted@,
            victims@,
            r.state@,
            r.events@,
        ));
        assert(r.result matches FetchManyInsertResult::Ready(Ok(inserted)) && inserted@
            == crate::punnu::model::batch_values(values@));
        let ghost progress = crate::punnu::model::batch(
            state@,
            old(self).policy(),
            old(self).reserved(),
            now,
            values@,
        );
        assert(progress is Taken);
        assert(progress->Taken_0 == written);
        assert(progress->Taken_1 == accepted@);
        assert(insert_many_outcome(
            state@,
            old(self).capacity(),
            old(self).policy(),
            old(self).reserved(),
            now,
            values@,
            r.state@,
            r.events@,
            r.result,
        ));
        r
    }

    /// Prepares the insert of a fetched value where its id is not live; where
    /// it is, the live value is handed back.
    fn prepare_insert_or_existing(
        &mut self,
        state: L1State<T>,
        value: Arc<T>,
        expires_at: Option<Instant>,
        epoch: u64,
        now: Instant,
    ) -> (r: PreparedWrite<T, FetchInsertResult<T>>)
        requires
            state.wf(),
            old(self).config.lru_size >= 1,
        ensures
            final(self).only_entries_changed(old(self)),
            final(self).state == old(self).state,
            r.state.wf(),
            ({
                let id = value.spec_id();
                if crate::punnu::model::live(state@, id, now) {
                    &&& r.state@ == state@
                    &&& r.events@ == Seq::<PunnuEvent<T>>::empty()
                    &&& r.result == FetchInsertResult::Ready(state@[id].value)
                } else if old(self).reserved().contains(id) {
                    &&& r.state@ == crate::punnu::model::drop_if_expired(state@, id, now)
                    &&& r.events@ == Seq::<PunnuEvent<T>>::empty()
                    &&& r.result == FetchInsertResult::<T>::Blocked(id)
                } else {
                    &&& r.result == FetchInsertResult::Ready(value)
                    &&& exists|victims: Seq<i64>| #[trigger]
                        crate::punnu::model::insert_outcome(
                            state@,
                            old(self).capacity(),
                            OnConflict::LastWriteWins,
                            now,
                            (Entry { value, expires_at, last_access_epoch: epoch }),
                            victims,
                            r.state@,
                            r.events@,
                        )
                }
            }),
    {
        let mut state = state;
        let ghost m = state@;
        let id = value.id();
        let _gone = remove_expired_entry(&mut state, &id, now);
        let existing: Option<Arc<T>> = match state.get(&id) {
            Some(entry) => Some(entry.value.clone()),
            None => None,
        };
        if let Some(existing) = existing {
            return PreparedWrite::new(state, Vec::new(), FetchInsertResult::Ready(existing));
        }
        if self.strict_insert_ids.contains(&id) {
            return PreparedWrite::new(state, Vec::new(), FetchInsertResult::Blocked(id));
        }
        let entry = Entry::new(value.clone(), expires_at, epoch);
        let _replaced = state.insert_entry(id, Arc::new(entry));
        remove_expired_entries_for_capacity(&mut state, self.config.lru_size, now);
        let victims = evict_ids_to_capacity(
            &mut state,
            self.config.lru_size,
            Some(id),
            &mut self.eviction_rng,
        );
        let mut events = invalidation_events(&victims, EventReason::lru_evict());
        events.push(PunnuEvent::Insert { value: value.clone() });
        assert(crate::punnu::model::insert_outcome(
            m,
            old(self).capacity(),
            OnConflict::LastWriteWins,
            now,
            (Entry { value, expires_at, last_access_epoch: epoch }),
            victims@,
            state@,
            events@,
        ));
        PreparedWrite::new(state, events, FetchInsertResult::Ready(value))
    }

    /// Prepares the removal of one entry. An expired one goes without a word.
    fn prepare_invalidate(
        &self,
        state: L1State<T>,
        id: &i64,
        reason: EventReason,
        now: Instant,
    ) -> (r: PreparedWrite<T, bool>)
        requires
            state.wf(),
        ensures
            r.state.wf(),
            r.state@ == state@.remove(*id),
            r.result == crate::punnu::model::live(state@, *id, now),
            r.events@ == if crate::punnu::model::live(state@, *id, now) {
                seq![PunnuEvent::<T>::Invalidate { id: *id, reason }]
            } else {
                Seq::empty()
            },
    {
        let mut state = state;
        let ghost m = state@;
        if remove_expired_entry(&mut state, id, now) {
            return PreparedWrite::new(state, Vec::new(), false);
        }
        let removed = state.remove_entry(id).is_some();
        let mut events: Vec<PunnuEvent<T>> = Vec::new();
        if removed {
            events.push(PunnuEvent::Invalidate { id: *id, reason });
        }
        assert(state@ =~= m.remove(*id));
        PreparedWrite::new(state, events, removed)
    }

    /// Prepares the removal of every entry, expired or not.
    fn prepare_invalidate_all(&self, state: L1State<T>, reason: EventReason) -> (r: PreparedWrite<
        T,
        usize,
    >)
        requires
            state.wf(),
        ensures
            r.state.wf(),
            r.state@ == Map::<i64, Entry<T>>::empty(),
            r.events@ == crate::punnu::model::invalidations::<T>(state.order(), reason),
            r.result == state@.dom().len(),
    {
        let mut state = state;
        let ghost m = state@;
        let ids = state.ids();
        proof {
            state.lemma_contents();
        }
        let ghost order = ids@;
        let mut events: Vec<PunnuEvent<T>> = Vec::new();
        let mut i: usize = 0;
        while i < ids.len()
            invariant
                i <= ids@.len(),
                order == ids@,
                state.wf(),
                order.no_duplicates(),
                order.to_set() == m.dom(),
                forall|id: i64| #[trigger]
                    state@.dom().contains(id) <==> m.dom().contains(id) && order.index_of(id) >= i,
                events@ == crate::punnu::model::invalidations::<T>(order.take(i as int), reason),
            decreases ids@.len() - i,
        {
            let id = ids[i];
            let ghost before = state@;
            proof {
                assert(order.contains(id));
                assert(order.index_of(id) == i);
                assert(order.to_set().contains(id));
                assert(before.dom().contains(id));
            }
            if state.remove_entry(&id).is_some() {
                events.push(PunnuEvent::Invalidate { id, reason });
            }
            i += 1;
            assert forall|k: i64| #[trigger] state@.dom().contains(k) <==> m.dom().contains(k)
                && order.index_of(k) >= i by {
                assert(before.dom().contains(k) == before.dom().contains(k));
                if m.dom().contains(k) && k != id {
                    assert(order.to_set().contains(k));
                    assert(order[order.index_of(k)] == k);
                }
            }
        }
        assert(order.take(i as int) =~= order);
        assert(state@ =~= Map::<i64, Entry<T>>::empty()) by {
            assert forall|k: i64| !state@.dom().contains(k) by {
                if m.dom().contains(k) {
                    assert(order.to_set().contains(k));
                    assert(order.contains(k));
                }
            }
        }
        let removed: usize = events.len();
        PreparedWrite::new(state, events, removed)
    }

    /// Writes the items of `ids` into `state`, and lists what was written with
    /// the value that each replaced.
    fn accept_items<S: DeltaFilter<T>>(
        &mut self,
        state: &mut L1State<T>,
        items: &BTreeMap<i64, Arc<T>>,
        ids: &Vec<i64>,
        filter: &S,
        now: Instant,
    ) -> (r: Vec<(i64, Option<Arc<T>>)>)
        requires
            old(state).wf(),
            crate::ids::lists(ids@, items@.dom()),
            forall|id: i64| #[trigger] items@.dom().contains(id) ==> items@[id].spec_id() == id,
        ensures
            final(state).wf(),
            final(self).state == old(self).state,
            final(self).settings() == old(self).settings(),
            final(self).reserved() == old(self).reserved(),
            crate::punnu::model::accept(
                old(state)@,
                old(self).clock(),
                items@,
                ids@,
                *filter,
                old(self).policy(),
                old(self).settings().default_ttl,
                now,
            ) == (crate::punnu::model::Acceptance {
                entries: final(state)@,
                items: r@,
                clock: final(self).clock(),
            }),
    {
        let ghost m = old(state)@;
        let mut accepted: Vec<(i64, Option<Arc<T>>)> = Vec::new();
        let mut i: usize = 0;
        while i < ids.len()
            invariant
                i <= ids@.len(),
                state.wf(),
                m == old(state)@,
                crate::ids::lists(ids@, items@.dom()),
                forall|id: i64| #[trigger]
                    items@.dom().contains(id) ==> items@[id].spec_id() == id,
                self.state == old(self).state,
                self.settings() == old(self).settings(),
                self.reserved() == old(self).reserved(),
                crate::punnu::model::accept(
                    m,
                    old(self).clock(),
                    items@,
                    ids@.take(i as int),
                    *filter,
                    old(self).policy(),
                    old(self).settings().default_ttl,
                    now,
                ) == (crate::punnu::model::Acceptance {
                    entries: state@,
                    items: accepted@,
                    clock: self.clock(),
                }),
            decreases ids@.len() - i,
        {
            let ghost next = ids@.take(i + 1);
            assert(next.drop_last() =~= ids@.take(i as int));
            let id = ids[i];
            assert(ids@.to_set().contains(id));
            i += 1;
            match items.get(&id) {
                Some(value) => {
                    let _gone = remove_expired_entry(state, &id, now);
                    let existing: Option<Arc<T>> = match state.get(&id) {
                        Some(entry) => Some(entry.value.clone()),
                        None => None,
                    };
                    if existing.is_some() && self.config.on_conflict == OnConflict::Reject {
                        continue;
                    }
                    if filter.skip(state, id, value) {
                        continue;
                    }
                    let expires_at = expiry_deadline(now, self.config.default_ttl);
                    let epoch: u64 = self.next_access_epoch();
                    let entry = Entry::new(value.clone(), expires_at, epoch);
                    let _replaced = state.insert_entry(id, Arc::new(entry));
                    accepted.push((id, existing));
                },
                None => {},
            }
        }
        assert(ids@.take(i as int) =~= ids@);
        accepted
    }

    /// Prepares a delta: items are written, tombstones delete.
    fn prepare_apply_delta_with_filter<S: DeltaFilter<T>>(
        &mut self,
        state: L1State<T>,
        delta: DeltaResult<T>,
        filter: &S,
        now: Instant,
    ) -> (r: PreparedWrite<T, DeltaApplyStats>)
        requires
            state.wf(),
            old(self).config.lru_size >= 1,
        ensures
            final(self).settings() == old(self).settings(),
            final(self).reserved() == old(self).reserved(),
            final(self).state == old(self).state,
            r.state.wf(),
            exists|ids: Seq<i64>, buried: Seq<i64>, victims: Seq<i64>| #[trigger]
                crate::punnu::model::delta_outcome(
                    state@,
                    old(self).clock(),
                    old(self).settings(),
                    now,
                    crate::punnu::model::latest(delta.items@, delta.tombstones@),
                    delta.tombstones@,
                    *filter,
                    ids,
                    buried,
                    victims,
                    r.state@,
                    r.events@,
                    r.result,
                    final(self).clock(),
                ),
    {
        let original_state = state.clone();
        let mut state = state;
        let ghost m = state@;
        let DeltaResult { items, tombstones, high_watermark: _ } = delta;
        let ghost all = items@;
        let normalized_items = latest_items(items, &tombstones);
        let ids = ascending_keys(&normalized_items);
        let accepted_items = self.accept_items(&mut state, &normalized_items, &ids, filter, now);
        let ghost written = state@;

        let buried = some_order(&tombstones);
        let deleted = live_among(&state, &buried, now);
        remove_all(&mut state, &buried);
        assert(state@ =~= written.remove_keys(tombstones@));
        let mut events = invalidation_events(&deleted, EventReason::OnDelete);

        remove_expired_entries_for_capacity(&mut state, self.config.lru_size, now);
        let victims = evict_ids_to_capacity(
            &mut state,
            self.config.lru_size,
            None,
            &mut self.eviction_rng,
        );
        let mut lru_events = visible_lru_events(&original_state, &victims, now);
        let mut write_events = accepted_events(&state, self.config.on_conflict, &accepted_items);
        let stats = DeltaApplyStats {
            applied_items: write_events.len(),
            tombstones_evicted: deleted.len(),
            lru_evictions: lru_events.len(),
        };
        events.append(&mut lru_events);
        events.append(&mut write_events);
        let r = PreparedWrite::new(state, events, stats);
        assert(crate::punnu::model::delta_outcome(
            m,
            old(self).clock(),
            old(self).settings(),
            now,
            crate::punnu::model::latest(all, tombstones@),
            tombstones@,
            *filter,
            ids@,
            buried@,
            victims@,
            r.state@,
            r.events@,
            r.result,
            self.clock(),
        ));
        r
    }

    /// Prepares a refresh that leaves the entries that were not fetched alone.
    fn prepare_refresh_upsert(&mut self, state: L1State<T>, items: Vec<T>, now: Instant) -> (r:
        PreparedWrite<T, ()>)
        requires
            state.wf(),
            old(self).config.lru_size >= 1,
        ensures
            final(self).settings() == old(self).settings(),
            final(self).reserved() == old(self).reserved(),
            final(self).state == old(self).state,
            r.state.wf(),
            exists|ids: Seq<i64>, victims: Seq<i64>| #[trigger]
                crate::punnu::model::refresh_outcome(
                    state@,
                    state.order(),
                    old(self).clock(),
                    old(self).settings(),
                    now,
                    crate::punnu::model::latest(items@, Set::empty()),
                    RefreshMode::UpsertOnly,
                    ids,
                    victims,
                    r.state@,
                    r.events@,
                    final(self).clock(),
                ),
    {
        let original_state = state.clone();
        let mut state = state;
        let ghost m = state@;
        let ghost order = state.order();
        let ghost all = items@;
        let normalized_items = latest_items(items, &HashSet::new());
        let ids = ascending_keys(&normalized_items);
        let accepted_items = self.accept_items(
            &mut state,
            &normalized_items,
            &ids,
            &AcceptAll {  },
            now,
        );
        remove_expired_entries_for_capacity(&mut state, self.config.lru_size, now);
        let victims = evict_ids_to_capacity(
            &mut state,
            self.config.lru_size,
            None,
            &mut self.eviction_rng,
        );
        let mut events = visible_lru_events(&original_state, &victims, now);
        let mut write_events = accepted_events(&state, self.config.on_conflict, &accepted_items);
        events.append(&mut write_events);
        let r = PreparedWrite::new(state, events, ());
        assert(crate::punnu::model::refresh_outcome(
            m,
            order,
            old(self).clock(),
            old(self).settings(),
            now,
            crate::punnu::model::latest(all, Set::empty()),
            RefreshMode::UpsertOnly,
            ids@,
            victims@,
            r.state@,
            r.events@,
            self.clock(),
        )) by {
            assert(crate::punnu::model::invalidations::<T>(Seq::empty(), EventReason::Manual)
                =~= Seq::<PunnuEvent<T>>::empty());
        }
        r
    }

    /// Prepares a refresh that removes the entries that were not fetched.
    fn prepare_refresh_replace(&mut self, state: L1State<T>, items: Vec<T>, now: Instant) -> (r:
        PreparedWrite<T, ()>)
        requires
            state.wf(),
            old(self).config.lru_size >= 1,
        ensures
            final(self).settings() == old(self).settings(),
            final(self).reserved() == old(self).reserved(),
            final(self).state == old(self).state,
            r.state.wf(),
            exists|ids: Seq<i64>, victims: Seq<i64>| #[trigger]
                crate::punnu::model::refresh_outcome(
                    state@,
                    state.order(),
                    old(self).clock(),
                    old(self).settings(),
                    now,
                    crate::punnu::model::latest(items@, Set::empty()),
                    RefreshMode::Replace,
                    ids,
                    victims,
                    r.state@,
                    r.events@,
                    final(self).clock(),
                ),
    {
        let original_state = state.clone();
        let mut state = state;
        let ghost m = state@;
        let ghost order = state.order();
        let ghost all = items@;
        let normalized_items = latest_items(items, &HashSet::new());
        let ids = ascending_keys(&normalized_items);

        let resident_ids = state.ids();
        let stale_ids = absent_among(&resident_ids, &normalized_items);
        let gone = live_among(&state, &stale_ids, now);
        remove_all(&mut state, &stale_ids);
        proof {
            original_state.lemma_contents();
            lemma_absent_ids(order, normalized_items@.dom());
            assert(state@ =~= m.restrict(normalized_items@.dom())) by {
                assert forall|id: i64| m.dom().contains(id) implies order.contains(id) by {
                    assert(order.to_set().contains(id));
                }
            }
        }
        let mut events = invalidation_events(&gone, EventReason::Manual);

        let accepted_items = self.accept_items(
            &mut state,
            &normalized_items,
            &ids,
            &AcceptAll {  },
            now,
        );
        remove_expired_entries_for_capacity(&mut state, self.config.lru_size, now);
        let victims = evict_ids_to_capacity(
            &mut state,
            self.config.lru_size,
            None,
            &mut self.eviction_rng,
        );
        let mut lru_events = visible_lru_events(&original_state, &victims, now);
        let mut write_events = accepted_events(&state, self.config.on_conflict, &accepted_items);
        events.append(&mut lru_events);
        events.append(&mut write_events);
        let r = PreparedWrite::new(state, events, ());
        assert(crate::punnu::model::refresh_outcome(
            m,
            order,
            old(self).clock(),
            old(self).settings(),
            now,
            crate::punnu::model::latest(all, Set::empty()),
            RefreshMode::Replace,
            ids@,
            victims@,
            r.state@,
            r.events@,
            self.clock(),
        ));
        r
    }

    /// What an insert comes to.
    pub open spec fn insert_effect(
        pre: &Self,
        post: &Self,
        value: Arc<T>,
        ttl: Option<Duration>,
        now: Instant,
        r: Committed<T, Result<Arc<T>, InsertError>>,
    ) -> bool {
        let epoch = crate::punnu::model::next_epoch(pre.clock());
        &&& post.settings() == pre.settings()
        &&& post.reserved() == pre.reserved()
        &&& post.clock() == epoch
        &&& r.samples@ == crate::punnu::config::committed_samples(
            r.events@,
            post.entries().dom().len() as usize,
        )
        &&& if crate::punnu::model::conflicts(pre.entries(), pre.policy(), value.spec_id(), now) {
            &&& r.result matches Err(e) && e is Conflict
            &&& r.events@ == Seq::<PunnuEvent<T>>::empty()
            &&& post.entries() == pre.entries()
        } else {
            &&& r.result == Ok::<Arc<T>, InsertError>(value)
            &&& exists|victims: Seq<i64>| #[trigger]
                crate::punnu::model::insert_outcome(
                    pre.entries(),
                    pre.capacity(),
                    pre.policy(),
                    now,
                    (Entry {
                        value,
                        expires_at: crate::time::deadline(now, ttl),
                        last_access_epoch: epoch,
                    }),
                    victims,
                    post.entries(),
                    r.events@,
                )
        }
    }

    /// Inserts a value with the time to live of the settings.
    pub fn insert(&mut self, value: T, now: Instant) -> (r: Committed<
        T,
        Result<Arc<T>, InsertError>,
    >)
        requires
            old(self).wf(),
        ensures
            final(self).wf(),
            Self::insert_effect(
                old(self),
                final(self),
                Arc::new(value),
                old(self).settings().default_ttl,
                now,
                r,
            ),
    {
        let ttl = self.config.default_ttl;
        self.insert_arc_internal(Arc::new(value), ttl, now)
    }

    /// Inserts a value with a time to live of its own.
    pub fn insert_with_ttl(&mut self, value: T, ttl: Duration, now: Instant) -> (r: Committed<
        T,
        Result<Arc<T>, InsertError>,
    >)
        requires
            old(self).wf(),
        ensures
            final(self).wf(),
            Self::insert_effect(old(self), final(self), Arc::new(value), Some(ttl), now, r),
    {
        self.insert_arc_internal(Arc::new(value), Some(ttl), now)
    }

    /// Inserts a shared value.
    pub fn insert_arc_internal(&mut self, arc: Arc<T>, ttl: Option<Duration>, now: Instant) -> (r:
        Committed<T, Result<Arc<T>, InsertError>>)
        requires
            old(self).wf(),
        ensures
            final(self).wf(),
            Self::insert_effect(old(self), final(self), arc, ttl, now, r),
    {
        let expires_at = expiry_deadline(now, ttl);
        let epoch: u64 = self.next_access_epoch();
        let state = self.take_state();
        let ghost value = arc;
        let prepared = self.prepare_insert(state, arc, expires_at, epoch, now);
        proof {
            let entry = Entry { value, expires_at, last_access_epoch: epoch };
            if !crate::punnu::model::conflicts(
                old(self).entries(),
                old(self).policy(),
                value.spec_id(),
                now,
            ) {
                let victims = choose|victims: Seq<i64>| #[trigger]
                    crate::punnu::model::insert_outcome(
                        old(self).entries(),
                        old(self).capacity(),
                        old(self).policy(),
                        now,
                        entry,
                        victims,
                        prepared.state@,
                        prepared.events@,
                    );
                assert(prepared.state@.dom().len() <= self.config.lru_size);
            }
        }
        self.with_write_coordinator(prepared)
    }

    /// Looks an id up. An expired entry counts as absent and stays where it
    /// is; a live one is marked as just used.
    pub fn get(&mut self, id: &i64, now: Instant) -> (r: (Option<Arc<T>>, Vec<Sample>))
        requires
            old(self).wf(),
        ensures
            final(self).wf(),
            final(self).settings() == old(self).settings(),
            final(self).reserved() == old(self).reserved(),
            final(self).order() == old(self).order(),
            if crate::punnu::model::live(old(self).entries(), *id, now) {
                let epoch = crate::punnu::model::next_epoch(old(self).clock());
                &&& r.0 == Some(old(self).entries()[*id].value)
                &&& r.1@ == seq![Sample::Hit(CacheTier::L1)]
                &&& final(self).clock() == epoch
                &&& final(self).entries() == old(self).entries().insert(
                    *id,
                    (Entry { last_access_epoch: epoch, ..old(self).entries()[*id] }),
                )
            } else {
                &&& r.0 is None
                &&& r.1@ == if old(self).entries().dom().contains(*id) {
                    seq![Sample::Eviction(EventReason::spec_ttl_expired()), Sample::Miss]
                } else {
                    seq![Sample::Miss]
                }
                &&& final(self).clock() == old(self).clock()
                &&& final(self).entries() == old(self).entries()
            },
    {
        let mut samples: Vec<Sample> = Vec::new();
        let value: Arc<T> = match self.state.get(id) {
            None => {
                samples.push(Sample::Miss);
                return (None, samples);
            },
            Some(entry) => {
                if entry.is_expired_at(now) {
                    samples.push(Sample::Eviction(EventReason::ttl_expired()));
                    samples.push(Sample::Miss);
                    return (None, samples);
                }
                entry.value.clone()
            },
        };
        let epoch: u64 = self.next_access_epoch();
        let _touched = self.state.touch(id, epoch);
        proof {
            assert(self.state@.dom() =~= old(self).state@.dom());
        }
        samples.push(Sample::Hit(CacheTier::L1));
        (Some(value), samples)
    }

    /// What an invalidation of one id comes to.
    pub open spec fn invalidate_effect(
        pre: &Self,
        post: &Self,
        id: i64,
        reason: EventReason,
        now: Instant,
        r: Committed<T, bool>,
    ) -> bool {
        let was_live = crate::punnu::model::live(pre.entries(), id, now);
        &&& post.only_entries_changed(pre)
        &&& post.entries() == pre.entries().remove(id)
        &&& r.result == was_live
        &&& r.events@ == if was_live {
            seq![PunnuEvent::<T>::Invalidate { id, reason }]
        } else {
            Seq::empty()
        }
        &&& r.samples@ == crate::punnu::config::committed_samples(
            r.events@,
            post.entries().dom().len() as usize,
        )
    }

    /// Drops the entry of `id` on a caller's behalf, and tells whether there
    /// was a live one.
    pub fn invalidate(&mut self, id: &i64, reason: InvalidationReason, now: Instant) -> (r:
        Committed<T, bool>)
        requires
            old(self).wf(),
        ensures
            final(self).wf(),
            Self::invalidate_effect(
                old(self),
                final(self),
                *id,
                <EventReason as vstd::std_specs::convert::FromSpec<InvalidationReason>>::from_spec(
                    reason,
                ),
                now,
                r,
            ),
    {
        self.invalidate_internal(id, EventReason::from(reason), now)
    }

    /// Drops the entry of `id` for any reason, and tells whether there was a
    /// live one.
    pub fn invalidate_internal(&mut self, id: &i64, reason: EventReason, now: Instant) -> (r:
        Committed<T, bool>)
        requires
            old(self).wf(),
        ensures
            final(self).wf(),
            Self::invalidate_effect(old(self), final(self), *id, reason, now, r),
    {
        let state = self.take_state();
        proof {
            state.lemma_contents();
        }
        let prepared = self.prepare_invalidate(state, id, reason, now);
        self.with_write_coordinator(prepared)
    }

    /// Drops every entry, and counts them.
    pub fn invalidate_all_internal(&mut self, reason: EventReason) -> (r: Committed<T, usize>)
        requires
            old(self).wf(),
        ensures
            final(self).wf(),
            final(self).only_entries_changed(old(self)),
            final(self).entries() == Map::<i64, Entry<T>>::empty(),
            r.result == old(self).entries().dom().len(),
            r.events@ == crate::punnu::model::invalidations::<T>(old(self).order(), reason),
            r.samples@ == crate::punnu::config::committed_samples(r.events@, 0),
    {
        let state = self.take_state();
        let prepared = self.prepare_invalidate_all(state, reason);
        self.with_write_coordinator(prepared)
    }

    /// What a delta comes to.
    pub open spec fn delta_effect<S: DeltaFilter<T>>(
        pre: &Self,
        post: &Self,
        delta: DeltaResult<T>,
        filter: S,
        now: Instant,
        r: Committed<T, DeltaApplyStats>,
    ) -> bool {
        &&& post.settings() == pre.settings()
        &&& post.reserved() == pre.reserved()
        &&& r.samples@ == crate::punnu::config::committed_samples(
            r.events@,
            post.entries().dom().len() as usize,
        )
        &&& exists|ids: Seq<i64>, buried: Seq<i64>, victims: Seq<i64>| #[trigger]
            crate::punnu::model::delta_outcome(
                pre.entries(),
                pre.clock(),
                pre.settings(),
                now,
                crate::punnu::model::latest(delta.items@, delta.tombstones@),
                delta.tombstones@,
                filter,
                ids,
                buried,
                victims,
                post.entries(),
                r.events@,
                r.result,
                post.clock(),
            )
    }

    /// Writes the items of a delta and deletes its tombstones.
    pub fn apply_delta(&mut self, delta: DeltaResult<T>, now: Instant) -> (r: Committed<
        T,
        DeltaApplyStats,
    >)
        requires
            old(self).wf(),
        ensures
            final(self).wf(),
            Self::delta_effect(old(self), final(self), delta, AcceptAll {  }, now, r),
    {
        self.apply_delta_filtered(delta, &AcceptAll {  }, now)
    }

    /// Writes the items of a delta that `filter` lets through and deletes its
    /// tombstones.
    fn apply_delta_filtered<S: DeltaFilter<T>>(
        &mut self,
        delta: DeltaResult<T>,
        filter: &S,
        now: Instant,
    ) -> (r: Committed<T, DeltaApplyStats>)
        requires
            old(self).wf(),
        ensures
            final(self).wf(),
            Self::delta_effect(old(self), final(self), delta, *filter, now, r),
    {
        let state = self.take_state();
        let prepared = self.prepare_apply_delta_with_filter(state, delta, filter, now);
        proof {
            let (ids, buried, victims) = choose|
                ids: Seq<i64>,
                buried: Seq<i64>,
                victims: Seq<i64>,
            | #[trigger]
                crate::punnu::model::delta_outcome(
                    old(self).entries(),
                    old(self).clock(),
                    old(self).settings(),
                    now,
                    crate::punnu::model::latest(delta.items@, delta.tombstones@),
                    delta.tombstones@,
                    *filter,
                    ids,
                    buried,
                    victims,
                    prepared.state@,
                    prepared.events@,
                    prepared.result,
                    self.clock(),
                );
            assert(prepared.state@.dom().len() <= self.config.lru_size);
        }
        self.with_write_coordinator(prepared)
    }

    /// What a refresh comes to.
    pub open spec fn refresh_effect(
        pre: &Self,
        post: &Self,
        items: Seq<T>,
        mode: RefreshMode,
        now: Instant,
        r: Committed<T, ()>,
    ) -> bool {
        &&& post.settings() == pre.settings()
        &&& post.reserved() == pre.reserved()
        &&& r.samples@ == crate::punnu::config::committed_samples(
            r.events@,
            post.entries().dom().len() as usize,
        )
        &&& exists|ids: Seq<i64>, victims: Seq<i64>| #[trigger]
            crate::punnu::model::refresh_outcome(
                pre.entries(),
                pre.order(),
                pre.clock(),
                pre.settings(),
                now,
                crate::punnu::model::latest(items, Set::empty()),
                mode,
                ids,
                victims,
                post.entries(),
                r.events@,
                post.clock(),
            )
    }

    /// Applies fetched values.
    pub fn apply_refresh_items(&mut self, items: Vec<T>, mode: RefreshMode, now: Instant) -> (r:
        Committed<T, ()>)
        requires
            old(self).wf(),
        ensures
            final(self).wf(),
            Self::refresh_effect(old(self), final(self), items@, mode, now, r),
    {
        let state = self.take_state();
        let ghost all = items@;
        let prepared = match mode {
            RefreshMode::UpsertOnly => self.prepare_refresh_upsert(state, items, now),
            RefreshMode::Replace => self.prepare_refresh_replace(state, items, now),
        };
        proof {
            let (ids, victims) = choose|ids: Seq<i64>, victims: Seq<i64>| #[trigger]
                crate::punnu::model::refresh_outcome(
                    old(self).entries(),
                    old(self).order(),
                    old(self).clock(),
                    old(self).settings(),
                    now,
                    crate::punnu::model::latest(all, Set::empty()),
                    mode,
                    ids,
                    victims,
                    prepared.state@,
                    prepared.events@,
                    self.clock(),
                );
            assert(prepared.state@.dom().len() <= self.config.lru_size);
        }
        self.with_write_coordinator(prepared)
    }

    /// Inserts a fetched value unless its id is live, and hands back the value
    /// that is cached then.
    pub fn insert_arc_or_existing(&mut self, arc: Arc<T>, now: Instant) -> (r: Committed<
        T,
        FetchInsertResult<T>,
    >)
        requires
            old(self).wf(),
        ensures
            final(self).wf(),
            final(self).settings() == old(self).settings(),
            final(self).reserved() == old(self).reserved(),
            final(self).clock() == crate::punnu::model::next_epoch(old(self).clock()),
            r.samples@ == crate::punnu::config::committed_samples(
                r.events@,
                final(self).entries().dom().len() as usize,
            ),
            ({
                let id = arc.spec_id();
                if crate::punnu::model::live(old(self).entries(), id, now) {
                    &&& final(self).entries() == old(self).entries()
                    &&& r.events@ == Seq::<PunnuEvent<T>>::empty()
                    &&& r.result == FetchInsertResult::Ready(old(self).entries()[id].value)
                } else if old(self).reserved().contains(id) {
                    &&& final(self).entries() == crate::punnu::model::drop_if_expired(
                        old(self).entries(),
                        id,
                        now,
                    )
                    &&& r.events@ == Seq::<PunnuEvent<T>>::empty()
                    &&& r.result == FetchInsertResult::<T>::Blocked(id)
                } else {
                    &&& r.result == FetchInsertResult::Ready(arc)
                    &&& exists|victims: Seq<i64>| #[trigger]
                        crate::punnu::model::insert_outcome(
                            old(self).entries(),
                            old(self).capacity(),
                            OnConflict::LastWriteWins,
                            now,
                            (Entry {
                                value: arc,
                                expires_at: crate::time::deadline(
                                    now,
                                    old(self).settings().default_ttl,
                                ),
                                last_access_epoch: final(self).clock(),
                            }),
                            victims,
                            final(self).entries(),
                            r.events@,
                        )
                }
            }),
    {
        let expires_at = expiry_deadline(now, self.config.default_ttl);
        let epoch: u64 = self.next_access_epoch();
        let state = self.take_state();
        proof {
            state.lemma_contents();
        }
        let ghost value = arc;
        let prepared = self.prepare_insert_or_existing(state, arc, expires_at, epoch, now);
        proof {
            let id = value.spec_id();
            if !crate::punnu::model::live(old(self).entries(), id, now)
                && !old(self).reserved().contains(id) {
                let victims = choose|victims: Seq<i64>| #[trigger]
                    crate::punnu::model::insert_outcome(
                        old(self).entries(),
                        old(self).capacity(),
                        OnConflict::LastWriteWins,
                        now,
                        (Entry { value, expires_at, last_access_epoch: epoch }),
                        victims,
                        prepared.state@,
                        prepared.events@,
                    );
                assert(prepared.state@.dom().len() <= self.config.lru_size);
            }
        }
        self.with_write_coordinator(prepared)
    }

    /// Inserts fetched values, all or none.
    pub fn insert_many_for_fetch(&mut self, values: &Vec<Arc<T>>, now: Instant) -> (r: Committed<
        T,
        FetchManyInsertResult<T>,
    >)
        requires
            old(self).wf(),
        ensures
            final(self).wf(),
            final(self).settings() == old(self).settings(),
            final(self).reserved() == old(self).reserved(),
            final(self).clock() == crate::punnu::model::nth_epoch(
                old(self).clock(),
                values@.len(),
            ),
            r.samples@ == crate::punnu::config::committed_samples(
                r.events@,
                final(self).entries().dom().len() as usize,
            ),
            insert_many_outcome(
                old(self).entries(),
                old(self).capacity(),
                old(self).policy(),
                old(self).reserved(),
                now,
                crate::punnu::model::fetched_batch(
                    values@,
                    old(self).clock(),
                    old(self).settings().default_ttl,
                    now,
                ),
                final(self).entries(),
                r.events@,
                r.result,
            ),
    {
        let mut batch: Vec<(Arc<T>, Option<Instant>, u64)> = Vec::new();
        let ghost clock = self.clock();
        let ghost ttl = self.settings().default_ttl;
        let mut i: usize = 0;
        while i < values.len()
            invariant
                i <= values@.len(),
                self.state == old(self).state,
                self.settings() == old(self).settings(),
                self.reserved() == old(self).reserved(),
                ttl == self.settings().default_ttl,
                self.clock() == crate::punnu::model::nth_epoch(clock, i as nat),
                batch@ == crate::punnu::model::fetched_batch(
                    values@.take(i as int),
                    clock,
                    ttl,
                    now,
                ),
            decreases values@.len() - i,
        {
            let expires_at = expiry_deadline(now, self.config.default_ttl);
            let epoch: u64 = self.next_access_epoch();
            batch.push((values[i].clone(), expires_at, epoch));
            i += 1;
            assert(batch@ =~= crate::punnu::model::fetched_batch(
                values@.take(i as int),
                clock,
                ttl,
                now,
            ));
        }
        assert(values@.take(i as int) =~= values@);
        let state = self.take_state();
        let prepared = self.prepare_insert_many(state, &batch, now);
        proof {
            match crate::punnu::model::batch(
                old(self).entries(),
                old(self).policy(),
                old(self).reserved(),
                now,
                batch@,
            ) {
                crate::punnu::model::BatchProgress::Taken(written, taken) => {
                    let victims = choose|victims: Seq<i64>| #[trigger]
                        crate::punnu::model::batch_outcome(
                            old(self).entries(),
                            old(self).capacity(),
                            old(self).policy(),
                            now,
                            written,
                            taken,
                            victims,
                            prepared.state@,
                            prepared.events@,
                        );
                    assert(prepared.state@.dom().len() <= self.config.lru_size);
                },
                _ => {},
            }
        }
        self.with_write_coordinator(prepared)
    }

    /// Splits `ids` into what is cached and what has to be fetched, each
    /// missing id once.
    pub fn split_cached(&mut self, ids: &Vec<i64>, now: Instant) -> (r: (
        Vec<Arc<T>>,
        Vec<i64>,
        Vec<Sample>,
    ))
        requires
            old(self).wf(),
        ensures
            final(self).wf(),
            final(self).settings() == old(self).settings(),
            final(self).reserved() == old(self).reserved(),
            final(self).order() == old(self).order(),
            (final(self).entries(), final(self).clock()) == crate::punnu::model::looked_up(
                old(self).entries(),
                old(self).clock(),
                ids@,
                now,
            ),
            r.0@ == crate::punnu::model::live_values(old(self).entries(), ids@, now),
            r.1@ == crate::punnu::model::missing_ids(old(self).entries(), ids@, now),
            r.2@ == lookup_samples(old(self).entries(), ids@, now),
    {
        broadcast use vstd::std_specs::hash::group_hash_axioms;

        let ghost m = self.entries();
        let ghost clock = self.clock();
        let mut hits: Vec<Arc<T>> = Vec::new();
        let mut missing: Vec<i64> = Vec::new();
        let mut seen_missing: HashSet<i64> = HashSet::new();
        let mut samples: Vec<Sample> = Vec::new();
        let mut i: usize = 0;
        while i < ids.len()
            invariant
                i <= ids@.len(),
                self.wf(),
                m == old(self).entries(),
                self.settings() == old(self).settings(),
                self.reserved() == old(self).reserved(),
                self.order() == old(self).order(),
                (self.entries(), self.clock()) == crate::punnu::model::looked_up(
                    m,
                    clock,
                    ids@.take(i as int),
                    now,
                ),
                hits@ == crate::punnu::model::live_values(m, ids@.take(i as int), now),
                missing@ == crate::punnu::model::missing_ids(m, ids@.take(i as int), now),
                samples@ == lookup_samples(m, ids@.take(i as int), now),
                forall|id: i64| #[trigger] seen_missing@.contains(id) <==> missing@.contains(id),
            decreases ids@.len() - i,
        {
            proof {
                assert(ids@.take(i + 1).drop_last() =~= ids@.take(i as int));
                crate::punnu::model::lemma_looked_up(m, clock, ids@.take(i as int), now);
                assert(m.dom().contains(ids@[i as int]) == self.entries().dom().contains(
                    ids@[i as int],
                ));
            }
            let id = ids[i];
            let (found, mut told) = self.get(&id, now);
            samples.append(&mut told);
            match found {
                Some(arc) => {
                    hits.push(arc);
                },
                None => {
                    if seen_missing.insert(id) {
                        let ghost before = missing@;
                        missing.push(id);
                        assert forall|k: i64| #[trigger] seen_missing@.contains(
                            k,
                        ) <==> missing@.contains(k) by {
                            if before.contains(k) {
                                let j = before.index_of(k);
                                assert(missing@[j] == k);
                            }
                            if k == id {
                                assert(missing@[before.len() as int] == id);
                            }
                            if missing@.contains(k) && k != id {
                                let j = missing@.index_of(k);
                                assert(before[j] == k);
                            }
                        }
                    }
                },
            }
            i += 1;
        }
        assert(ids@.take(i as int) =~= ids@);
        (hits, missing, samples)
    }

    /// Removes the expired entries among `candidate_ids`. An entry that was
    /// written anew after the candidates were collected stays.
    pub fn sweep_expired(&mut self, candidate_ids: &Vec<i64>, now: Instant) -> (r: Committed<
        T,
        usize,
    >)
        requires
            old(self).wf(),
        ensures
            final(self).wf(),
            final(self).only_entries_changed(old(self)),
            ({
                let gone = crate::punnu::model::expired_among(
                    old(self).entries(),
                    candidate_ids@,
                    now,
                );
                &&& final(self).entries() == crate::punnu::model::without(
                    old(self).entries(),
                    gone,
                )
                &&& r.result == gone.len()
                &&& r.events@ == crate::punnu::model::invalidations::<T>(
                    gone,
                    EventReason::spec_ttl_expired(),
                )
            }),
            r.samples@ == crate::punnu::config::committed_samples(
                r.events@,
                final(self).entries().dom().len() as usize,
            ),
    {
        let ghost m = self.entries();
        let mut removed_ids: Vec<i64> = Vec::new();
        let mut i: usize = 0;
        assert(crate::punnu::model::without(m, removed_ids@) =~= m);
        while i < candidate_ids.len()
            invariant
                i <= candidate_ids@.len(),
                self.state.wf(),
                self.only_entries_changed(old(self)),
                self.entries() == crate::punnu::model::without(m, removed_ids@),
                removed_ids@ == crate::punnu::model::expired_among(
                    m,
                    candidate_ids@.take(i as int),
                    now,
                ),
            decreases candidate_ids@.len() - i,
        {
            assert(candidate_ids@.take(i + 1).drop_last() =~= candidate_ids@.take(i as int));
            let id = candidate_ids[i];
            let ghost before = removed_ids@;
            assert(self.entries().dom().contains(id) <==> m.dom().contains(id)
                && !before.contains(id));
            if remove_expired_entry(&mut self.state, &id, now) {
                removed_ids.push(id);
                assert forall|k: i64| removed_ids@.contains(k) == (before.contains(k) || k == id) by {
                    if before.contains(k) {
                        let j = before.index_of(k);
                        assert(removed_ids@[j] == k);
                    }
                    if k == id {
                        assert(removed_ids@[before.len() as int] == id);
                    }
                }
                assert(self.entries() =~= crate::punnu::model::without(m, removed_ids@));
            }
            i += 1;
        }
        assert(candidate_ids@.take(i as int) =~= candidate_ids@);
        proof {
            old(self).lemma_wf();
            vstd::set_lib::lemma_len_subset(self.entries().dom(), m.dom());
        }
        let removed_count: usize = removed_ids.len();
        let events = invalidation_events(&removed_ids, EventReason::ttl_expired());
        let samples = emit_committed_events(&events, self.state.len());
        Committed { result: removed_count, events, samples }
    }

    /// Lists the expired entries in slot order.
    pub fn expired_ids(&self, now: Instant) -> (r: Vec<i64>)
        requires
            self.wf(),
        ensures
            r@ == crate::punnu::model::expired_among(self.entries(), self.order(), now),
    {
        let ids = self.state.ids();
        let mut r: Vec<i64> = Vec::new();
        let mut i: usize = 0;
        proof {
            self.state.lemma_contents();
        }
        while i < ids.len()
            invariant
                i <= ids@.len(),
                self.wf(),
                ids@.no_duplicates(),
                r@ == crate::punnu::model::expired_among(self.entries(), ids@.take(i as int), now),
            decreases ids@.len() - i,
        {
            proof {
                assert(ids@.take(i + 1).drop_last() =~= ids@.take(i as int));
                lemma_expired_among_members(self.entries(), ids@.take(i as int), now);
                assert(!ids@.take(i as int).contains(ids@[i as int]));
                assert(!r@.contains(ids@[i as int]));
            }
            match self.state.get(&ids[i]) {
                Some(entry) => {
                    if entry.is_expired_at(now) {
                        r.push(ids[i]);
                    }
                },
                None => {},
            }
            i += 1;
        }
        assert(ids@.take(i as int) =~= ids@);
        r
    }

    /// Counts the entries, expired ones included.
    pub fn len(&self) -> (r: usize)
        requires
            self.wf(),
        ensures
            r == self.entries().dom().len(),
    {
        self.state.len()
    }

    /// Tells whether there are no entries.
    pub fn is_empty(&self) -> (r: bool)
        requires
            self.wf(),
        ensures
            r == (self.entries() == Map::<i64, Entry<T>>::empty()),
    {
        self.state.is_empty()
    }

    /// Reads the settings.
    pub fn config(&self) -> (r: &PunnuConfig)
        ensures
            *r == self.settings(),
    {
        &self.config
    }

    /// Lists the live values in slot order.
    pub fn snapshot_unexpired(&self, now: Instant) -> (r: Vec<Arc<T>>)
        requires
            self.wf(),
        ensures
            r@ == crate::punnu::model::live_values(self.entries(), self.order(), now),
    {
        let ids = self.state.ids();
        let mut r: Vec<Arc<T>> = Vec::new();
        let mut i: usize = 0;
        while i < ids.len()
            invariant
                i <= ids@.len(),
                self.wf(),
                r@ == crate::punnu::model::live_values(self.entries(), ids@.take(i as int), now),
            decreases ids@.len() - i,
        {
            assert(ids@.take(i + 1).drop_last() =~= ids@.take(i as int));
            match self.state.get(&ids[i]) {
                Some(entry) => {
                    if !entry.is_expired_at(now) {
                        r.push(entry.value.clone());
                    }
                },
                None => {},
            }
            i += 1;
        }
        assert(ids@.take(i as int) =~= ids@);
        r
    }

    /// Tells whether `id` is live.
    pub fn contains_unexpired(&self, id: &i64, now: Instant) -> (r: bool)
        requires
            self.wf(),
        ensures
            r == crate::punnu::model::live(self.entries(), *id, now),
    {
        match self.state.get(id) {
            Some(entry) => !entry.is_expired_at(now),
            None => false,
        }
    }

    /// Tells whether an insert of `id` would be refused.
    pub fn live_conflict_for_reject(&self, id: &i64, now: Instant) -> (r: bool)
        requires
            self.wf(),
        ensures
            r == crate::punnu::model::conflicts(self.entries(), self.policy(), *id, now),
    {
        if self.config.on_conflict != OnConflict::Reject {
            return false;
        }
        self.contains_unexpired(id, now)
    }

    /// Reserves `id` for a backend write, and tells whether it was free.
    pub fn try_acquire_backend_strict_insert(&mut self, id: &i64) -> (r: bool)
        ensures
            old(self).wf() ==> final(self).wf(),
            r == !old(self).reserved().contains(*id),
            final(self).reserved() == old(self).reserved().insert(*id),
            final(self).entries() == old(self).entries(),
            final(self).order() == old(self).order(),
            final(self).settings() == old(self).settings(),
            final(self).clock() == old(self).clock(),
    {
        self.strict_insert_ids.insert(*id)
    }

    /// Frees `id` after a backend write.
    pub fn release_backend_strict_insert(&mut self, id: &i64)
        ensures
            old(self).wf() ==> final(self).wf(),
            final(self).reserved() == old(self).reserved().remove(*id),
            final(self).entries() == old(self).entries(),
            final(self).order() == old(self).order(),
            final(self).settings() == old(self).settings(),
            final(self).clock() == old(self).clock(),
    {
        let _was_reserved = self.strict_insert_ids.remove(id);
    }

    /// Tells whether a backend write holds `id`.
    pub fn backend_strict_insert_reserved(&self, id: &i64) -> (r: bool)
        ensures
            r == self.reserved().contains(*id),
    {
        self.strict_insert_ids.contains(id)
    }
}

impl<T: DeltaSyncCacheable> Punnu<T> {
    /// Applies a delta that recovers evicted entries: of `recovered_ids`, an
    /// item that is older than what is resident is passed over.
    pub fn apply_delta_recovering(
        &mut self,
        delta: DeltaResult<T>,
        recovered_ids: &HashSet<i64>,
        now: Instant,
    ) -> (r: Committed<T, DeltaApplyStats>)
        requires
            old(self).wf(),
        ensures
            final(self).wf(),
            Self::delta_effect(
                old(self),
                final(self),
                delta,
                (KeepNewer { recovered_ids }),
                now,
                r,
            ),
    {
        self.apply_delta_filtered(delta, &KeepNewer { recovered_ids }, now)
    }
}

/// The samples of looking up `ids` in order.
pub open spec fn lookup_samples<T>(m: Map<i64, Entry<T>>, ids: Seq<i64>, now: Instant) -> Seq<
    Sample,
>
    decreases ids.len(),
{
    if ids.len() == 0 {
        Seq::empty()
    } else {
        let id = ids.last();
        lookup_samples(m, ids.drop_last(), now) + if crate::punnu::model::live(m, id, now) {
            seq![Sample::Hit(CacheTier::L1)]
        } else if m.dom().contains(id) {
            seq![Sample::Eviction(EventReason::spec_ttl_expired()), Sample::Miss]
        } else {
            seq![Sample::Miss]
        }
    }
}

/// What is listed as expired was among the ids.
proof fn lemma_expired_among_members<T>(m: Map<i64, Entry<T>>, ids: Seq<i64>, now: Instant)
    ensures
        forall|id: i64| #[trigger]
            crate::punnu::model::expired_among(m, ids, now).contains(id) ==> ids.contains(id)
                && m.dom().contains(id) && m[id].expired(now),
    decreases ids.len(),
{
    if ids.len() > 0 {
        let front = ids.drop_last();
        lemma_expired_among_members(m, front, now);
        let before = crate::punnu::model::expired_among(m, front, now);
        let after = crate::punnu::model::expired_among(m, ids, now);
        assert forall|id: i64| #[trigger] after.contains(id) implies ids.contains(id)
            && m.dom().contains(id) && m[id].expired(now) by {
            if before.contains(id) {
                let i = front.index_of(id);
                assert(ids[i] == id);
            } else {
                let i = after.index_of(id);
                if i < before.len() {
                    assert(before[i] == id);
                }
                assert(id == ids.last());
            }
        }
    }
}

/// The absent ids are those of `order` that are not in `kept`.
proof fn lemma_absent_ids(order: Seq<i64>, kept: Set<i64>)
    ensures
        forall|id: i64| #[trigger]
            crate::punnu::model::absent_ids(order, kept).contains(id) <==> order.contains(id)
                && !kept.contains(id),
    decreases order.len(),
{
    if order.len() > 0 {
        let front = order.drop_last();
        lemma_absent_ids(front, kept);
        let before = crate::punnu::model::absent_ids(front, kept);
        let after = crate::punnu::model::absent_ids(order, kept);
        assert forall|id: i64| #[trigger] after.contains(id) <==> order.contains(id)
            && !kept.contains(id) by {
            assert(before.contains(id) <==> front.contains(id) && !kept.contains(id));
            assert(order =~= front.push(order.last()));
            assert(order.contains(id) <==> front.contains(id) || id == order.last()) by {
                if front.contains(id) {
                    let i = front.index_of(id);
                    assert(order[i] == id);
                }
                if id == order.last() {
                    assert(order[order.len() - 1] == id);
                }
                if order.contains(id) && id != order.last() {
                    let i = order.index_of(id);
                    assert(front[i] == id);
                }
            }
            if !kept.contains(order.last()) {
                assert(after == before.push(order.last()));
                if before.contains(id) {
                    let i = before.index_of(id);
                    assert(after[i] == id);
                }
                if id == order.last() {
                    assert(after[before.len() as int] == id);
                }
                if after.contains(id) && id != order.last() {
                    let i = after.index_of(id);
                    assert(before[i] == id);
                }
            }
        }
    }
}

/// Lists the ids that `items` does not have, in order.
fn absent_among<V>(ids: &Vec<i64>, items: &BTreeMap<i64, V>) -> (r: Vec<i64>)
    ensures
        r@ == crate::punnu::model::absent_ids(ids@, items@.dom()),
{
    let mut r: Vec<i64> = Vec::new();
    let mut i: usize = 0;
    while i < ids.len()
        invariant
            i <= ids@.len(),
            r@ == crate::punnu::model::absent_ids(ids@.take(i as int), items@.dom()),
        decreases ids@.len() - i,
    {
        if !items.contains_key(&ids[i]) {
            r.push(ids[i]);
        }
        i += 1;
        assert(ids@.take(i as int).drop_last() =~= ids@.take(i - 1));
    }
    assert(ids@.take(i as int) =~= ids@);
    r
}

/// Drops the entries of `ids`.
fn remove_all<T: Cacheable>(state: &mut L1State<T>, ids: &Vec<i64>)
    requires
        old(state).wf(),
    ensures
        final(state).wf(),
        final(state)@ == crate::punnu::model::without(old(state)@, ids@),
{
    let ghost m = old(state)@;
    let mut i: usize = 0;
    assert(m =~= crate::punnu::model::without(m, ids@.take(0)));
    while i < ids.len()
        invariant
            i <= ids@.len(),
            state.wf(),
            state@ == crate::punnu::model::without(m, ids@.take(i as int)),
        decreases ids@.len() - i,
    {
        let _removed = state.remove_entry(&ids[i]);
        i += 1;
        proof {
            let before = ids@.take(i - 1);
            let after = ids@.take(i as int);
            assert(after =~= before.push(ids@[i - 1]));
            assert forall|id: i64| after.contains(id) == (before.contains(id) || id == ids@[i
                - 1]) by {
                if before.contains(id) {
                    let j = before.index_of(id);
                    assert(after[j] == id);
                }
                if id == ids@[i - 1] {
                    assert(after[i - 1] == id);
                }
            }
            assert(state@ =~= crate::punnu::model::without(m, after));
        }
    }
    assert(ids@.take(i as int) =~= ids@);
}

/// Keeps the last item of each id, without the ids that are tombstoned.
fn latest_items<T: Cacheable>(items: Vec<T>, tombstones: &HashSet<i64>) -> (r: BTreeMap<
    i64,
    Arc<T>,
>)
    ensures
        r@ == crate::punnu::model::latest(items@, tombstones@),
        forall|id: i64| #[trigger] r@.dom().contains(id) ==> r@[id].spec_id() == id,
{
    broadcast use vstd::std_specs::hash::group_hash_axioms;

    let ghost all = items@;
    let mut normalized: BTreeMap<i64, Arc<T>> = BTreeMap::new();
    for value in it: items
        invariant
            it.seq() == all,
            normalized@ == crate::punnu::model::latest(
                all.take(it.index() as int),
                tombstones@,
            ),
            forall|id: i64| #[trigger]
                normalized@.dom().contains(id) ==> normalized@[id].spec_id() == id,
    {
        assert(all.take(it.index() + 1).drop_last() =~= all.take(it.index() as int));
        let id = value.id();
        if !tombstones.contains(&id) {
            let _older = normalized.insert(id, Arc::new(value));
        }
    }
    assert(all.take(all.len() as int) =~= all);
    normalized
}

/// Makes the events of the written items that are resident in `state`.
fn accepted_events<T: Cacheable>(
    state: &L1State<T>,
    policy: OnConflict,
    accepted: &Vec<(i64, Option<Arc<T>>)>,
) -> (r: Vec<PunnuEvent<T>>)
    requires
        state.wf(),
    ensures
        r@ == crate::punnu::model::accepted_events(state@, policy, accepted@),
{
    let mut events: Vec<PunnuEvent<T>> = Vec::new();
    let mut i: usize = 0;
    while i < accepted.len()
        invariant
            i <= accepted@.len(),
            state.wf(),
            events@ == crate::punnu::model::accepted_events(
                state@,
                policy,
                accepted@.take(i as int),
            ),
        decreases accepted@.len() - i,
    {
        let item = &accepted[i];
        match state.get(&item.0) {
            Some(entry) => {
                let old = match &item.1 {
                    Some(old) => Some(old.clone()),
                    None => None,
                };
                events.push(refresh_write_event(policy, old, entry.value.clone()));
            },
            None => {},
        }
        i += 1;
        assert(accepted@.take(i as int).drop_last() =~= accepted@.take(i - 1));
    }
    assert(accepted@.take(i as int) =~= accepted@);
    events
}

/// Lists the values of a batch.
fn batch_values<T: Cacheable>(values: &Vec<(Arc<T>, Option<Instant>, u64)>) -> (r: Vec<Arc<T>>)
    ensures
        r@ == crate::punnu::model::batch_values(values@),
{
    let mut r: Vec<Arc<T>> = Vec::new();
    let mut i: usize = 0;
    while i < values.len()
        invariant
            i <= values@.len(),
            r@ == crate::punnu::model::batch_values(values@.take(i as int)),
        decreases values@.len() - i,
    {
        r.push(values[i].0.clone());
        i += 1;
        assert(r@ =~= crate::punnu::model::batch_values(values@.take(i as int)));
    }
    assert(values@.take(i as int) =~= values@);
    r
}

/// Makes the events of the values of a batch that are resident in `state`.
fn batch_events<T: Cacheable>(
    state: &L1State<T>,
    policy: OnConflict,
    accepted: &Vec<(i64, Arc<T>, Option<Arc<T>>)>,
) -> (r: Vec<PunnuEvent<T>>)
    requires
        state.wf(),
    ensures
        r@ == crate::punnu::model::batch_events(state@, policy, accepted@),
{
    let mut events: Vec<PunnuEvent<T>> = Vec::new();
    let mut i: usize = 0;
    while i < accepted.len()
        invariant
            i <= accepted@.len(),
            state.wf(),
            events@ == crate::punnu::model::batch_events(
                state@,
                policy,
                accepted@.take(i as int),
            ),
        decreases accepted@.len() - i,
    {
        let item = &accepted[i];
        if state.contains_key(&item.0) {
            let old = match &item.2 {
                Some(old) => Some(old.clone()),
                None => None,
            };
            events.push(refresh_write_event(policy, old, item.1.clone()));
        }
        i += 1;
        assert(accepted@.take(i as int).drop_last() =~= accepted@.take(i - 1));
    }
    assert(accepted@.take(i as int) =~= accepted@);
    events
}

/// Makes the event that tells about a write of `value` over `replaced`.
pub fn refresh_write_event<T: Cacheable>(
    policy: OnConflict,
    replaced: Option<Arc<T>>,
    value: Arc<T>,
) -> (r: PunnuEvent<T>)
    ensures
        r == crate::punnu::model::write_event(policy, replaced, value),
{
    match (replaced, policy) {
        (Some(old), OnConflict::Update) => PunnuEvent::Update { old, new: value },
        _ => PunnuEvent::Insert { value },
    }
}

} // verus!

//! Writes of a pool that has a backend.

use vstd::prelude::*;
use crate::backend::keyspace::BackendInvalidation;
use crate::cacheable::Cacheable;
use crate::error::{BackendError, InsertError};
use crate::punnu::config::Sample;
use crate::punnu::events::{EventReason, InvalidationReason, PunnuEvent};
use crate::punnu::pool::Punnu;
use crate::punnu::state::Entry;
use crate::punnu::write::Committed;
use crate::time::{Duration, Instant};
use std::sync::Arc;

verus! {

/// How an insert that writes the backend first goes on.
#[derive(Debug, Clone, Copy, PartialEq, Eq, Structural)]
pub enum StrictStart {
    /// Another write holds the id: wait for it.
    Busy,
    /// The pool rejects the insert.
    Conflict,
    /// The id is reserved: write the backend.
    Put,
}

impl<T: Cacheable> Punnu<T> {
    /// Nothing has changed but the reservations.
    pub open spec fn only_reservations_changed(&self, before: &Self) -> bool {
        &&& self.entries() == before.entries()
        &&& self.order() == before.order()
        &&& self.settings() == before.settings()
        &&& self.clock() == before.clock()
    }

    /// Starts an insert that writes the backend first.
    pub fn begin_strict_insert(&mut self, id: &i64, now: Instant) -> (r: StrictStart)
        requires
            old(self).wf(),
        ensures
            final(self).wf(),
            final(self).only_reservations_changed(old(self)),
            if old(self).reserved().contains(*id) {
                &&& r == StrictStart::Busy
                &&& final(self).reserved() == old(self).reserved()
            } else if crate::punnu::model::conflicts(
                old(self).entries(),
                old(self).policy(),
                *id,
                now,
            ) {
                &&& r == StrictStart::Conflict
                &&& final(self).reserved() == old(self).reserved()
            } else {
                &&& r == StrictStart::Put
                &&& final(self).reserved() == old(self).reserved().insert(*id)
            },
    {
        if !self.try_acquire_backend_strict_insert(id) {
            assert(self.reserved() =~= old(self).reserved());
            return StrictStart::Busy;
        }
        if self.live_conflict_for_reject(id, now) {
            self.release_backend_strict_insert(id);
            assert(self.reserved() =~= old(self).reserved());
            return StrictStart::Conflict;
        }
        StrictStart::Put
    }

    /// Ends an insert that wrote the backend first. Where that failed the pool does not
    /// change; where it succeeded the value is inserted. The id is free after that.
    pub fn finish_strict_insert(
        &mut self,
        arc: Arc<T>,
        ttl: Option<Duration>,
        put: Result<(), BackendError>,
        now: Instant,
    ) -> (r: Committed<T, Result<Arc<T>, InsertError>>)
        requires
            old(self).wf(),
        ensures
            final(self).wf(),
            final(self).reserved() == old(self).reserved().remove(arc.spec_id()),
            match put {
                Err(err) => {
                    &&& r.result == Err::<Arc<T>, InsertError>(InsertError::BackendFailed(err))
                    &&& r.events@ == Seq::<PunnuEvent<T>>::empty()
                    &&& r.samples@ == Seq::<Sample>::empty()
                    &&& final(self).only_reservations_changed(old(self))
                },
                Ok(()) => exists|inserted: Self| #[trigger]
                    Self::insert_effect(old(self), &inserted, arc, ttl, now, r) && final(
                        self).only_reservations_changed(&inserted),
            },
    {
        let id = arc.id();
        match put {
            Err(err) => {
                self.release_backend_strict_insert(&id);
                Committed {
                    result: Err(InsertError::BackendFailed(err)),
                    events: Vec::new(),
                    samples: Vec::new(),
                }
            },
            Ok(()) => {
                let r = self.insert_arc_internal(arc, ttl, now);
                let ghost inserted = *self;
                assert(Self::insert_effect(old(self), &inserted, arc, ttl, now, r));
                self.release_backend_strict_insert(&id);
                r
            },
        }
    }

    /// Ends an invalidation that wrote the backend first. Where that failed the pool does
    /// not change and the caller gets the error.
    pub fn finish_strict_invalidate(
        &mut self,
        id: &i64,
        reason: InvalidationReason,
        reply: Result<(), BackendError>,
        now: Instant,
    ) -> (r: Result<Committed<T, bool>, BackendError>)
        requires
            old(self).wf(),
        ensures
            final(self).wf(),
            match reply {
                Err(err) => {
                    &&& r matches Err(e) && e == err
                    &&& *final(self) == *old(self)
                },
                Ok(()) => r matches Ok(committed) && Self::invalidate_effect(
                    old(self),
                    final(self),
                    *id,
                    <EventReason as vstd::std_specs::convert::FromSpec<
                        InvalidationReason,
                    >>::from_spec(reason),
                    now,
                    committed,
                ),
            },
    {
        match reply {
            Err(err) => Err(err),
            Ok(()) => Ok(self.invalidate(id, reason, now)),
        }
    }

    /// Takes in what the backend says about stale values. An error of the backend leaves
    /// the pool as it is; it is handed back to be reported.
    pub fn apply_backend_message(
        &mut self,
        message: Result<BackendInvalidation, BackendError>,
        now: Instant,
    ) -> (r: Committed<T, Option<BackendError>>)
        requires
            old(self).wf(),
        ensures
            final(self).wf(),
            final(self).only_entries_changed(old(self)),
            r.samples@ == crate::punnu::config::committed_samples(
                r.events@,
                final(self).entries().dom().len() as usize,
            ),
            match message {
                Err(err) => {
                    &&& r.result == Some(err)
                    &&& r.events@ == Seq::<PunnuEvent<T>>::empty()
                    &&& final(self).entries() == old(self).entries()
                },
                Ok(BackendInvalidation::Id(id)) => {
                    &&& r.result is None
                    &&& final(self).entries() == old(self).entries().remove(id)
                    &&& r.events@ == if crate::punnu::model::live(old(self).entries(), id, now) {
                        seq![
                            PunnuEvent::<T>::Invalidate {
                                id,
                                reason: EventReason::spec_backend_invalidation(),
                            },
                        ]
                    } else {
                        Seq::empty()
                    }
                },
                Ok(BackendInvalidation::All) => {
                    &&& r.result is None
                    &&& final(self).entries() == Map::<i64, Entry<T>>::empty()
                    &&& r.events@ == crate::punnu::model::invalidations::<T>(
                        old(self).order(),
                        EventReason::spec_backend_invalidation(),
                    )
                },
            },
    {
        match message {
            Err(err) => Committed { result: Some(err), events: Vec::new(), samples: Vec::new() },
            Ok(BackendInvalidation::Id(id)) => {
                let done = self.invalidate_internal(
                    &id,
                    EventReason::backend_invalidation(),
                    now,
                );
                Committed { result: None, events: done.events, samples: done.samples }
            },
            Ok(BackendInvalidation::All) => {
                let done = self.invalidate_all_internal(EventReason::backend_invalidation());
                Committed { result: None, events: done.events, samples: done.samples }
            },
        }
    }
}

} // verus!

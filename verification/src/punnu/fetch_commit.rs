//! How a fetch ends for the pool and for every caller that waits for it.

use vstd::prelude::*;
use crate::cacheable::Cacheable;
use crate::error::FetchError;
use crate::punnu::config::{OnConflict, Sample};
use crate::punnu::events::PunnuEvent;
use crate::punnu::pool::{FetchInsertResult, Punnu};
use crate::punnu::single_flight::{settle_fetch, Attach, FetchErrorClone, FetchReply};
use crate::punnu::state::Entry;
use crate::punnu::write::Committed;
use crate::time::Instant;
use std::sync::Arc;

verus! {

/// What a fetch comes to in the pool.
#[verifier::reject_recursive_types(T)]
pub enum FetchCommit<T: Cacheable> {
    /// What every caller gets.
    Done(Result<Option<Arc<T>>, FetchErrorClone>),
    /// A backend write holds the id: the value is inserted after that.
    Blocked(Arc<T>),
}

/// The fetcher returned a value of the id.
pub open spec fn fetched_value<T: Cacheable>(reply: FetchReply<T>, id: i64) -> Option<T> {
    match reply {
        FetchReply::Returned(Ok(Some(value))) => if value.spec_id() == id {
            Some(value)
        } else {
            None
        },
        _ => None,
    }
}

/// What a fetch comes to where no value is inserted.
pub open spec fn is_plain_end<T: Cacheable>(
    id: i64,
    cached_type: Seq<char>,
    reply: FetchReply<T>,
    end: Result<Option<Arc<T>>, FetchErrorClone>,
) -> bool {
    match end {
        Ok(found) => found is None && crate::punnu::single_flight::is_fetch_outcome(
            id,
            cached_type,
            reply,
            Ok::<Option<T>, FetchErrorClone>(None),
        ),
        Err(err) => crate::punnu::single_flight::is_fetch_outcome(
            id,
            cached_type,
            reply,
            Err::<Option<T>, FetchErrorClone>(err),
        ),
    }
}

impl<T: Cacheable> Punnu<T> {
    /// Ends the fetch for `id`: a value of the id is inserted unless one is live, and
    /// anything else leaves the pool alone.
    pub fn commit_fetch(
        &mut self,
        id: &i64,
        cached_type: &str,
        reply: FetchReply<T>,
        now: Instant,
    ) -> (r: Committed<T, FetchCommit<T>>)
        requires
            old(self).wf(),
        ensures
            final(self).wf(),
            final(self).settings() == old(self).settings(),
            final(self).reserved() == old(self).reserved(),
            match fetched_value(reply, *id) {
                None => {
                    &&& *final(self) == *old(self)
                    &&& r.events@ == Seq::<PunnuEvent<T>>::empty()
                    &&& r.samples@ == Seq::<Sample>::empty()
                    &&& r.result matches FetchCommit::Done(end) && is_plain_end(
                        *id,
                        cached_type@,
                        reply,
                        end,
                    )
                },
                Some(value) => {
                    &&& final(self).clock() == crate::punnu::model::next_epoch(old(self).clock())
                    &&& r.samples@ == crate::punnu::config::committed_samples(
                        r.events@,
                        final(self).entries().dom().len() as usize,
                    )
                    &&& if crate::punnu::model::live(old(self).entries(), *id, now) {
                        &&& final(self).entries() == old(self).entries()
                        &&& r.events@ == Seq::<PunnuEvent<T>>::empty()
                        &&& r.result == FetchCommit::Done(Ok(Some(old(self).entries()[*id].value)))
                    } else if old(self).reserved().contains(*id) {
                        &&& final(self).entries() == crate::punnu::model::drop_if_expired(
                            old(self).entries(),
                            *id,
                            now,
                        )
                        &&& r.events@ == Seq::<PunnuEvent<T>>::empty()
                        &&& r.result == FetchCommit::Blocked(Arc::new(value))
                    } else {
                        &&& r.result == FetchCommit::Done(Ok(Some(Arc::new(value))))
                        &&& exists|victims: Seq<i64>| #[trigger]
                            crate::punnu::model::insert_outcome(
                                old(self).entries(),
                                old(self).capacity(),
                                OnConflict::LastWriteWins,
                                now,
                                (Entry {
                                    value: Arc::new(value),
                                    expires_at: crate::time::deadline(
                                        now,
                                        old(self).settings().default_ttl,
                                    ),
                                    last_access_epoch: final(self).clock(),
                                }),
                                victims,
                                final(self).entries(),
                                r.events@,
                            )
                    }
                },
            },
    {
        match settle_fetch(id, cached_type, reply) {
            Err(err) => Committed {
                result: FetchCommit::Done(Err(err)),
                events: Vec::new(),
                samples: Vec::new(),
            },
            Ok(None) => Committed {
                result: FetchCommit::Done(Ok(None)),
                events: Vec::new(),
                samples: Vec::new(),
            },
            Ok(Some(value)) => {
                let arc = Arc::new(value);
                let done = self.insert_arc_or_existing(arc.clone(), now);
                let result = match done.result {
                    FetchInsertResult::Ready(cached) => FetchCommit::Done(Ok(Some(cached))),
                    FetchInsertResult::Blocked(_) => FetchCommit::Blocked(arc),
                };
                Committed { result, events: done.events, samples: done.samples }
            },
        }
    }
}

/// `got` is what a caller gets of the end of a fetch.
pub open spec fn is_handed_out<T: Cacheable>(
    end: Result<Option<Arc<T>>, FetchErrorClone>,
    got: Result<Option<Arc<T>>, FetchError>,
) -> bool {
    match end {
        Ok(found) => got == Ok::<Option<Arc<T>>, FetchError>(found),
        Err(c) => got matches Err(e) && crate::punnu::single_flight::is_restored(c, e),
    }
}

/// Hands the end of a fetch to a caller.
pub fn hand_out<T: Cacheable>(end: Result<Option<Arc<T>>, FetchErrorClone>) -> (got: Result<
    Option<Arc<T>>,
    FetchError,
>)
    ensures
        is_handed_out(end, got),
{
    match end {
        Ok(found) => Ok(found),
        Err(c) => Err(c.into_error()),
    }
}

/// What callers do, one after the other: each wants an id, and knows whether some caller
/// still waits for the fetch that is under way. Also the slots and the count of tickets
/// after that.
pub open spec fn attached_in_turn(
    slots: Map<i64, u64>,
    count: int,
    calls: Seq<(i64, bool)>,
) -> (Seq<Attach>, Map<i64, u64>, int)
    decreases calls.len(),
{
    if calls.len() == 0 {
        (Seq::empty(), slots, count)
    } else {
        let (before, held, issued) = attached_in_turn(slots, count, calls.drop_last());
        let (last, after, total) = crate::punnu::single_flight::attached(
            held,
            issued,
            calls.last().0,
            calls.last().1,
        );
        (before.push(last), after, total)
    }
}

/// However many callers want an id while its fetch is alive, and whatever others want
/// meanwhile: the first starts the fetch, and all later ones wait for that same one.
pub proof fn every_caller_waits_for_the_one_fetch(
    slots: Map<i64, u64>,
    count: int,
    calls: Seq<(i64, bool)>,
    id: i64,
    first: int,
)
    requires
        0 <= first < calls.len(),
        0 <= count,
        count + calls.len() <= u64::MAX,
        calls[first].0 == id,
        !(slots.dom().contains(id) && calls[first].1),
        forall|i: int| 0 <= i < first ==> (#[trigger] calls[i]).0 != id,
        forall|i: int| first < i < calls.len() && (#[trigger] calls[i]).0 == id ==> calls[i].1,
    ensures
        ({
            let (steps, held, _) = attached_in_turn(slots, count, calls);
            &&& steps.len() == calls.len()
            &&& held.dom().contains(id)
            &&& steps[first] == Attach::Start(held[id])
            &&& forall|i: int|
                first < i < calls.len() && (#[trigger] calls[i]).0 == id ==> steps[i]
                    == Attach::Join(held[id])
        }),
    decreases calls.len(),
{
    let (before, held, issued) = attached_in_turn(slots, count, calls.drop_last());
    let (steps, after, _) = attached_in_turn(slots, count, calls);
    lemma_one_step_each(slots, count, calls.drop_last());
    let last = calls.len() - 1;
    if first < last {
        assert forall|i: int| 0 <= i < first implies (#[trigger] calls.drop_last()[i]).0 != id by {
            assert(calls[i].0 != id);
        }
        assert forall|i: int|
            first < i < last && (#[trigger] calls.drop_last()[i]).0
                == id implies calls.drop_last()[i].1 by {
            assert(calls[i].1);
        }
        every_caller_waits_for_the_one_fetch(slots, count, calls.drop_last(), id, first);
        assert(steps[first] == before[first]);
        assert(after[id] == held[id]);
        assert forall|i: int| first < i < calls.len() && (#[trigger] calls[i]).0 == id implies steps[i]
            == Attach::Join(after[id]) by {
            if i < last {
                assert(calls.drop_last()[i].0 == id);
                assert(steps[i] == before[i]);
            }
        }
    } else {
        lemma_others_leave_the_slot(slots, count, calls.drop_last(), id);
        assert(calls.last() == calls[first]);
        assert(steps[first] == steps.last());
    }
}

/// There is one step for each call.
proof fn lemma_one_step_each(slots: Map<i64, u64>, count: int, calls: Seq<(i64, bool)>)
    ensures
        attached_in_turn(slots, count, calls).0.len() == calls.len(),
        count <= attached_in_turn(slots, count, calls).2 <= count + calls.len(),
    decreases calls.len(),
{
    if calls.len() > 0 {
        lemma_one_step_each(slots, count, calls.drop_last());
    }
}

/// Calls for other ids leave the slot of an id alone.
proof fn lemma_others_leave_the_slot(
    slots: Map<i64, u64>,
    count: int,
    calls: Seq<(i64, bool)>,
    id: i64,
)
    requires
        forall|i: int| 0 <= i < calls.len() ==> (#[trigger] calls[i]).0 != id,
    ensures
        ({
            let held = attached_in_turn(slots, count, calls).1;
            &&& held.dom().contains(id) == slots.dom().contains(id)
            &&& held.dom().contains(id) ==> held[id] == slots[id]
        }),
    decreases calls.len(),
{
    if calls.len() > 0 {
        assert(calls.last() == calls[calls.len() - 1]);
        assert forall|i: int| 0 <= i < calls.len() - 1 implies (
        #[trigger] calls.drop_last()[i]).0 != id by {
            assert(calls[i].0 != id);
        }
        lemma_others_leave_the_slot(slots, count, calls.drop_last(), id);
    }
}

/// All callers that wait for a fetch get its one end: the value that it brought and that
/// is cached now, that there is none, that the value was of another id, or that the
/// fetcher panicked.
pub proof fn every_caller_gets_the_one_end<T: Cacheable>(
    id: i64,
    cached_type: Seq<char>,
    reply: FetchReply<T>,
    end: Result<Option<Arc<T>>, FetchErrorClone>,
    got: Seq<Result<Option<Arc<T>>, FetchError>>,
    i: int,
)
    requires
        0 <= i < got.len(),
        forall|j: int| 0 <= j < got.len() ==> is_handed_out(end, #[trigger] got[j]),
        match fetched_value(reply, id) {
            None => is_plain_end(id, cached_type, reply, end),
            Some(value) => end == Ok::<Option<Arc<T>>, FetchErrorClone>(Some(Arc::new(value))),
        },
    ensures
        match reply {
            FetchReply::Returned(Ok(Some(value))) => if value.spec_id() == id {
                got[i] == Ok::<Option<Arc<T>>, FetchError>(Some(Arc::new(value)))
            } else {
                got[i] matches Err(FetchError::IdentityMismatch { cached_type: name }) && name@
                    == cached_type
            },
            FetchReply::Returned(Ok(None)) => got[i] == Ok::<Option<Arc<T>>, FetchError>(None),
            FetchReply::Returned(Err(_)) => got[i] is Err,
            FetchReply::Panicked(said) => got[i] matches Err(
                FetchError::FetcherPanic { cached_type: name, message },
            ) && name@ == cached_type && message == said,
        },
{
    assert(is_handed_out(end, got[i]));
}

} // verus!

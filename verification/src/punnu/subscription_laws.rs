//! What holds of a delta subscription across its operations.

use vstd::prelude::*;
use crate::watermark::MonotonicWatermark;
use crate::punnu::delta_refresh::{
    InFlightSlot, SubscriptionView, TickKind, TickStart, UpdateAction, UpdateFullAction,
};

verus! {

/// A full update that is asked for while a delta is in flight runs as soon as
/// that delta has finished, whatever deltas are asked for meanwhile.
pub proof fn full_update_follows_its_delta<W>(s: SubscriptionView<W>, delta: u64)
    requires
        s.slot matches InFlightSlot::Delta { operation_id, pending_full } && operation_id == delta,
    ensures
        ({
            let action = crate::punnu::delta_refresh::full_action(s.slot, s.next_operation);
            let asked = crate::punnu::delta_refresh::full_requested(s);
            let more = crate::punnu::delta_refresh::delta_requested(asked);
            &&& more == asked
            &&& action matches UpdateFullAction::AwaitDeltaThenFull { delta: first, full, start }
                && first == delta && crate::punnu::delta_refresh::slot_finished(
                more.slot,
                TickKind::Delta,
                delta,
            ) == (InFlightSlot::Full { operation_id: full })
        }),
{
}

/// Requests for a full update share one: after a request, the next one waits
/// for the same update and starts none.
pub proof fn full_requests_share_one_update<W>(s: SubscriptionView<W>)
    ensures
        ({
            let first = crate::punnu::delta_refresh::full_action(s.slot, s.next_operation);
            let asked = crate::punnu::delta_refresh::full_requested(s);
            let second = crate::punnu::delta_refresh::full_action(asked.slot, asked.next_operation);
            &&& crate::punnu::delta_refresh::full_requested(asked) == asked
            &&& match (first, second) {
                (
                    UpdateFullAction::AwaitFull { full: a, start: _ },
                    UpdateFullAction::AwaitFull { full: b, start },
                ) => a == b && !start,
                (
                    UpdateFullAction::AwaitDeltaThenFull { delta: d, full: a, start: _ },
                    UpdateFullAction::AwaitDeltaThenFull { delta: e, full: b, start },
                ) => d == e && a == b && !start,
                _ => false,
            }
        }),
{
}

/// Requests for a delta share the update in flight: one is started only where
/// there was none.
pub proof fn delta_starts_only_when_idle<W>(s: SubscriptionView<W>)
    ensures
        crate::punnu::delta_refresh::delta_action(s.slot, s.next_operation) matches UpdateAction::Await {
            kind,
            operation_id,
            start,
        } && start == (s.slot is Empty),
        s.slot !is Empty ==> crate::punnu::delta_refresh::delta_requested(s) == s,
{
}

/// The end of an operation that is no longer in flight changes nothing.
pub proof fn stale_finish_changes_nothing(slot: InFlightSlot, kind: TickKind, operation: u64)
    requires
        match slot {
            InFlightSlot::Empty => true,
            InFlightSlot::Delta { operation_id, pending_full } => operation_id != operation || kind
                == TickKind::Full,
            InFlightSlot::Full { operation_id } => operation_id != operation || kind
                == TickKind::Delta,
        },
    ensures
        crate::punnu::delta_refresh::slot_finished(slot, kind, operation) == slot,
{
}

/// The source position never goes back.
pub proof fn watermark_never_goes_back<W: MonotonicWatermark>(
    s: SubscriptionView<W>,
    start: TickStart,
    reach: Option<W>,
    reported: Set<i64>,
    tombstones: Set<i64>,
    missing: Seq<i64>,
)
    requires
        crate::watermark::positions_are_ordered::<W>(),
    ensures
        ({
            let after = crate::punnu::delta_refresh::tick_succeeded(
                s,
                start,
                reach,
                reported,
                tombstones,
                missing,
            );
            &&& s.watermark matches Some(w) ==> (after.watermark matches Some(v) && w.at_most(v))
            &&& reach matches Some(w) ==> (after.watermark matches Some(v) && w.at_most(v))
            &&& crate::punnu::delta_refresh::tick_failed(s, start).watermark == s.watermark
        }),
{
}

/// A failed tick is undone: the subscription knows the same ids as before it,
/// and only the number of the tick and the attempts at recovery have changed.
pub proof fn failed_tick_is_undone<W>(s: SubscriptionView<W>, kind: TickKind, start: TickStart)
    requires
        s.recovery_enabled,
        start.tick == s.tick,
        start.snapshot@ == crate::punnu::delta_refresh::taken_over(s, kind, s.tick),
    ensures
        ({
            let after = crate::punnu::delta_refresh::tick_failed(
                crate::punnu::delta_refresh::tick_begun(s, kind),
                start,
            );
            &&& after.recovery.dom() == s.recovery.dom()
            &&& after == (SubscriptionView {
                recovery: after.recovery,
                tick: crate::punnu::delta_refresh::after(s.tick),
                ..s
            })
        }),
{
    let after = crate::punnu::delta_refresh::tick_failed(
        crate::punnu::delta_refresh::tick_begun(s, kind),
        start,
    );
    assert(after.recovery.dom() =~= s.recovery.dom());
}

/// After a successful tick every reported id is a member and no deleted id is.
pub proof fn members_follow_the_source(
    members: Set<i64>,
    full_refresh: bool,
    reported: Set<i64>,
    tombstones: Set<i64>,
    recovered: Set<i64>,
    id: i64,
)
    requires
        reported.disjoint(tombstones),
    ensures
        ({
            let after = crate::punnu::delta_refresh::members_after(
                members,
                full_refresh,
                reported,
                tombstones,
                recovered,
            );
            &&& reported.contains(id) ==> after.contains(id)
            &&& tombstones.contains(id) ==> !after.contains(id)
            &&& recovered.contains(id) && !reported.contains(id) ==> !after.contains(id)
            &&& full_refresh ==> after == reported
        }),
{
    if tombstones.contains(id) {
        assert(!reported.contains(id));
    }
}

/// The subscription after `n` successful scheduled deltas.
pub open spec fn after_deltas<W>(s: SubscriptionView<W>, n: nat) -> SubscriptionView<W>
    decreases n,
{
    if n == 0 {
        s
    } else {
        crate::punnu::delta_refresh::scheduled_delta_done(after_deltas(s, (n - 1) as nat))
    }
}

/// With a full update every `full_every` ticks, it is due after exactly
/// `full_every - 1` successful scheduled deltas.
pub proof fn full_update_comes_every_nth_tick<W>(s: SubscriptionView<W>, n: nat)
    requires
        s.full_every > 0,
        s.progress == 0,
    ensures
        after_deltas(s, n).full_every == s.full_every,
        after_deltas(s, n).progress == if n < s.full_every {
            n as int
        } else {
            s.full_every - 1
        },
        crate::punnu::delta_refresh::full_is_due(after_deltas(s, n)) <==> n + 1 >= s.full_every,
    decreases n,
{
    if n > 0 {
        full_update_comes_every_nth_tick(s, (n - 1) as nat);
    }
}

/// A demand for a full update is met by a full update that began after it, and
/// by no other tick.
pub proof fn demand_is_met_by_a_later_full_update<W>(s: SubscriptionView<W>, observed: u64)
    requires
        s.recovery_enabled,
        s.forced > s.satisfied,
        observed <= s.forced,
    ensures
        crate::punnu::delta_refresh::promotes(s),
        crate::punnu::delta_refresh::promotes(
            crate::punnu::delta_refresh::successful(s, TickKind::Delta, observed),
        ),
        ({
            let after = crate::punnu::delta_refresh::successful(s, TickKind::Full, observed);
            after.forced > after.satisfied <==> observed < s.forced
        }),
{
}

/// A full update that has succeeded starts the count of scheduled ticks anew: with one due
/// every two or more of them, the next scheduled tick is not a full update, and with one due
/// at each of them it is. Demands up to the one that the tick saw are met. No other setting
/// changes.
pub proof fn full_update_starts_the_count_anew<W: MonotonicWatermark>(
    s: SubscriptionView<W>,
    start: TickStart,
    reach: Option<W>,
    reported: Set<i64>,
    tombstones: Set<i64>,
    missing: Seq<i64>,
)
    requires
        start.kind == TickKind::Full,
    ensures
        ({
            let after = crate::punnu::delta_refresh::tick_succeeded(
                s,
                start,
                reach,
                reported,
                tombstones,
                missing,
            );
            &&& s.full_every > 0 ==> after.progress == 0
            &&& s.full_every == 0 ==> after.progress == s.progress
            &&& crate::punnu::delta_refresh::full_is_due(after) <==> s.full_every == 1
            &&& after.satisfied >= s.satisfied && after.satisfied >= start.observed_force_generation
            &&& after.satisfied == s.satisfied || after.satisfied == start.observed_force_generation
            &&& after.full_every == s.full_every
            &&& after.forced == s.forced
            &&& after.slot == s.slot
            &&& after.tick == s.tick
            &&& after.recovery_enabled == s.recovery_enabled
        }),
{
}

/// To note a successful tick is to start the count anew and to meet the demands seen, where
/// the tick was a full update, and to change nothing where it was a delta.
pub proof fn noted_ticks_count<W>(s: SubscriptionView<W>, kind: TickKind, observed: u64)
    ensures
        ({
            let after = crate::punnu::delta_refresh::successful(s, kind, observed);
            &&& kind == TickKind::Full && s.full_every > 0 ==> after.progress == 0
            &&& kind == TickKind::Full ==> after.satisfied >= s.satisfied && after.satisfied
                >= observed && (after.satisfied == s.satisfied || after.satisfied == observed)
            &&& kind == TickKind::Delta ==> after == s
            &&& after == SubscriptionView {
                progress: after.progress,
                satisfied: after.satisfied,
                ..s
            }
            &&& s.full_every == 0 ==> after.progress == s.progress
        }),
{
}

/// A delta that has succeeded neither counts as a full update nor meets a demand for one.
pub proof fn delta_is_no_full_update<W: MonotonicWatermark>(
    s: SubscriptionView<W>,
    start: TickStart,
    reach: Option<W>,
    reported: Set<i64>,
    tombstones: Set<i64>,
    missing: Seq<i64>,
)
    requires
        start.kind == TickKind::Delta,
    ensures
        ({
            let after = crate::punnu::delta_refresh::tick_succeeded(
                s,
                start,
                reach,
                reported,
                tombstones,
                missing,
            );
            &&& after.progress == s.progress
            &&& after.full_every == s.full_every
            &&& after.forced == s.forced
            &&& after.satisfied == s.satisfied
            &&& after.slot == s.slot
            &&& after.tick == s.tick
        }),
{
}

/// The subscription after `n` scheduled ticks that have all succeeded.
pub open spec fn after_ticks<W>(s: SubscriptionView<W>, n: nat) -> SubscriptionView<W>
    decreases n,
{
    if n == 0 {
        s
    } else {
        let before = after_ticks(s, (n - 1) as nat);
        if crate::punnu::delta_refresh::full_is_due(before) {
            crate::punnu::delta_refresh::successful(before, TickKind::Full, before.forced)
        } else {
            crate::punnu::delta_refresh::scheduled_delta_done(
                crate::punnu::delta_refresh::successful(before, TickKind::Delta, 0),
            )
        }
    }
}

/// Of any `full_every` scheduled ticks in a row that succeed, exactly one is a full update.
pub proof fn one_scheduled_tick_of_n_is_full<W>(s: SubscriptionView<W>, n: nat, j: int)
    requires
        s.full_every > 0,
        s.progress < s.full_every,
        0 <= j < s.full_every,
    ensures
        after_ticks(s, n).progress < s.full_every,
        crate::punnu::delta_refresh::full_is_due(after_ticks(s, (n + j) as nat)) <==> j
            == s.full_every - 1 - after_ticks(s, n).progress,
{
    lemma_progress(s, n);
    lemma_progress_on(s, n, j as nat);
}

/// The count stays below the limit.
proof fn lemma_progress<W>(s: SubscriptionView<W>, n: nat)
    requires
        s.full_every > 0,
        s.progress < s.full_every,
    ensures
        after_ticks(s, n).full_every == s.full_every,
        after_ticks(s, n).progress < s.full_every,
        after_ticks(s, n + 1).progress == if after_ticks(s, n).progress + 1 == s.full_every {
            0
        } else {
            after_ticks(s, n).progress + 1
        },
    decreases n,
{
    if n > 0 {
        lemma_progress(s, (n - 1) as nat);
    }
    assert((n + 1 - 1) as nat == n);
}

/// How the count goes on for one round.
proof fn lemma_progress_on<W>(s: SubscriptionView<W>, n: nat, j: nat)
    requires
        s.full_every > 0,
        s.progress < s.full_every,
        j < s.full_every,
    ensures
        after_ticks(s, n + j).full_every == s.full_every,
        after_ticks(s, n + j).progress == if after_ticks(s, n).progress + j < s.full_every {
            after_ticks(s, n).progress + j
        } else {
            after_ticks(s, n).progress + j - s.full_every
        },
    decreases j,
{
    lemma_progress(s, n);
    if j > 0 {
        lemma_progress_on(s, n, (j - 1) as nat);
        lemma_progress(s, (n + j - 1) as nat);
        assert((n + j - 1) as nat + 1 == n + j);
        assert(n + (j - 1) as nat == (n + j - 1) as nat);
    }
}

/// Without a full update every so many ticks, no scheduled tick is one.
pub proof fn no_full_update_without_a_setting<W>(s: SubscriptionView<W>, n: nat)
    requires
        s.full_every == 0,
    ensures
        !crate::punnu::delta_refresh::full_is_due(after_ticks(s, n)),
    decreases n,
{
    lemma_no_setting(s, n);
}

proof fn lemma_no_setting<W>(s: SubscriptionView<W>, n: nat)
    requires
        s.full_every == 0,
    ensures
        after_ticks(s, n).full_every == 0,
    decreases n,
{
    if n > 0 {
        lemma_no_setting(s, (n - 1) as nat);
    }
}

/// A tick that begins takes over every id that it may ask for and no other: a delta those
/// whose pause is over, a full update all of them, and neither any where recovery is off.
/// What it takes is no longer waiting, and what it leaves is.
pub proof fn tick_takes_over_what_is_due<W>(s: SubscriptionView<W>, kind: TickKind, id: i64)
    requires
        s.recovery_enabled,
    ensures
        ({
            let taken = crate::punnu::delta_refresh::taken_over(s, kind, s.tick);
            let begun = crate::punnu::delta_refresh::tick_begun(s, kind);
            let asked = s.recovery.dom().contains(id) && (kind == TickKind::Full
                || s.recovery[id].next_eligible_tick <= s.tick);
            &&& taken.dom().contains(id) <==> asked
            &&& asked ==> taken[id] == s.recovery[id]
            &&& begun.recovery.dom().contains(id) <==> s.recovery.dom().contains(id) && !asked
            &&& begun.recovery.dom().contains(id) ==> begun.recovery[id] == s.recovery[id]
        }),
{
}

/// Where recovery is off, a tick takes nothing over, and a full update that begins settles
/// every demand for one.
pub proof fn tick_without_recovery_takes_nothing<W>(s: SubscriptionView<W>, kind: TickKind)
    requires
        !s.recovery_enabled,
    ensures
        crate::punnu::delta_refresh::taken_over(s, kind, s.tick).dom() == Set::<i64>::empty(),
        ({
            let begun = crate::punnu::delta_refresh::tick_begun(s, kind);
            &&& begun.recovery == s.recovery
            &&& kind == TickKind::Full ==> begun.satisfied == s.forced
            &&& kind == TickKind::Delta ==> begun.satisfied == s.satisfied
        }),
{
    assert(crate::punnu::delta_refresh::taken_over(s, kind, s.tick).dom()
        =~= Set::<i64>::empty());
}

/// A tick that begins changes nothing but its number, what is to be recovered, and the
/// demands that are settled. Ticks are numbered one after the other.
pub proof fn beginning_a_tick_changes_little<W>(s: SubscriptionView<W>, kind: TickKind)
    ensures
        ({
            let begun = crate::punnu::delta_refresh::tick_begun(s, kind);
            &&& s.tick < u64::MAX ==> begun.tick == s.tick + 1
            &&& begun == (SubscriptionView {
                tick: begun.tick,
                recovery: begun.recovery,
                satisfied: begun.satisfied,
                ..s
            })
            &&& s.recovery_enabled ==> begun.satisfied == s.satisfied
        }),
{
}

/// A delta becomes a full update exactly where evicted ids are recovered, and either a
/// demand came after the last full update that met one, or more ids wait than the limit.
pub proof fn promotion_has_two_causes<W>(s: SubscriptionView<W>)
    ensures
        crate::punnu::delta_refresh::promotes(s) <==> s.recovery_enabled && (s.satisfied < s.forced
            || s.recovery_limit < s.recovery.dom().len()),
        !s.recovery_enabled ==> !crate::punnu::delta_refresh::promotes(s),
{
}

/// Where nothing is under way, a request starts what it asks for, under an id of its own,
/// and the end of that leaves nothing under way again.
pub proof fn idle_requests_start_their_update<W>(s: SubscriptionView<W>)
    requires
        s.slot == InFlightSlot::Empty,
        s.next_operation < u64::MAX,
    ensures
        ({
            let op = s.next_operation;
            let full = crate::punnu::delta_refresh::full_requested(s);
            let delta = crate::punnu::delta_refresh::delta_requested(s);
            &&& crate::punnu::delta_refresh::full_action(s.slot, op) == (
            UpdateFullAction::AwaitFull { full: op, start: true })
            &&& crate::punnu::delta_refresh::delta_action(s.slot, op) == (UpdateAction::Await {
                kind: TickKind::Delta,
                operation_id: op,
                start: true,
            })
            &&& full.slot == (InFlightSlot::Full { operation_id: op })
            &&& delta.slot == (InFlightSlot::Delta { operation_id: op, pending_full: None })
            &&& full.next_operation == op + 1 && delta.next_operation == op + 1
            &&& crate::punnu::delta_refresh::slot_finished(full.slot, TickKind::Full, op)
                == InFlightSlot::Empty
            &&& crate::punnu::delta_refresh::slot_finished(delta.slot, TickKind::Delta, op)
                == InFlightSlot::Empty
        }),
{
}

/// While an update is under way, a request for a delta waits for that one. A request for a
/// full update waits for the full update under way, or for the delta and a full update
/// after it.
pub proof fn busy_requests_wait<W>(s: SubscriptionView<W>)
    ensures
        match s.slot {
            InFlightSlot::Empty => true,
            InFlightSlot::Delta { operation_id, pending_full } => {
                &&& crate::punnu::delta_refresh::delta_action(s.slot, s.next_operation) == (
                UpdateAction::Await { kind: TickKind::Delta, operation_id, start: false })
                &&& crate::punnu::delta_refresh::full_action(s.slot, s.next_operation) matches
                    UpdateFullAction::AwaitDeltaThenFull { delta, full, start } && delta
                    == operation_id && (pending_full matches Some(waiting) ==> full == waiting
                    && !start) && (pending_full is None ==> full == s.next_operation && start)
            },
            InFlightSlot::Full { operation_id } => {
                &&& crate::punnu::delta_refresh::delta_action(s.slot, s.next_operation) == (
                UpdateAction::Await { kind: TickKind::Full, operation_id, start: false })
                &&& crate::punnu::delta_refresh::full_action(s.slot, s.next_operation) == (
                UpdateFullAction::AwaitFull { full: operation_id, start: false })
                &&& crate::punnu::delta_refresh::full_requested(s) == s
                &&& crate::punnu::delta_refresh::delta_requested(s) == s
            },
        },
{
}

/// The source position after a tick is the one before it or the one that the delta
/// reaches; where either is known, it is known.
pub proof fn watermark_is_one_of_both<W: MonotonicWatermark>(
    s: SubscriptionView<W>,
    start: TickStart,
    reach: Option<W>,
    reported: Set<i64>,
    tombstones: Set<i64>,
    missing: Seq<i64>,
)
    ensures
        ({
            let after = crate::punnu::delta_refresh::tick_succeeded(
                s,
                start,
                reach,
                reported,
                tombstones,
                missing,
            ).watermark;
            &&& after == s.watermark || after == reach
            &&& reach is Some || s.watermark is Some ==> after is Some
            &&& (reach matches Some(r) && s.watermark matches Some(w) && r.at_most(w)) ==> after
                == s.watermark
            &&& (reach matches Some(r) && s.watermark matches Some(w) && !r.at_most(w)) ==> after
                == reach
        }),
{
}

/// A member that a delta does not mention and that was not asked for again stays one; what
/// was no member and is not reported does not become one.
pub proof fn unmentioned_members_stay(
    members: Set<i64>,
    reported: Set<i64>,
    tombstones: Set<i64>,
    recovered: Set<i64>,
    id: i64,
)
    requires
        !reported.contains(id),
        !tombstones.contains(id),
        !recovered.contains(id),
    ensures
        crate::punnu::delta_refresh::members_after(members, false, reported, tombstones, recovered)
            .contains(id) <==> members.contains(id),
{
}

/// The ids that a delta reports are those of its items that it does not delete.
pub proof fn reported_ids_are_those_of_items<T: crate::cacheable::Cacheable>(
    items: Seq<T>,
    tombstones: Set<i64>,
    i: int,
    id: i64,
)
    requires
        0 <= i < items.len(),
    ensures
        crate::punnu::delta_refresh::reported_ids(items, tombstones).contains(items[i].spec_id())
            <==> !tombstones.contains(items[i].spec_id()),
        crate::punnu::delta_refresh::reported_ids(items, tombstones).contains(id)
            ==> !tombstones.contains(id) && exists|j: int|
            0 <= j < items.len() && (#[trigger] items[j]).spec_id() == id,
{
}

/// A reported id that the pool did not keep is asked for again, at the next tick and
/// without a pause, unless it already waits or too many do.
pub proof fn lost_items_are_asked_for_again<W: MonotonicWatermark>(
    s: SubscriptionView<W>,
    start: TickStart,
    reach: Option<W>,
    reported: Set<i64>,
    tombstones: Set<i64>,
    missing: Seq<i64>,
    id: i64,
)
    requires
        s.recovery.dom().finite(),
        s.recovery.dom().len() + missing.len() <= s.recovery_limit + 1,
    ensures
        ({
            let after = crate::punnu::delta_refresh::tick_succeeded(
                s,
                start,
                reach,
                reported,
                tombstones,
                missing,
            ).recovery;
            &&& after.dom().contains(id) <==> s.recovery.dom().contains(id) || missing.contains(id)
            &&& s.recovery.dom().contains(id) ==> after[id] == s.recovery[id]
            &&& missing.contains(id) && !s.recovery.dom().contains(id) ==> after[id].attempts == 0
                && after[id].next_eligible_tick == 0
        }),
{
    lemma_recorded_all(s.recovery, s.recovery_limit, missing, id);
}

proof fn lemma_recorded_all(
    m: Map<i64, crate::punnu::recovery::RecoveryEntry>,
    limit: usize,
    ids: Seq<i64>,
    id: i64,
)
    requires
        m.dom().finite(),
        m.dom().len() + ids.len() <= limit + 1,
    ensures
        ({
            let after = crate::punnu::recovery::recorded_all(m, limit, ids);
            &&& after.dom().finite()
            &&& after.dom().len() <= m.dom().len() + ids.len()
            &&& after.dom().contains(id) <==> m.dom().contains(id) || ids.contains(id)
            &&& m.dom().contains(id) ==> after[id] == m[id]
            &&& ids.contains(id) && !m.dom().contains(id) ==> after[id].attempts == 0
                && after[id].next_eligible_tick == 0
        }),
    decreases ids.len(),
{
    if ids.len() > 0 {
        let front = ids.drop_last();
        lemma_recorded_all(m, limit, front, id);
        assert(ids.contains(id) == (front.contains(id) || id == ids.last())) by {
            if front.contains(id) {
                let i = front.index_of(id);
                assert(ids[i] == id);
            }
            if id == ids.last() {
                assert(ids[ids.len() - 1] == id);
            }
            if ids.contains(id) && id != ids.last() {
                let i = ids.index_of(id);
                assert(front[i] == id);
            }
        }
    }
}

/// Asking whether a delta has to become a full update changes nothing but what is noticed:
/// where that depends on how many ids wait, it is noticed whether there are too many.
pub proof fn promotion_check_only_notices<W>(s: SubscriptionView<W>)
    ensures
        ({
            let after = crate::punnu::delta_refresh::after_promotion_check(s);
            &&& after == (SubscriptionView { recovery_warned: after.recovery_warned, ..s })
            &&& s.recovery_enabled && s.forced <= s.satisfied ==> after.recovery_warned == (
            s.recovery_limit < s.recovery.dom().len())
            &&& !s.recovery_enabled || s.satisfied < s.forced ==> after.recovery_warned
                == s.recovery_warned
        }),
{
}

} // verus!

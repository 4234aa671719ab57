//! Delta subscriptions: source progress, recovery of evicted entries, and
//! which update is in flight.

use vstd::prelude::*;
use crate::cacheable::Cacheable;
use crate::error::FetchError;
use crate::ids::some_order;
use crate::punnu::delta::{copy_watermark, DeltaApplyStats, DeltaResult, KeepNewer};
use crate::punnu::events::{EventReason, PunnuEvent};
use crate::punnu::pool::Punnu;
use crate::punnu::recovery::{RecoveryEntry, RecoverySet, RecoverySnapshot};
use crate::punnu::write::Committed;
use crate::time::Instant;
use crate::watermark::{DeltaSyncCacheable, MonotonicWatermark};
use std::collections::HashSet;

verus! {

broadcast use vstd::std_specs::hash::group_hash_axioms;

/// What a tick asks the source for.
#[non_exhaustive]
pub struct DeltaQuery<W> {
    /// Source position to start at, itself included; `None` asks for all.
    pub since: Option<W>,
    /// Ids to return wherever they are.
    pub recover_ids: HashSet<i64>,
}

/// What an update came to.
#[derive(Debug, Clone, PartialEq, Eq)]
pub struct UpdateResult<W> {
    /// Fetched items that the pool holds now.
    pub applied: usize,
    /// Source position after the update.
    pub watermark: Option<W>,
}

/// What a tick asks for.
#[derive(Debug, Clone, Copy, PartialEq, Eq, Structural)]
pub enum TickKind {
    /// What changed since the last position.
    Delta,
    /// Everything.
    Full,
}

/// The updates under way, by operation id.
#[derive(Debug, Clone, Copy, PartialEq, Eq, Structural)]
pub enum InFlightSlot {
    /// None.
    Empty,
    /// A delta, and perhaps a full update that waits for it.
    Delta {
        /// The delta.
        operation_id: u64,
        /// The full update that runs next.
        pending_full: Option<u64>,
    },
    /// A full update.
    Full {
        /// The full update.
        operation_id: u64,
    },
}

/// What a request for a full update has to wait for.
#[derive(Debug, Clone, Copy, PartialEq, Eq, Structural)]
pub enum UpdateFullAction {
    /// The full update; it is started now where `start` says so.
    AwaitFull {
        /// The full update.
        full: u64,
        /// Whether it is new.
        start: bool,
    },
    /// The delta, then the full update, which is chained to the delta where
    /// `start` says so.
    AwaitDeltaThenFull {
        /// The delta.
        delta: u64,
        /// The full update.
        full: u64,
        /// Whether the full update is new.
        start: bool,
    },
}

/// What a request for an update has to wait for.
#[derive(Debug, Clone, Copy, PartialEq, Eq, Structural)]
pub enum UpdateAction {
    /// The update in flight, or a delta that is started now.
    Await {
        /// What the update asks for.
        kind: TickKind,
        /// The update.
        operation_id: u64,
        /// Whether it is new.
        start: bool,
    },
    /// A full update instead of a delta.
    Promoted(UpdateFullAction),
}

/// The slot after a request for a delta, given the next operation id.
pub open spec fn slot_for_delta(slot: InFlightSlot, next: u64) -> InFlightSlot {
    match slot {
        InFlightSlot::Empty => InFlightSlot::Delta { operation_id: next, pending_full: None },
        busy => busy,
    }
}

/// The slot after a request for a full update, given the next operation id.
pub open spec fn slot_for_full(slot: InFlightSlot, next: u64) -> InFlightSlot {
    match slot {
        InFlightSlot::Empty => InFlightSlot::Full { operation_id: next },
        InFlightSlot::Delta { operation_id, pending_full: None } => InFlightSlot::Delta {
            operation_id,
            pending_full: Some(next),
        },
        busy => busy,
    }
}

/// Whether a request for a full update starts one.
pub open spec fn full_starts(slot: InFlightSlot) -> bool {
    match slot {
        InFlightSlot::Empty => true,
        InFlightSlot::Delta { operation_id, pending_full } => pending_full is None,
        InFlightSlot::Full { operation_id } => false,
    }
}

/// What a request for a full update has to wait for.
pub open spec fn full_action(slot: InFlightSlot, next: u64) -> UpdateFullAction {
    match slot {
        InFlightSlot::Empty => UpdateFullAction::AwaitFull { full: next, start: true },
        InFlightSlot::Full { operation_id } => UpdateFullAction::AwaitFull {
            full: operation_id,
            start: false,
        },
        InFlightSlot::Delta { operation_id, pending_full } => match pending_full {
            Some(full) => UpdateFullAction::AwaitDeltaThenFull {
                delta: operation_id,
                full,
                start: false,
            },
            None => UpdateFullAction::AwaitDeltaThenFull {
                delta: operation_id,
                full: next,
                start: true,
            },
        },
    }
}

/// What a request for a delta has to wait for.
pub open spec fn delta_action(slot: InFlightSlot, next: u64) -> UpdateAction {
    match slot {
        InFlightSlot::Empty => UpdateAction::Await {
            kind: TickKind::Delta,
            operation_id: next,
            start: true,
        },
        InFlightSlot::Delta { operation_id, pending_full } => UpdateAction::Await {
            kind: TickKind::Delta,
            operation_id,
            start: false,
        },
        InFlightSlot::Full { operation_id } => UpdateAction::Await {
            kind: TickKind::Full,
            operation_id,
            start: false,
        },
    }
}

/// The slot after the operation has finished.
pub open spec fn slot_finished(slot: InFlightSlot, kind: TickKind, operation: u64) -> InFlightSlot {
    match (slot, kind) {
        (InFlightSlot::Delta { operation_id, pending_full }, TickKind::Delta) => if operation_id
            == operation {
            match pending_full {
                Some(full) => InFlightSlot::Full { operation_id: full },
                None => InFlightSlot::Empty,
            }
        } else {
            slot
        },
        (InFlightSlot::Full { operation_id }, TickKind::Full) => if operation_id == operation {
            InFlightSlot::Empty
        } else {
            slot
        },
        _ => slot,
    }
}

/// A number after `n`, starting over past the last.
pub open spec fn after(n: u64) -> u64 {
    if n == u64::MAX {
        0
    } else {
        (n + 1) as u64
    }
}

/// What a subscription knows.
pub struct SubscriptionView<W> {
    /// Source position.
    pub watermark: Option<W>,
    /// Ids that the source has reported and not deleted.
    pub membership: Set<i64>,
    /// Ids to ask for again.
    pub recovery: Map<i64, RecoveryEntry>,
    /// How many ids are asked for again before a full update is due.
    pub recovery_limit: usize,
    /// Whether the overflow of ids to ask for was noticed.
    pub recovery_warned: bool,
    /// Whether evicted ids are asked for again.
    pub recovery_enabled: bool,
    /// How often something demanded a full update.
    pub forced: u64,
    /// The last demand that a full update has met.
    pub satisfied: u64,
    /// Whether an eviction was warned about.
    pub lru_warned: bool,
    /// Every how many scheduled ticks a full update is due; 0 means never.
    pub full_every: usize,
    /// Scheduled ticks since the last full update.
    pub progress: usize,
    /// Number of the next tick.
    pub tick: u64,
    /// The updates under way.
    pub slot: InFlightSlot,
    /// Id of the next operation.
    pub next_operation: u64,
}

/// Ids that a delta reports, deletes and recovers.
pub struct MembershipUpdate {
    /// Whether the delta reports everything.
    pub full_refresh: bool,
    /// Ids of the items that are not deleted.
    pub item_ids: HashSet<i64>,
    /// Ids that the source has deleted.
    pub tombstones: HashSet<i64>,
    /// Ids that were asked for again.
    pub recovered_ids: HashSet<i64>,
}

/// The ids of the items that are not deleted.
pub open spec fn reported_ids<T: Cacheable>(items: Seq<T>, tombstones: Set<i64>) -> Set<i64> {
    Set::new(
        |id: i64|
            !tombstones.contains(id) && exists|i: int|
                0 <= i < items.len() && (#[trigger] items[i]).spec_id() == id,
    )
}

/// The members after the delta's own ids were noted.
pub open spec fn primed(members: Set<i64>, items: Set<i64>, tombstones: Set<i64>) -> Set<i64> {
    members.difference(tombstones).union(items)
}

/// The members after a delta.
pub open spec fn members_after(
    members: Set<i64>,
    full_refresh: bool,
    items: Set<i64>,
    tombstones: Set<i64>,
    recovered: Set<i64>,
) -> Set<i64> {
    if full_refresh {
        items
    } else {
        primed(members.difference(recovered), items, tombstones)
    }
}

/// A delta subscription.
pub struct RefreshSubscription<W> {
    last_watermark: Option<W>,
    membership: HashSet<i64>,
    recovery: RecoverySet,
    eviction_recovery_enabled: bool,
    force_full_generation: u64,
    satisfied_force_full_generation: u64,
    lru_warning_issued: bool,
    periodic_full_every: usize,
    periodic_full_progress: usize,
    recovery_tick: u64,
    slot: InFlightSlot,
    next_operation_id: u64,
}

/// A tick that waits for its delta.
pub struct TickStart {
    /// What the tick asks for.
    pub kind: TickKind,
    /// Number of the tick.
    pub tick: u64,
    /// The last demand for a full update when the tick began.
    pub observed_force_generation: u64,
    /// Ids that the tick has taken over.
    pub snapshot: RecoverySnapshot,
    /// The same ids as a set.
    pub recovered_ids: HashSet<i64>,
}

impl TickStart {
    /// The two records of the taken ids agree.
    pub open spec fn wf(&self) -> bool {
        self.recovered_ids@ == self.snapshot@.dom()
    }
}

impl<W> View for RefreshSubscription<W> {
    type V = SubscriptionView<W>;

    closed spec fn view(&self) -> SubscriptionView<W> {
        SubscriptionView {
            watermark: self.last_watermark,
            membership: self.membership@,
            recovery: self.recovery@,
            recovery_limit: self.recovery.limit(),
            recovery_warned: self.recovery.warned(),
            recovery_enabled: self.eviction_recovery_enabled,
            forced: self.force_full_generation,
            satisfied: self.satisfied_force_full_generation,
            lru_warned: self.lru_warning_issued,
            full_every: self.periodic_full_every,
            progress: self.periodic_full_progress,
            tick: self.recovery_tick,
            slot: self.slot,
            next_operation: self.next_operation_id,
        }
    }
}

/// Whether a delta has to become a full update.
pub open spec fn promotes<W>(s: SubscriptionView<W>) -> bool {
    s.recovery_enabled && (s.forced > s.satisfied || s.recovery.dom().len() > s.recovery_limit)
}

/// The subscription after it was asked whether a delta has to become a full
/// update: it notices an overflow, or its end.
pub open spec fn after_promotion_check<W>(s: SubscriptionView<W>) -> SubscriptionView<W> {
    if s.recovery_enabled && s.forced <= s.satisfied {
        SubscriptionView {
            recovery_warned: s.recovery.dom().len() > s.recovery_limit,
            ..s
        }
    } else {
        s
    }
}

/// Whether the next scheduled tick is a full update.
pub open spec fn full_is_due<W>(s: SubscriptionView<W>) -> bool {
    s.full_every != 0 && s.progress + 1 >= s.full_every
}

/// The subscription after a request for a full update.
pub open spec fn full_requested<W>(s: SubscriptionView<W>) -> SubscriptionView<W> {
    SubscriptionView {
        slot: slot_for_full(s.slot, s.next_operation),
        next_operation: if full_starts(s.slot) {
            after(s.next_operation)
        } else {
            s.next_operation
        },
        ..s
    }
}

/// The subscription after a request for a delta.
pub open spec fn delta_requested<W>(s: SubscriptionView<W>) -> SubscriptionView<W> {
    SubscriptionView {
        slot: slot_for_delta(s.slot, s.next_operation),
        next_operation: if s.slot is Empty {
            after(s.next_operation)
        } else {
            s.next_operation
        },
        ..s
    }
}

impl<W: MonotonicWatermark> RefreshSubscription<W> {
    /// Makes a subscription of a pool of `lru_size` entries.
    pub fn new(lru_size: usize) -> (r: Self)
        ensures
            r@ == (SubscriptionView::<W> {
                watermark: None,
                membership: Set::empty(),
                recovery: Map::empty(),
                recovery_limit: lru_size,
                recovery_warned: false,
                recovery_enabled: false,
                forced: 0,
                satisfied: 0,
                lru_warned: false,
                full_every: 0,
                progress: 0,
                tick: 1,
                slot: InFlightSlot::Empty,
                next_operation: 1,
            }),
    {
        RefreshSubscription {
            last_watermark: None,
            membership: HashSet::new(),
            recovery: RecoverySet::new(lru_size),
            eviction_recovery_enabled: false,
            force_full_generation: 0,
            satisfied_force_full_generation: 0,
            lru_warning_issued: false,
            periodic_full_every: 0,
            periodic_full_progress: 0,
            recovery_tick: 1,
            slot: InFlightSlot::Empty,
            next_operation_id: 1,
        }
    }

    /// Switches the recovery of evicted ids. Switching it off forgets what was
    /// to be recovered and every demand for a full update.
    pub fn with_eviction_recovery(&mut self, enabled: bool)
        ensures
            final(self)@ == (if enabled {
                SubscriptionView { recovery_enabled: true, ..old(self)@ }
            } else {
                SubscriptionView {
                    recovery_enabled: false,
                    recovery: Map::empty(),
                    recovery_warned: false,
                    satisfied: old(self)@.forced,
                    ..old(self)@
                }
            }),
    {
        self.eviction_recovery_enabled = enabled;
        if !enabled {
            self.recovery.clear();
            self.satisfied_force_full_generation = self.force_full_generation;
        }
    }

    /// Makes every `every_n_ticks`-th successful scheduled tick a full update;
    /// `None` makes none.
    pub fn with_periodic_full_refresh(&mut self, every_n_ticks: Option<usize>)
        requires
            every_n_ticks matches Some(n) ==> n > 0,
        ensures
            final(self)@ == (SubscriptionView {
                full_every: match every_n_ticks {
                    Some(n) => n,
                    None => 0,
                },
                progress: 0,
                ..old(self)@
            }),
    {
        self.periodic_full_every = match every_n_ticks {
            Some(n) => n,
            None => 0,
        };
        self.periodic_full_progress = 0;
    }

    /// Tells whether there are too many ids to recover and that was not noticed yet. A
    /// request for a delta that looks at the ids notices it.
    pub fn overflow_warning_due(&self) -> (r: bool)
        ensures
            r == (self@.recovery.dom().len() > self@.recovery_limit && !self@.recovery_warned),
    {
        self.recovery.overflow_warning_due()
    }

    /// Counts the ids that are to be recovered, none where that is off.
    pub fn pending_eviction_recovery_count(&self) -> (r: usize)
        ensures
            r == if self@.recovery_enabled {
                self@.recovery.dom().len()
            } else {
                0
            },
    {
        if !self.eviction_recovery_enabled {
            return 0;
        }
        self.recovery.len()
    }

    /// Reads how many of the ticks between two full updates have passed, and
    /// how many there are; `None` where no full update is scheduled.
    pub fn periodic_full_refresh_progress(&self) -> (r: Option<(usize, usize)>)
        ensures
            r == if self@.full_every == 0 {
                None::<(usize, usize)>
            } else {
                Some(
                    (
                        if self@.progress < self@.full_every {
                            self@.progress
                        } else {
                            (self@.full_every - 1) as usize
                        },
                        self@.full_every,
                    ),
                )
            },
    {
        let every: usize = self.periodic_full_every;
        if every == 0 {
            return None;
        }
        let progress: usize = if self.periodic_full_progress < every {
            self.periodic_full_progress
        } else {
            every - 1
        };
        Some((progress, every))
    }

    /// Reads the source position.
    pub fn watermark(&self) -> (r: Option<W>)
        ensures
            r == self@.watermark,
    {
        copy_watermark(&self.last_watermark)
    }

    /// Gives out the next operation id.
    fn next_operation_id(&mut self) -> (r: u64)
        ensures
            r == old(self)@.next_operation,
            final(self)@ == (SubscriptionView {
                next_operation: after(old(self)@.next_operation),
                ..old(self)@
            }),
    {
        let id: u64 = self.next_operation_id;
        self.next_operation_id = id.wrapping_add(1);
        id
    }

    /// Asks for a full update. A delta in flight comes first; requests that
    /// come meanwhile share one full update.
    pub fn update_full(&mut self) -> (r: UpdateFullAction)
        ensures
            r == full_action(old(self)@.slot, old(self)@.next_operation),
            final(self)@ == full_requested(old(self)@),
    {
        match self.slot {
            InFlightSlot::Empty => {
                let operation_id: u64 = self.next_operation_id();
                self.slot = InFlightSlot::Full { operation_id };
                UpdateFullAction::AwaitFull { full: operation_id, start: true }
            },
            InFlightSlot::Full { operation_id } => UpdateFullAction::AwaitFull {
                full: operation_id,
                start: false,
            },
            InFlightSlot::Delta { operation_id, pending_full } => match pending_full {
                Some(full) => UpdateFullAction::AwaitDeltaThenFull {
                    delta: operation_id,
                    full,
                    start: false,
                },
                None => {
                    let full: u64 = self.next_operation_id();
                    self.slot = InFlightSlot::Delta { operation_id, pending_full: Some(full) };
                    UpdateFullAction::AwaitDeltaThenFull { delta: operation_id, full, start: true }
                },
            },
        }
    }

    /// Joins the update in flight, or starts a delta.
    pub fn shared_for_delta(&mut self) -> (r: (TickKind, u64, bool))
        ensures
            final(self)@ == delta_requested(old(self)@),
            delta_action(old(self)@.slot, old(self)@.next_operation) == (UpdateAction::Await {
                kind: r.0,
                operation_id: r.1,
                start: r.2,
            }),
    {
        match self.slot {
            InFlightSlot::Empty => {
                let operation_id: u64 = self.next_operation_id();
                self.slot = InFlightSlot::Delta { operation_id, pending_full: None };
                (TickKind::Delta, operation_id, true)
            },
            InFlightSlot::Delta { operation_id, pending_full: _ } => (
                TickKind::Delta,
                operation_id,
                false,
            ),
            InFlightSlot::Full { operation_id } => (TickKind::Full, operation_id, false),
        }
    }

    /// Tells whether a delta has to become a full update: where evicted ids
    /// are recovered and a demand is unmet or there are too many ids.
    pub fn delta_should_promote_to_full(&mut self) -> (r: bool)
        ensures
            r == promotes(old(self)@),
            final(self)@ == after_promotion_check(old(self)@),
    {
        if !self.eviction_recovery_enabled {
            return false;
        }
        if self.force_full_generation > self.satisfied_force_full_generation {
            return true;
        }
        self.recovery.is_overflowing()
    }

    /// Asks for an update: a delta, or a full update where one is due.
    pub fn update_with_kind(&mut self) -> (r: UpdateAction)
        ensures
            ({
                let s = after_promotion_check(old(self)@);
                if promotes(old(self)@) {
                    &&& r == UpdateAction::Promoted(full_action(s.slot, s.next_operation))
                    &&& final(self)@ == full_requested(s)
                } else {
                    &&& r == delta_action(s.slot, s.next_operation)
                    &&& final(self)@ == delta_requested(s)
                }
            }),
    {
        if self.delta_should_promote_to_full() {
            return UpdateAction::Promoted(self.update_full());
        }
        let (kind, operation_id, start) = self.shared_for_delta();
        UpdateAction::Await { kind, operation_id, start }
    }

    /// Asks for the update of a scheduled tick.
    pub fn run_periodic_tick(&mut self) -> (r: UpdateAction)
        ensures
            ({
                let s = if full_is_due(old(self)@) {
                    old(self)@
                } else {
                    after_promotion_check(old(self)@)
                };
                if full_is_due(old(self)@) || promotes(old(self)@) {
                    &&& r == UpdateAction::Promoted(full_action(s.slot, s.next_operation))
                    &&& final(self)@ == full_requested(s)
                } else {
                    &&& r == delta_action(s.slot, s.next_operation)
                    &&& final(self)@ == delta_requested(s)
                }
            }),
    {
        if self.next_periodic_tick_is_full() {
            return UpdateAction::Promoted(self.update_full());
        }
        self.update_with_kind()
    }

    /// Notes that an operation has finished. An operation that is not the one
    /// in flight changes nothing.
    pub fn finish_tick(&mut self, kind: TickKind, operation_id: u64)
        ensures
            final(self)@ == (SubscriptionView {
                slot: slot_finished(old(self)@.slot, kind, operation_id),
                ..old(self)@
            }),
    {
        match (self.slot, kind) {
            (InFlightSlot::Delta { operation_id: current_id, pending_full }, TickKind::Delta) => {
                if current_id == operation_id {
                    self.slot = match pending_full {
                        Some(full) => InFlightSlot::Full { operation_id: full },
                        None => InFlightSlot::Empty,
                    };
                }
            },
            (InFlightSlot::Full { operation_id: current_id }, TickKind::Full) => {
                if current_id == operation_id {
                    self.slot = InFlightSlot::Empty;
                }
            },
            _ => {},
        }
    }

    /// Tells whether the next scheduled tick is a full update.
    pub fn next_periodic_tick_is_full(&self) -> (r: bool)
        ensures
            r == full_is_due(self@),
    {
        let every: usize = self.periodic_full_every;
        every != 0 && self.periodic_full_progress.saturating_add(1) >= every
    }

    /// Notes that a tick has succeeded. A full update meets the demands that
    /// it saw when it began, and starts the count of scheduled ticks anew.
    pub fn note_successful_tick(&mut self, kind: TickKind, observed_force_generation: u64)
        ensures
            final(self)@ == successful(old(self)@, kind, observed_force_generation),
    {
        if kind == TickKind::Full {
            if self.satisfied_force_full_generation < observed_force_generation {
                self.satisfied_force_full_generation = observed_force_generation;
            }
            if self.periodic_full_every != 0 {
                self.periodic_full_progress = 0;
            }
        }
    }

    /// Counts a scheduled delta that has succeeded.
    pub fn note_successful_scheduled_delta_tick(&mut self)
        ensures
            final(self)@ == scheduled_delta_done(old(self)@),
    {
        let every: usize = self.periodic_full_every;
        if every == 0 {
            return;
        }
        let next: usize = self.periodic_full_progress.saturating_add(1);
        self.periodic_full_progress = if next < every {
            next
        } else {
            every - 1
        };
    }

    /// Notes that an entry was evicted, and tells whether that has to be warned
    /// about. An id that the source has reported is taken up for recovery.
    pub fn note_lru_eviction(&mut self, id: i64) -> (r: bool)
        ensures
            r == !old(self)@.lru_warned,
            final(self)@ == (SubscriptionView {
                lru_warned: true,
                recovery: if old(self)@.membership.contains(id) {
                    crate::punnu::recovery::recorded(
                        old(self)@.recovery,
                        old(self)@.recovery_limit,
                        id,
                    )
                } else {
                    old(self)@.recovery
                },
                ..old(self)@
            }),
    {
        let warn = !self.lru_warning_issued;
        self.lru_warning_issued = true;
        if self.membership.contains(&id) {
            self.recovery.record_eviction(id);
        }
        warn
    }

    /// Notes that events were missed: a full update is demanded.
    pub fn note_event_lag(&mut self)
        ensures
            final(self)@ == (SubscriptionView {
                forced: after(old(self)@.forced),
                ..old(self)@
            }),
    {
        self.force_full_generation = self.force_full_generation.wrapping_add(1);
    }

    /// Notes an event of the pool, and tells whether an eviction has to be
    /// warned about. Only evictions matter.
    pub fn note_event<T: Cacheable>(&mut self, event: &PunnuEvent<T>) -> (r: bool)
        ensures
            match *event {
                PunnuEvent::Invalidate { id, reason } => if reason is LruEvict {
                    &&& r == !old(self)@.lru_warned
                    &&& final(self)@ == (SubscriptionView {
                        lru_warned: true,
                        recovery: if old(self)@.membership.contains(id) {
                            crate::punnu::recovery::recorded(
                                old(self)@.recovery,
                                old(self)@.recovery_limit,
                                id,
                            )
                        } else {
                            old(self)@.recovery
                        },
                        ..old(self)@
                    })
                } else {
                    !r && final(self)@ == old(self)@
                },
                _ => !r && final(self)@ == old(self)@,
            },
    {
        match event {
            PunnuEvent::Invalidate { id, reason } => match reason {
                EventReason::LruEvict(_) => self.note_lru_eviction(*id),
                _ => false,
            },
            _ => false,
        }
    }

    /// Takes over the ids that a tick asks for again, and lists those that its
    /// query names. A full update takes over all of them and names none.
    pub fn prepare_recovery_query(&mut self, kind: TickKind, current_tick: u64) -> (r: (
        RecoverySnapshot,
        HashSet<i64>,
    ))
        ensures
            final(self)@ == recovery_taken(old(self)@, kind, current_tick),
            r.0@ == taken_over(old(self)@, kind, current_tick),
            r.1@ == if kind == TickKind::Delta {
                r.0@.dom()
            } else {
                Set::empty()
            },
    {
        if !self.eviction_recovery_enabled {
            if kind == TickKind::Full {
                self.satisfied_force_full_generation = self.force_full_generation;
            }
            let snapshot = RecoverySnapshot::empty();
            assert(Map::<i64, RecoveryEntry>::empty().dom() =~= Set::<i64>::empty());
            return (snapshot, HashSet::new());
        }
        match kind {
            TickKind::Delta => {
                let snapshot = self.recovery.snapshot_eligible(current_tick);
                let recover_ids = snapshot.ids();
                (snapshot, recover_ids)
            },
            TickKind::Full => (self.recovery.snapshot_all(), HashSet::new()),
        }
    }

    /// Moves the source position forward to `next_watermark`, never back; a position that
    /// ties with the current one changes nothing.
    pub fn advance_watermark(&mut self, next_watermark: Option<W>) -> (r: Option<W>)
        ensures
            r == crate::punnu::delta::max_watermark(next_watermark, old(self)@.watermark),
            final(self)@ == (SubscriptionView { watermark: r, ..old(self)@ }),
    {
        if let Some(next) = next_watermark {
            let later = match &self.last_watermark {
                Some(current) => !next.is_at_most(current),
                None => true,
            };
            if later {
                self.last_watermark = Some(next);
            }
        }
        copy_watermark(&self.last_watermark)
    }
}

/// What a tick came to.
#[verifier::reject_recursive_types(T)]
pub struct TickOutcome<T: DeltaSyncCacheable> {
    /// What the callers get.
    pub result: Result<UpdateResult<T::Watermark>, FetchError>,
    /// What the pool published, where the delta was fetched.
    pub committed: Option<Committed<T, DeltaApplyStats>>,
}

/// The subscription after a tick began.
pub open spec fn tick_begun<W>(s: SubscriptionView<W>, kind: TickKind) -> SubscriptionView<W> {
    recovery_taken(SubscriptionView { tick: after(s.tick), ..s }, kind, s.tick)
}

/// The subscription after a tick failed.
pub open spec fn tick_failed<W>(s: SubscriptionView<W>, start: TickStart) -> SubscriptionView<W> {
    SubscriptionView {
        recovery: crate::punnu::recovery::restored(s.recovery, start.snapshot@, start.tick),
        ..s
    }
}

/// The subscription after a tick succeeded: `missing` are the reported ids that
/// the pool did not keep.
pub open spec fn tick_succeeded<W: MonotonicWatermark>(
    s: SubscriptionView<W>,
    start: TickStart,
    reach: Option<W>,
    reported: Set<i64>,
    tombstones: Set<i64>,
    missing: Seq<i64>,
) -> SubscriptionView<W> {
    SubscriptionView {
        watermark: crate::punnu::delta::max_watermark(reach, s.watermark),
        membership: members_after(
            s.membership,
            start.kind == TickKind::Full,
            reported,
            tombstones,
            start.recovered_ids@,
        ),
        recovery: crate::punnu::recovery::recorded_all(s.recovery, s.recovery_limit, missing),
        ..successful(s, start.kind, start.observed_force_generation)
    }
}

impl<W: MonotonicWatermark> RefreshSubscription<W> {
    /// Begins a tick, and says what to ask the source for.
    pub fn begin_tick(&mut self, kind: TickKind) -> (r: (TickStart, DeltaQuery<W>))
        ensures
            final(self)@ == tick_begun(old(self)@, kind),
            r.0.wf(),
            r.0.kind == kind,
            r.0.tick == old(self)@.tick,
            r.0.observed_force_generation == if kind == TickKind::Full {
                old(self)@.forced
            } else {
                0
            },
            r.0.snapshot@ == taken_over(old(self)@, kind, old(self)@.tick),
            r.1.since == if kind == TickKind::Delta {
                old(self)@.watermark
            } else {
                None
            },
            r.1.recover_ids@ == if kind == TickKind::Delta {
                r.0.snapshot@.dom()
            } else {
                Set::empty()
            },
    {
        let current_tick: u64 = self.recovery_tick;
        self.recovery_tick = current_tick.wrapping_add(1);
        let observed_force_generation: u64 = match kind {
            TickKind::Full => self.force_full_generation,
            TickKind::Delta => 0,
        };
        let (snapshot, recover_ids) = self.prepare_recovery_query(kind, current_tick);
        let recovered_ids = snapshot.ids();
        let since = match kind {
            TickKind::Delta => copy_watermark(&self.last_watermark),
            TickKind::Full => None,
        };
        (
            TickStart { kind, tick: current_tick, observed_force_generation, snapshot, recovered_ids },
            DeltaQuery { since, recover_ids },
        )
    }

    /// Ends a tick that failed or was given up: the ids that it had taken over are handed
    /// back and nothing else changes.
    pub fn abandon_tick(&mut self, start: TickStart)
        requires
            start.wf(),
        ensures
            final(self)@ == tick_failed(old(self)@, start),
    {
        self.recovery.restore_after_failed(start.snapshot, start.tick);
    }

    /// Ends a tick with what was fetched. Where the fetch failed, the ids that
    /// the tick had taken over are handed back and nothing else changes. Where
    /// it succeeded, the pool takes the delta and the subscription moves on.
    pub fn complete_tick<T: DeltaSyncCacheable<Watermark = W>>(
        &mut self,
        pool: &mut Punnu<T>,
        start: TickStart,
        fetched: Result<DeltaResult<T, W>, FetchError>,
        now: Instant,
    ) -> (r: TickOutcome<T>)
        requires
            old(pool).wf(),
            start.wf(),
        ensures
            final(pool).wf(),
            match fetched {
                Err(e) => {
                    &&& r.result == Err::<UpdateResult<W>, FetchError>(e)
                    &&& r.committed is None
                    &&& *final(pool) == *old(pool)
                    &&& final(self)@ == tick_failed(old(self)@, start)
                },
                Ok(delta) => {
                    let reported = reported_ids(delta.items@, delta.tombstones@);
                    &&& r.committed matches Some(committed) && {
                        &&& Punnu::delta_effect(
                            old(pool),
                            final(pool),
                            (DeltaResult::<T, ()> {
                                items: delta.items,
                                tombstones: delta.tombstones,
                                high_watermark: None,
                            }),
                            (KeepNewer { recovered_ids: &start.recovered_ids }),
                            now,
                            committed,
                        )
                        &&& r.result == Ok::<UpdateResult<W>, FetchError>(
                            UpdateResult {
                                applied: committed.result.applied_items,
                                watermark: final(self)@.watermark,
                            },
                        )
                    }
                    &&& exists|order: Seq<i64>|
                        crate::ids::lists(order, reported)
                            && final(self)@ == #[trigger] tick_succeeded(
                            old(self)@,
                            start,
                            delta.reach(),
                            reported,
                            delta.tombstones@,
                            crate::punnu::model::missing_ids(final(pool).entries(), order, now),
                        )
                },
            },
    {
        let delta = match fetched {
            Ok(delta) => delta,
            Err(err) => {
                self.abandon_tick(start);
                return TickOutcome { result: Err(err), committed: None };
            },
        };
        let ghost items = delta.items@;
        let ghost reported = reported_ids(items, delta.tombstones@);
        let update = MembershipUpdate::from_delta(start.kind, &delta, &start.recovered_ids);
        self.prime_membership_for_observed_items(&update);
        let next_watermark = delta.observed_watermark();
        let committed = pool.apply_delta_recovering(
            delta.without_high_watermark(),
            &start.recovered_ids,
            now,
        );
        let order = some_order(&update.item_ids);
        self.queue_missing_observed_items(pool, &order, now);
        let watermark = self.advance_watermark(next_watermark);
        self.note_successful_tick(start.kind, start.observed_force_generation);
        self.apply_membership_update(update);
        self.recovery.note_success(start.snapshot);
        assert(self@.membership =~= members_after(
            old(self)@.membership,
            start.kind == TickKind::Full,
            reported,
            delta.tombstones@,
            start.recovered_ids@,
        ));
        assert(crate::ids::lists(order@, reported));
        assert(self@ == tick_succeeded(
            old(self)@,
            start,
            delta.reach(),
            reported,
            delta.tombstones@,
            crate::punnu::model::missing_ids(pool.entries(), order@, now),
        ));
        let applied: usize = committed.result.applied_items;
        TickOutcome {
            result: Ok(UpdateResult { applied, watermark }),
            committed: Some(committed),
        }
    }

    /// Notes the ids that a delta reports and deletes.
    fn prime_membership_for_observed_items(&mut self, update: &MembershipUpdate)
        ensures
            final(self)@ == (SubscriptionView {
                membership: primed(
                    old(self)@.membership,
                    update.item_ids@,
                    update.tombstones@,
                ),
                ..old(self)@
            }),
    {
        remove_members(&mut self.membership, &update.tombstones);
        add_members(&mut self.membership, &update.item_ids);
    }

    /// Takes up the reported ids that the pool did not keep.
    fn queue_missing_observed_items<T: DeltaSyncCacheable>(
        &mut self,
        pool: &Punnu<T>,
        order: &Vec<i64>,
        now: Instant,
    )
        requires
            pool.wf(),
            order@.no_duplicates(),
        ensures
            final(self)@ == (SubscriptionView {
                recovery: crate::punnu::recovery::recorded_all(
                    old(self)@.recovery,
                    old(self)@.recovery_limit,
                    crate::punnu::model::missing_ids(pool.entries(), order@, now),
                ),
                ..old(self)@
            }),
    {
        let mut i: usize = 0;
        let ghost m = pool.entries();
        while i < order.len()
            invariant
                i <= order@.len(),
                pool.wf(),
                m == pool.entries(),
                order@.no_duplicates(),
                self@ == (SubscriptionView {
                    recovery: crate::punnu::recovery::recorded_all(
                        old(self)@.recovery,
                        old(self)@.recovery_limit,
                        crate::punnu::model::missing_ids(m, order@.take(i as int), now),
                    ),
                    ..old(self)@
                }),
            decreases order@.len() - i,
        {
            let id = order[i];
            let ghost before = crate::punnu::model::missing_ids(m, order@.take(i as int), now);
            proof {
                assert(order@.take(i + 1).drop_last() =~= order@.take(i as int));
                crate::punnu::laws::missing_ids_are_those_not_live(
                    m,
                    order@.take(i as int),
                    now,
                    id,
                );
                assert(!order@.take(i as int).contains(id));
                assert(before.push(id).drop_last() =~= before);
            }
            if !pool.contains_unexpired(&id, now) {
                self.recovery.record_eviction(id);
            }
            i += 1;
        }
        assert(order@.take(i as int) =~= order@);
    }

    /// Brings the members up to date after a delta.
    fn apply_membership_update(&mut self, update: MembershipUpdate)
        ensures
            final(self)@ == (SubscriptionView {
                membership: members_after(
                    old(self)@.membership,
                    update.full_refresh,
                    update.item_ids@,
                    update.tombstones@,
                    update.recovered_ids@,
                ),
                ..old(self)@
            }),
    {
        if update.full_refresh {
            self.membership = update.item_ids;
        } else {
            remove_members(&mut self.membership, &update.recovered_ids);
            remove_members(&mut self.membership, &update.tombstones);
            add_members(&mut self.membership, &update.item_ids);
        }
    }
}

impl MembershipUpdate {
    /// Collects the ids that a delta reports, deletes and recovers.
    pub fn from_delta<T: DeltaSyncCacheable>(
        kind: TickKind,
        delta: &DeltaResult<T, T::Watermark>,
        recovered_ids: &HashSet<i64>,
    ) -> (r: Self)
        ensures
            r.full_refresh == (kind == TickKind::Full),
            r.item_ids@ == reported_ids(delta.items@, delta.tombstones@),
            r.tombstones@ == delta.tombstones@,
            r.recovered_ids@ == recovered_ids@,
    {
        let mut item_ids: HashSet<i64> = HashSet::new();
        let mut i: usize = 0;
        let ghost items = delta.items@;
        while i < delta.items.len()
            invariant
                i <= items.len(),
                items == delta.items@,
                forall|id: i64| #[trigger]
                    item_ids@.contains(id) <==> !delta.tombstones@.contains(id) && exists|j: int|
                        0 <= j < i && (#[trigger] items[j]).spec_id() == id,
            decreases items.len() - i,
        {
            let id = delta.items[i].id();
            let ghost before = item_ids@;
            if !delta.tombstones.contains(&id) {
                let _new = item_ids.insert(id);
            }
            assert forall|k: i64| #[trigger] item_ids@.contains(k) <==> !delta.tombstones@.contains(
                k,
            ) && exists|j: int| 0 <= j < i + 1 && (#[trigger] items[j]).spec_id() == k by {
                assert(before.contains(k) == before.contains(k));
                if k == id {
                    assert(items[i as int].spec_id() == k);
                }
            }
            i += 1;
        }
        assert(item_ids@ =~= reported_ids(items, delta.tombstones@));
        let tombstones = copy_members(&delta.tombstones);
        let recovered_ids = copy_members(recovered_ids);
        MembershipUpdate {
            full_refresh: kind == TickKind::Full,
            item_ids,
            tombstones,
            recovered_ids,
        }
    }
}

/// The members of a list's first `i + 1` items.
proof fn lemma_take_members(list: Seq<i64>, i: int)
    requires
        0 <= i < list.len(),
    ensures
        forall|k: i64| #[trigger]
            list.take(i + 1).contains(k) <==> list.take(i).contains(k) || k == list[i],
{
    let before = list.take(i);
    let after = list.take(i + 1);
    assert forall|k: i64| #[trigger] after.contains(k) <==> before.contains(k) || k == list[i] by {
        if before.contains(k) {
            let j = before.index_of(k);
            assert(after[j] == k);
        }
        if k == list[i] {
            assert(after[i] == k);
        }
        if after.contains(k) && k != list[i] {
            let j = after.index_of(k);
            assert(before[j] == k);
        }
    }
}

/// Adds every member of `more` to `set`.
fn add_members(set: &mut HashSet<i64>, more: &HashSet<i64>)
    ensures
        final(set)@ == old(set)@.union(more@),
{
    let order = some_order(more);
    let mut i: usize = 0;
    while i < order.len()
        invariant
            i <= order@.len(),
            forall|k: i64| #[trigger]
                set@.contains(k) <==> old(set)@.contains(k) || order@.take(i as int).contains(k),
        decreases order@.len() - i,
    {
        proof {
            lemma_take_members(order@, i as int);
        }
        let ghost before = set@;
        let _new = set.insert(order[i]);
        i += 1;
        assert forall|k: i64| #[trigger] set@.contains(k) <==> old(set)@.contains(k) || order@.take(
            i as int,
        ).contains(k) by {
            assert(before.contains(k) == before.contains(k));
        }
    }
    assert(order@.take(i as int) =~= order@);
    assert forall|k: i64| order@.contains(k) == more@.contains(k) by {
        assert(order@.to_set().contains(k) == order@.contains(k));
    }
    assert(set@ =~= old(set)@.union(more@));
}

/// Removes every member of `less` from `set`.
fn remove_members(set: &mut HashSet<i64>, less: &HashSet<i64>)
    ensures
        final(set)@ == old(set)@.difference(less@),
{
    let order = some_order(less);
    let mut i: usize = 0;
    while i < order.len()
        invariant
            i <= order@.len(),
            forall|k: i64| #[trigger]
                set@.contains(k) <==> old(set)@.contains(k) && !order@.take(i as int).contains(k),
        decreases order@.len() - i,
    {
        proof {
            lemma_take_members(order@, i as int);
        }
        let ghost before = set@;
        let _gone = set.remove(&order[i]);
        i += 1;
        assert forall|k: i64| #[trigger] set@.contains(k) <==> old(set)@.contains(k)
            && !order@.take(i as int).contains(k) by {
            assert(before.contains(k) == before.contains(k));
        }
    }
    assert(order@.take(i as int) =~= order@);
    assert forall|k: i64| order@.contains(k) == less@.contains(k) by {
        assert(order@.to_set().contains(k) == order@.contains(k));
    }
    assert(set@ =~= old(set)@.difference(less@));
}

/// Copies a set.
fn copy_members(set: &HashSet<i64>) -> (r: HashSet<i64>)
    ensures
        r@ == set@,
{
    let mut r: HashSet<i64> = HashSet::new();
    add_members(&mut r, set);
    assert(r@ =~= set@);
    r
}

/// The subscription after a successful tick.
pub open spec fn successful<W>(s: SubscriptionView<W>, kind: TickKind, observed: u64) -> SubscriptionView<W> {
    if kind == TickKind::Full {
        SubscriptionView {
            satisfied: if s.satisfied < observed {
                observed
            } else {
                s.satisfied
            },
            progress: if s.full_every != 0 {
                0
            } else {
                s.progress
            },
            ..s
        }
    } else {
        s
    }
}

/// The subscription after a successful scheduled delta.
pub open spec fn scheduled_delta_done<W>(s: SubscriptionView<W>) -> SubscriptionView<W> {
    if s.full_every == 0 {
        s
    } else {
        SubscriptionView {
            progress: if s.progress + 1 < s.full_every {
                (s.progress + 1) as usize
            } else {
                (s.full_every - 1) as usize
            },
            ..s
        }
    }
}

/// The ids that a tick takes over.
pub open spec fn taken_over<W>(s: SubscriptionView<W>, kind: TickKind, tick: u64) -> Map<
    i64,
    RecoveryEntry,
> {
    if !s.recovery_enabled {
        Map::empty()
    } else if kind == TickKind::Delta {
        crate::punnu::recovery::eligible(s.recovery, tick)
    } else {
        s.recovery
    }
}

/// The subscription after a tick took ids over.
pub open spec fn recovery_taken<W>(s: SubscriptionView<W>, kind: TickKind, tick: u64) -> SubscriptionView<W> {
    if !s.recovery_enabled {
        if kind == TickKind::Full {
            SubscriptionView { satisfied: s.forced, ..s }
        } else {
            s
        }
    } else if kind == TickKind::Delta {
        SubscriptionView { recovery: crate::punnu::recovery::waiting(s.recovery, tick), ..s }
    } else {
        SubscriptionView { recovery: Map::empty(), ..s }
    }
}

} // verus!

//! Ids that a delta subscription has lost to eviction and asks for again.

use vstd::prelude::*;
use crate::ids::some_key_order;
use std::collections::{HashMap, HashSet};

verus! {

broadcast use vstd::std_specs::hash::group_hash_axioms;

/// How often an id was asked for in vain, and when it is asked for next.
#[derive(Debug, Clone, Copy, PartialEq, Eq, Structural)]
pub struct RecoveryEntry {
    /// Failed attempts so far.
    pub attempts: u8,
    /// First tick that asks for the id again.
    pub next_eligible_tick: u64,
}

/// The ids to ask for again.
pub struct RecoverySet {
    entries: HashMap<i64, RecoveryEntry>,
    max_entries: usize,
    overflow_warned: bool,
}

/// Ids that a tick has taken over. The tick hands them back when it fails.
pub struct RecoverySnapshot {
    entries: HashMap<i64, RecoveryEntry>,
}

/// An id that was just lost.
pub open spec fn fresh_entry() -> RecoveryEntry {
    RecoveryEntry { attempts: 0, next_eligible_tick: 0 }
}

/// The pause after `attempts` failures, in ticks: it doubles up to 64.
pub open spec fn backoff(attempts: u8) -> nat {
    let exponent: nat = if attempts < 6 {
        attempts as nat
    } else {
        6
    };
    vstd::arithmetic::power2::pow2(exponent)
}

/// The entry after one more failure at `tick`.
pub open spec fn failed_entry(entry: RecoveryEntry, tick: u64) -> RecoveryEntry {
    RecoveryEntry {
        attempts: if entry.attempts < u8::MAX {
            (entry.attempts + 1) as u8
        } else {
            u8::MAX
        },
        next_eligible_tick: if tick + backoff(entry.attempts) <= u64::MAX {
            (tick + backoff(entry.attempts)) as u64
        } else {
            u64::MAX
        },
    }
}

/// The ids after losing `id`: it is taken up unless the set is already past
/// its limit. What is known of an id stays.
pub open spec fn recorded(
    m: Map<i64, RecoveryEntry>,
    max_entries: usize,
    id: i64,
) -> Map<i64, RecoveryEntry> {
    if m.dom().contains(id) || m.dom().len() > max_entries {
        m
    } else {
        m.insert(id, fresh_entry())
    }
}

/// The ids after losing `ids` in order.
pub open spec fn recorded_all(
    m: Map<i64, RecoveryEntry>,
    max_entries: usize,
    ids: Seq<i64>,
) -> Map<i64, RecoveryEntry>
    decreases ids.len(),
{
    if ids.len() == 0 {
        m
    } else {
        recorded(recorded_all(m, max_entries, ids.drop_last()), max_entries, ids.last())
    }
}

/// The ids that `tick` may ask for.
pub open spec fn eligible(m: Map<i64, RecoveryEntry>, tick: u64) -> Map<i64, RecoveryEntry> {
    m.restrict(Set::new(|id: i64| m[id].next_eligible_tick <= tick))
}

/// The ids that `tick` may not ask for yet.
pub open spec fn waiting(m: Map<i64, RecoveryEntry>, tick: u64) -> Map<i64, RecoveryEntry> {
    m.remove_keys(eligible(m, tick).dom())
}

/// The ids after a tick has failed and handed `taken` back. An id that was
/// lost again meanwhile keeps its new entry.
pub open spec fn restored(
    m: Map<i64, RecoveryEntry>,
    taken: Map<i64, RecoveryEntry>,
    tick: u64,
) -> Map<i64, RecoveryEntry> {
    taken.map_values(|entry: RecoveryEntry| failed_entry(entry, tick)).union_prefer_right(m)
}

impl View for RecoverySet {
    type V = Map<i64, RecoveryEntry>;

    closed spec fn view(&self) -> Map<i64, RecoveryEntry> {
        self.entries@
    }
}

impl View for RecoverySnapshot {
    type V = Map<i64, RecoveryEntry>;

    closed spec fn view(&self) -> Map<i64, RecoveryEntry> {
        self.entries@
    }
}

impl RecoverySet {
    /// How many ids the set takes before it counts as overflowing.
    pub closed spec fn limit(&self) -> usize {
        self.max_entries
    }

    /// Whether the current overflow was warned about.
    pub closed spec fn warned(&self) -> bool {
        self.overflow_warned
    }

    /// Makes an empty set.
    pub fn new(max_entries: usize) -> (r: Self)
        ensures
            r@ == Map::<i64, RecoveryEntry>::empty(),
            r.limit() == max_entries,
            !r.warned(),
    {
        RecoverySet { entries: HashMap::new(), max_entries, overflow_warned: false }
    }

    /// Counts the ids.
    pub fn len(&self) -> (r: usize)
        ensures
            r == self@.dom().len(),
    {
        self.entries.len()
    }

    /// Reads what is known of `id`.
    pub fn get(&self, id: &i64) -> (r: Option<RecoveryEntry>)
        ensures
            r == if self@.dom().contains(*id) {
                Some(self@[*id])
            } else {
                None
            },
    {
        match self.entries.get(id) {
            Some(entry) => Some(*entry),
            None => None,
        }
    }

    /// Forgets every id.
    pub fn clear(&mut self)
        ensures
            final(self)@ == Map::<i64, RecoveryEntry>::empty(),
            final(self).limit() == old(self).limit(),
            !final(self).warned(),
    {
        self.entries.clear();
        self.overflow_warned = false;
    }

    /// Takes up an id that was lost.
    pub fn record_eviction(&mut self, id: i64)
        ensures
            final(self)@ == recorded(old(self)@, old(self).limit(), id),
            final(self).limit() == old(self).limit(),
            final(self).warned() == old(self).warned(),
    {
        if !self.entries.contains_key(&id) {
            if self.entries.len() > self.max_entries {
                return;
            }
            let _none = self.entries.insert(
                id,
                RecoveryEntry { attempts: 0, next_eligible_tick: 0 },
            );
        }
    }

    /// Tells whether an overflow has to be warned about: that is once per
    /// overflow, before it is noticed by `is_overflowing`.
    pub fn overflow_warning_due(&self) -> (r: bool)
        ensures
            r == (self@.dom().len() > self.limit() && !self.warned()),
    {
        self.entries.len() > self.max_entries && !self.overflow_warned
    }

    /// Tells whether there are more ids than the limit, and notices it.
    pub fn is_overflowing(&mut self) -> (r: bool)
        ensures
            final(self)@ == old(self)@,
            final(self).limit() == old(self).limit(),
            r == (old(self)@.dom().len() > old(self).limit()),
            final(self).warned() == r,
    {
        let overflowing = self.entries.len() > self.max_entries;
        self.overflow_warned = overflowing;
        overflowing
    }

    /// Hands the ids over that `current_tick` may ask for.
    pub fn snapshot_eligible(&mut self, current_tick: u64) -> (r: RecoverySnapshot)
        ensures
            r@ == eligible(old(self)@, current_tick),
            final(self)@ == waiting(old(self)@, current_tick),
            final(self).limit() == old(self).limit(),
            final(self).warned() == old(self).warned(),
    {
        let ghost m = self@;
        let ids = some_key_order(&self.entries);
        let mut snapshot: HashMap<i64, RecoveryEntry> = HashMap::new();
        let mut i: usize = 0;
        while i < ids.len()
            invariant
                i <= ids@.len(),
                self.max_entries == old(self).max_entries,
                self.overflow_warned == old(self).overflow_warned,
                m == old(self)@,
                crate::ids::lists(ids@, m.dom()),
                forall|id: i64| #[trigger]
                    snapshot@.dom().contains(id) <==> ids@.take(i as int).contains(id)
                        && m[id].next_eligible_tick <= current_tick,
                forall|id: i64| #[trigger] snapshot@.dom().contains(id) ==> snapshot@[id] == m[id],
                forall|id: i64| #[trigger]
                    self.entries@.dom().contains(id) <==> m.dom().contains(id)
                        && !snapshot@.dom().contains(id),
                forall|id: i64| #[trigger]
                    self.entries@.dom().contains(id) ==> self.entries@[id] == m[id],
            decreases ids@.len() - i,
        {
            let id = ids[i];
            let ghost before = ids@.take(i as int);
            let ghost after = ids@.take(i + 1);
            proof {
                assert(ids@.to_set().contains(id));
                assert(!before.contains(id));
                assert forall|k: i64| after.contains(k) == (before.contains(k) || k == id) by {
                    if before.contains(k) {
                        let j = before.index_of(k);
                        assert(after[j] == k);
                    }
                    if k == id {
                        assert(after[i as int] == k);
                    }
                    if after.contains(k) && k != id {
                        let j = after.index_of(k);
                        assert(before[j] == k);
                    }
                }
                assert(self.entries@.dom().contains(id));
            }
            let entry = match self.entries.get(&id) {
                Some(entry) => *entry,
                None => RecoveryEntry { attempts: 0, next_eligible_tick: u64::MAX },
            };
            if entry.next_eligible_tick <= current_tick {
                let _taken = self.entries.remove(&id);
                let _none = snapshot.insert(id, entry);
            }
            i += 1;
        }
        assert(ids@.take(i as int) =~= ids@);
        assert(snapshot@ =~= eligible(m, current_tick)) by {
            assert forall|id: i64| m.dom().contains(id) implies ids@.contains(id) by {
                assert(ids@.to_set().contains(id));
            }
            assert forall|id: i64| ids@.contains(id) implies m.dom().contains(id) by {
                assert(ids@.to_set().contains(id));
            }
        }
        assert(self.entries@ =~= waiting(m, current_tick));
        RecoverySnapshot { entries: snapshot }
    }

    /// Hands every id over.
    pub fn snapshot_all(&mut self) -> (r: RecoverySnapshot)
        ensures
            r@ == old(self)@,
            final(self)@ == Map::<i64, RecoveryEntry>::empty(),
            final(self).limit() == old(self).limit(),
            final(self).warned() == old(self).warned(),
    {
        let mut entries: HashMap<i64, RecoveryEntry> = HashMap::new();
        core::mem::swap(&mut self.entries, &mut entries);
        RecoverySnapshot { entries }
    }

    /// Forgets what a successful tick had taken over.
    pub fn note_success(&mut self, snapshot: RecoverySnapshot)
        ensures
            final(self)@ == old(self)@,
            final(self).limit() == old(self).limit(),
            final(self).warned() == old(self).warned(),
    {
        let _forgotten = snapshot;
    }

    /// Takes back what a failed tick had taken over. The ids wait longer with
    /// each failure.
    pub fn restore_after_failed(&mut self, snapshot: RecoverySnapshot, current_tick: u64)
        ensures
            final(self)@ == restored(old(self)@, snapshot@, current_tick),
            final(self).limit() == old(self).limit(),
            final(self).warned() == old(self).warned(),
    {
        let ghost m = self@;
        let ghost taken = snapshot@;
        let ids = some_key_order(&snapshot.entries);
        let mut i: usize = 0;
        while i < ids.len()
            invariant
                i <= ids@.len(),
                self.max_entries == old(self).max_entries,
                self.overflow_warned == old(self).overflow_warned,
                m == old(self)@,
                taken == snapshot@,
                crate::ids::lists(ids@, taken.dom()),
                forall|id: i64| #[trigger]
                    self.entries@.dom().contains(id) <==> m.dom().contains(id) || ids@.take(
                        i as int,
                    ).contains(id),
                forall|id: i64| #[trigger]
                    self.entries@.dom().contains(id) ==> self.entries@[id] == if m.dom().contains(
                        id,
                    ) {
                        m[id]
                    } else {
                        failed_entry(taken[id], current_tick)
                    },
            decreases ids@.len() - i,
        {
            let id = ids[i];
            let ghost before = ids@.take(i as int);
            let ghost after = ids@.take(i + 1);
            proof {
                assert(ids@.to_set().contains(id));
                assert forall|k: i64| after.contains(k) == (before.contains(k) || k == id) by {
                    if before.contains(k) {
                        let j = before.index_of(k);
                        assert(after[j] == k);
                    }
                    if k == id {
                        assert(after[i as int] == k);
                    }
                    if after.contains(k) && k != id {
                        let j = after.index_of(k);
                        assert(before[j] == k);
                    }
                }
            }
            match snapshot.entries.get(&id) {
                Some(entry) => {
                    let failed = after_failure(*entry, current_tick);
                    if !self.entries.contains_key(&id) {
                        let _none = self.entries.insert(id, failed);
                    }
                },
                None => {},
            }
            i += 1;
        }
        assert(ids@.take(i as int) =~= ids@);
        assert(self.entries@ =~= restored(m, taken, current_tick)) by {
            assert forall|id: i64| taken.dom().contains(id) implies ids@.contains(id) by {
                assert(ids@.to_set().contains(id));
            }
            assert forall|id: i64| ids@.contains(id) implies taken.dom().contains(id) by {
                assert(ids@.to_set().contains(id));
            }
        }
    }
}

impl RecoverySnapshot {
    /// Makes a snapshot of nothing.
    pub fn empty() -> (r: Self)
        ensures
            r@ == Map::<i64, RecoveryEntry>::empty(),
    {
        RecoverySnapshot { entries: HashMap::new() }
    }

    /// Reads what was known of `id`.
    pub fn get(&self, id: &i64) -> (r: Option<RecoveryEntry>)
        ensures
            r == if self@.dom().contains(*id) {
                Some(self@[*id])
            } else {
                None
            },
    {
        match self.entries.get(id) {
            Some(entry) => Some(*entry),
            None => None,
        }
    }

    /// Collects the ids.
    pub fn ids(&self) -> (r: HashSet<i64>)
        ensures
            r@ == self@.dom(),
    {
        let order = some_key_order(&self.entries);
        let mut r: HashSet<i64> = HashSet::new();
        let mut i: usize = 0;
        while i < order.len()
            invariant
                i <= order@.len(),
                forall|id: i64| #[trigger]
                    r@.contains(id) <==> order@.take(i as int).contains(id),
            decreases order@.len() - i,
        {
            let ghost before = order@.take(i as int);
            let ghost after = order@.take(i + 1);
            let id = order[i];
            proof {
                assert forall|k: i64| after.contains(k) == (before.contains(k) || k == id) by {
                    if before.contains(k) {
                        let j = before.index_of(k);
                        assert(after[j] == k);
                    }
                    if k == id {
                        assert(after[i as int] == k);
                    }
                    if after.contains(k) && k != id {
                        let j = after.index_of(k);
                        assert(before[j] == k);
                    }
                }
            }
            let _new = r.insert(id);
            i += 1;
        }
        assert(order@.take(i as int) =~= order@);
        assert(r@ =~= self@.dom()) by {
            assert forall|id: i64| r@.contains(id) == self@.dom().contains(id) by {
                assert(order@.to_set().contains(id) == order@.contains(id));
            }
        }
        r
    }
}

/// Computes the entry after one more failure.
fn after_failure(entry: RecoveryEntry, current_tick: u64) -> (r: RecoveryEntry)
    ensures
        r == failed_entry(entry, current_tick),
{
    proof {
        vstd::arithmetic::power2::lemma2_to64();
    }
    let delay: u64 = match entry.attempts {
        0 => 1,
        1 => 2,
        2 => 4,
        3 => 8,
        4 => 16,
        5 => 32,
        _ => 64,
    };
    let attempts: u8 = entry.attempts.saturating_add(1);
    let next_eligible_tick: u64 = current_tick.saturating_add(delay);
    RecoveryEntry { attempts, next_eligible_tick }
}

/// The pause after a failure never exceeds 64 ticks, is never shorter than the
/// one before, and is at least one tick.
pub proof fn backoff_is_capped(attempts: u8)
    ensures
        1 <= backoff(attempts) <= 64,
        attempts < u8::MAX ==> backoff(attempts) <= backoff((attempts + 1) as u8),
{
    vstd::arithmetic::power2::lemma2_to64();
}

/// Losing one id takes the set at most one past its limit.
pub proof fn recording_keeps_one_overflow_sentinel(
    m: Map<i64, RecoveryEntry>,
    max_entries: usize,
    id: i64,
)
    requires
        m.dom().finite(),
        m.dom().len() <= max_entries + 1,
    ensures
        recorded(m, max_entries, id).dom().len() <= max_entries + 1,
{
}

/// A tick that fails loses no id: each id that was there is there again, with
/// one more attempt where the tick had asked for it.
pub proof fn failed_tick_loses_no_id(m: Map<i64, RecoveryEntry>, tick: u64, id: i64)
    ensures
        ({
            let after = restored(waiting(m, tick), eligible(m, tick), tick);
            &&& after.dom() == m.dom()
            &&& m.dom().contains(id) ==> after[id] == if m[id].next_eligible_tick <= tick {
                failed_entry(m[id], tick)
            } else {
                m[id]
            }
        }),
{
    let after = restored(waiting(m, tick), eligible(m, tick), tick);
    assert(after.dom() =~= m.dom());
}

/// An id that is lost again while a tick is under way keeps its new entry when
/// that tick fails.
pub proof fn newer_eviction_survives_restore(
    m: Map<i64, RecoveryEntry>,
    taken: Map<i64, RecoveryEntry>,
    tick: u64,
    id: i64,
)
    requires
        m.dom().contains(id),
    ensures
        restored(m, taken, tick)[id] == m[id],
{
}

/// An id that was lost waits to be asked for, with no failure behind it and no pause before
/// it, unless it waits already or more ids wait than the limit. No other id is touched.
pub proof fn lost_id_waits_to_be_asked_for(
    m: Map<i64, RecoveryEntry>,
    max_entries: usize,
    id: i64,
    other: i64,
    tick: u64,
)
    requires
        other != id,
    ensures
        ({
            let after = recorded(m, max_entries, id);
            &&& m.dom().contains(id) ==> after == m
            &&& !m.dom().contains(id) && m.dom().len() <= max_entries ==> after.dom().contains(id)
                && after[id].attempts == 0 && eligible(after, tick).dom().contains(id)
            &&& !m.dom().contains(id) && m.dom().len() > max_entries ==> !after.dom().contains(id)
            &&& after.dom().contains(other) == m.dom().contains(other)
            &&& m.dom().contains(other) ==> after[other] == m[other]
        }),
{
}

/// An id that was asked for in vain at a tick is not asked for again before the tick one
/// later, then two, four and so on up to sixty-four later, and is asked for from there on.
pub proof fn each_failure_doubles_the_pause(entry: RecoveryEntry, tick: u64, at: u64)
    requires
        tick + 64 <= u64::MAX,
    ensures
        ({
            let after = failed_entry(entry, tick);
            let pause: int = if entry.attempts == 0 {
                1
            } else if entry.attempts == 1 {
                2
            } else if entry.attempts == 2 {
                4
            } else if entry.attempts == 3 {
                8
            } else if entry.attempts == 4 {
                16
            } else if entry.attempts == 5 {
                32
            } else {
                64
            };
            &&& after.next_eligible_tick <= at <==> tick + pause <= at
            &&& entry.attempts < u8::MAX ==> after.attempts == entry.attempts + 1
            &&& entry.attempts == u8::MAX ==> after.attempts == u8::MAX
        }),
{
    vstd::arithmetic::power2::lemma2_to64();
}

/// The ids that a tick may ask for are those whose pause is over; the others go on waiting.
pub proof fn pauses_decide_who_is_asked_for(m: Map<i64, RecoveryEntry>, tick: u64, id: i64)
    requires
        m.dom().contains(id),
    ensures
        eligible(m, tick).dom().contains(id) <==> m[id].next_eligible_tick <= tick,
        waiting(m, tick).dom().contains(id) <==> tick < m[id].next_eligible_tick,
        eligible(m, tick).dom().contains(id) ==> eligible(m, tick)[id] == m[id],
        waiting(m, tick).dom().contains(id) ==> waiting(m, tick)[id] == m[id],
{
}

/// Ids that are lost one after the other are taken up in turn.
pub proof fn lost_ids_are_taken_up_in_turn(
    m: Map<i64, RecoveryEntry>,
    max_entries: usize,
    ids: Seq<i64>,
    id: i64,
)
    ensures
        recorded_all(m, max_entries, Seq::empty()) == m,
        recorded_all(m, max_entries, ids.push(id)) == recorded(
            recorded_all(m, max_entries, ids),
            max_entries,
            id,
        ),
{
    assert(ids.push(id).drop_last() =~= ids);
}

} // verus!

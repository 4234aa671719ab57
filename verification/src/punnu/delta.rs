//! Payloads of delta writes and what came of them.

use vstd::prelude::*;
use crate::cacheable::Cacheable;
use crate::punnu::state::{Entry, L1State};
use crate::watermark::{DeltaSyncCacheable, MonotonicWatermark};
use std::collections::HashSet;

verus! {

/// Items and deletions that a source reports.
///
/// A tombstone deletes its id from the pool. That an id is absent from `items`
/// deletes nothing.
pub struct DeltaResult<T: Cacheable, W = ()> {
    /// Items to write.
    pub items: Vec<T>,
    /// Ids that the source has deleted.
    pub tombstones: HashSet<i64>,
    /// Source position that the delta reaches, where the source reports one.
    pub high_watermark: Option<W>,
}

impl<T: Cacheable, W> DeltaResult<T, W> {
    /// Makes a delta without a source position.
    pub fn new(items: Vec<T>, tombstones: HashSet<i64>) -> (r: Self)
        ensures
            r.items == items,
            r.tombstones == tombstones,
            r.high_watermark is None,
    {
        DeltaResult { items, tombstones, high_watermark: None }
    }

    /// Makes a delta that reaches `high_watermark`.
    pub fn with_high_watermark(
        items: Vec<T>,
        tombstones: HashSet<i64>,
        high_watermark: W,
    ) -> (r: Self)
        ensures
            r.items == items,
            r.tombstones == tombstones,
            r.high_watermark == Some(high_watermark),
    {
        DeltaResult { items, tombstones, high_watermark: Some(high_watermark) }
    }

    /// Forgets the source position.
    pub fn without_high_watermark(self) -> (r: DeltaResult<T>)
        ensures
            r.items == self.items,
            r.tombstones == self.tombstones,
            r.high_watermark is None,
    {
        DeltaResult { items: self.items, tombstones: self.tombstones, high_watermark: None }
    }
}

/// The highest source position among `items`.
pub open spec fn items_watermark<T: DeltaSyncCacheable>(items: Seq<T>) -> Option<T::Watermark>
    decreases items.len(),
{
    if items.len() == 0 {
        None
    } else {
        max_watermark(items_watermark(items.drop_last()), Some(items.last().spec_watermark()))
    }
}

/// The later of two source positions, where none comes before any; of two that tie, the
/// second.
pub open spec fn max_watermark<W: MonotonicWatermark>(a: Option<W>, b: Option<W>) -> Option<W> {
    match (a, b) {
        (Some(x), Some(y)) => Some(if x.at_most(y) {
            y
        } else {
            x
        }),
        (Some(x), None) => Some(x),
        (None, y) => y,
    }
}

/// Computes the later of two source positions.
pub fn later_watermark<W: MonotonicWatermark>(a: Option<W>, b: Option<W>) -> (r: Option<W>)
    ensures
        r == max_watermark(a, b),
{
    match (a, b) {
        (Some(x), Some(y)) => if x.is_at_most(&y) {
            Some(y)
        } else {
            Some(x)
        },
        (Some(x), None) => Some(x),
        (None, y) => y,
    }
}

/// Makes the same source position again.
pub fn copy_watermark<W: MonotonicWatermark>(watermark: &Option<W>) -> (r: Option<W>)
    ensures
        r == *watermark,
{
    match watermark {
        Some(w) => Some(w.copy()),
        None => None,
    }
}

impl<T: DeltaSyncCacheable> DeltaResult<T, T::Watermark> {
    /// The source position that the delta reaches: the reported one or that of
    /// an item, whichever is later.
    pub open spec fn reach(&self) -> Option<T::Watermark> {
        max_watermark(self.high_watermark, items_watermark(self.items@))
    }

    /// Computes the source position that the delta reaches.
    pub fn observed_watermark(&self) -> (r: Option<T::Watermark>)
        ensures
            r == self.reach(),
    {
        let mut highest: Option<T::Watermark> = None;
        let mut i: usize = 0;
        while i < self.items.len()
            invariant
                i <= self.items@.len(),
                highest == items_watermark(self.items@.subrange(0, i as int)),
            decreases self.items@.len() - i,
        {
            highest = later_watermark(highest, Some(self.items[i].watermark()));
            i += 1;
            assert(self.items@.subrange(0, i as int).drop_last() =~= self.items@.subrange(
                0,
                i - 1,
            ));
        }
        assert(self.items@.subrange(0, i as int) =~= self.items@);
        later_watermark(copy_watermark(&self.high_watermark), highest)
    }

    /// No item of the delta lies past the position that it reaches, nor does
    /// the position that the source reported.
    pub proof fn reach_covers_every_item(&self, i: int)
        requires
            crate::watermark::positions_are_ordered::<T::Watermark>(),
            0 <= i < self.items@.len(),
        ensures
            self.reach() matches Some(w) && self.items@[i].spec_watermark().at_most(w),
            self.high_watermark matches Some(h) ==> h.at_most(self.reach()->Some_0),
    {
        lemma_items_watermark_covers(self.items@, i);
    }
}

/// No item lies past the highest source position.
proof fn lemma_items_watermark_covers<T: DeltaSyncCacheable>(items: Seq<T>, i: int)
    requires
        crate::watermark::positions_are_ordered::<T::Watermark>(),
        0 <= i < items.len(),
    ensures
        items_watermark(items) matches Some(w) && items[i].spec_watermark().at_most(w),
    decreases items.len(),
{
    if i < items.len() - 1 {
        lemma_items_watermark_covers(items.drop_last(), i);
    }
}

/// Decides which items of a delta are passed over.
pub trait DeltaFilter<T: Cacheable> {
    /// Whether the item is passed over, given the entries that it meets.
    spec fn skips(&self, m: Map<i64, Entry<T>>, id: i64, value: T) -> bool;

    /// Tells whether the item is passed over.
    fn skip(&self, state: &L1State<T>, id: i64, value: &T) -> (r: bool)
        requires
            state.wf(),
        ensures
            r == self.skips(state@, id, *value),
    ;
}

/// Passes over nothing.
pub struct AcceptAll {}

impl<T: Cacheable> DeltaFilter<T> for AcceptAll {
    open spec fn skips(&self, m: Map<i64, Entry<T>>, id: i64, value: T) -> bool {
        false
    }

    fn skip(&self, state: &L1State<T>, id: i64, value: &T) -> (r: bool) {
        false
    }
}

/// Passes over the recovered items that are older than what is resident.
pub struct KeepNewer<'a> {
    /// Ids that the delta recovers.
    pub recovered_ids: &'a HashSet<i64>,
}

impl<'a, T: DeltaSyncCacheable> DeltaFilter<T> for KeepNewer<'a> {
    open spec fn skips(&self, m: Map<i64, Entry<T>>, id: i64, value: T) -> bool {
        &&& self.recovered_ids@.contains(id)
        &&& m.dom().contains(id)
        &&& !m[id].value.spec_watermark().at_most(value.spec_watermark())
    }

    fn skip(&self, state: &L1State<T>, id: i64, value: &T) -> (r: bool) {
        broadcast use vstd::std_specs::hash::group_hash_axioms;

        if !self.recovered_ids.contains(&id) {
            return false;
        }
        match state.get(&id) {
            Some(entry) => !entry.value.watermark().is_at_most(&value.watermark()),
            None => false,
        }
    }
}

/// What a delta write did to the pool, counted over what readers can see.
#[non_exhaustive]
#[derive(Debug, Clone, Copy, PartialEq, Eq, Structural)]
pub struct DeltaApplyStats {
    /// Items of the delta that the pool now holds.
    pub applied_items: usize,
    /// Entries that tombstones removed.
    pub tombstones_evicted: usize,
    /// Entries that were visible before and were evicted.
    pub lru_evictions: usize,
}

impl Default for DeltaApplyStats {
    fn default() -> (r: Self)
        ensures
            r.applied_items == 0,
            r.tombstones_evicted == 0,
            r.lru_evictions == 0,
    {
        DeltaApplyStats { applied_items: 0, tombstones_evicted: 0, lru_evictions: 0 }
    }
}

/// How far a delta reaches is what it says itself, or the position of one of its items;
/// without either it reaches nowhere.
pub proof fn reach_is_a_position_of_the_delta<T: DeltaSyncCacheable>(
    delta: DeltaResult<T, T::Watermark>,
)
    ensures
        match delta.reach() {
            Some(w) => delta.high_watermark == Some(w) || exists|i: int|
                0 <= i < delta.items@.len() && (#[trigger] delta.items@[i]).spec_watermark() == w,
            None => delta.high_watermark is None && delta.items@.len() == 0,
        },
{
    lemma_items_watermark_is_one(delta.items@);
}

/// The position of items is that of one of them.
proof fn lemma_items_watermark_is_one<T: DeltaSyncCacheable>(items: Seq<T>)
    ensures
        match items_watermark(items) {
            Some(w) => exists|i: int|
                0 <= i < items.len() && (#[trigger] items[i]).spec_watermark() == w,
            None => items.len() == 0,
        },
    decreases items.len(),
{
    if items.len() > 0 {
        let front = items.drop_last();
        lemma_items_watermark_is_one(front);
        assert(items[items.len() - 1].spec_watermark() == items.last().spec_watermark());
        if let Some(v) = items_watermark(front) {
            let i = choose|i: int|
                0 <= i < front.len() && (#[trigger] front[i]).spec_watermark() == v;
            assert(items[i].spec_watermark() == v);
        }
    }
}

/// The filter that keeps newer values passes over an item exactly where it was recovered and
/// what is resident was written later; the other filter passes over nothing.
pub proof fn filters_pass_over_older_values<T: DeltaSyncCacheable>(
    filter: KeepNewer<'_>,
    all: AcceptAll,
    m: Map<i64, Entry<T>>,
    id: i64,
    value: T,
)
    ensures
        DeltaFilter::<T>::skips(&filter, m, id, value) <==> filter.recovered_ids@.contains(id)
            && m.dom().contains(id) && !m[id].value.spec_watermark().at_most(
            value.spec_watermark(),
        ),
        !DeltaFilter::<T>::skips(&all, m, id, value),
{
}

} // verus!

//! Sampled least-recently-used eviction.

use vstd::prelude::*;
use crate::cacheable::Cacheable;
use crate::punnu::random::index_below;
use crate::punnu::state::{Entry, L1State};

verus! {

/// How many entries a victim is chosen among.
pub const SAMPLE_SIZE: usize = 5;

/// `sample` is a set of resident ids of the sample size, or of all of them
/// where there are no more.
pub open spec fn is_sample<T>(entries: Map<i64, Entry<T>>, sample: Set<i64>) -> bool {
    &&& sample.finite()
    &&& sample.subset_of(entries.dom())
    &&& sample.len() == if entries.dom().len() <= SAMPLE_SIZE {
        entries.dom().len()
    } else {
        SAMPLE_SIZE as nat
    }
}

/// `id` is in `among`, and no entry of `among` was touched earlier.
pub open spec fn is_oldest<T>(entries: Map<i64, Entry<T>>, among: Set<i64>, id: i64) -> bool {
    &&& among.contains(id)
    &&& forall|other: i64| #[trigger]
        among.contains(other) ==> entries[id].last_access_epoch <= entries[other].last_access_epoch
}

/// `id` is the oldest entry of some sample.
pub open spec fn is_sampled_victim<T>(entries: Map<i64, Entry<T>>, id: i64) -> bool {
    exists|sample: Set<i64>| #[trigger]
        is_sample(entries, sample) && is_oldest(entries, sample, id)
}

/// Where the sample covers every entry, the victim is the oldest of all.
pub proof fn small_pools_evict_the_oldest<T>(entries: Map<i64, Entry<T>>, id: i64)
    requires
        entries.dom().finite(),
        entries.dom().len() <= SAMPLE_SIZE,
        is_sampled_victim(entries, id),
    ensures
        is_oldest(entries, entries.dom(), id),
{
    let sample = choose|sample: Set<i64>| #[trigger]
        is_sample(entries, sample) && is_oldest(entries, sample, id);
    vstd::set_lib::lemma_subset_equality(sample, entries.dom());
}

/// Tells whether `items` holds `item`.
fn holds(items: &Vec<usize>, item: usize) -> (r: bool)
    ensures
        r == items@.contains(item),
{
    let mut i: usize = 0;
    while i < items.len()
        invariant
            i <= items@.len(),
            forall|j: int| 0 <= j < i ==> items@[j] != item,
        decreases items@.len() - i,
    {
        if items[i] == item {
            return true;
        }
        i += 1;
    }
    false
}

/// A list that holds every number below `n` has at least `n` items.
proof fn lemma_covering_list_is_long(items: Seq<usize>, n: usize)
    requires
        forall|i: usize| i < n ==> items.contains(i),
    ensures
        items.len() >= n,
    decreases n,
{
    if n > 0 {
        let last = (n - 1) as usize;
        assert(items.contains(last));
        let at = items.index_of(last);
        let rest = items.remove(at);
        assert forall|i: usize| i < last implies rest.contains(i) by {
            assert(items.contains(i));
            let j = items.index_of(i);
            assert(items[j] == i && items[at] == last);
            if j < at {
                assert(rest[j] == i);
            } else {
                assert(rest[j - 1] == i);
            }
        }
        lemma_covering_list_is_long(rest, last);
    }
}

/// Draws `count` different numbers below `n`.
///
/// A number that came up before is drawn again. The draws are counted so that
/// the search ends; in the end the lowest numbers that never came up are taken.
fn draw_indices(n: usize, count: usize, rng: &mut fastrand::Rng) -> (r: Vec<usize>)
    requires
        count <= n,
    ensures
        r@.len() == count,
        r@.no_duplicates(),
        forall|i: int| 0 <= i < count ==> r@[i] < n,
{
    let mut indices: Vec<usize> = Vec::new();
    let mut draws: u64 = u64::MAX;
    while indices.len() < count && draws > 0
        invariant
            indices@.len() <= count <= n,
            indices@.no_duplicates(),
            forall|i: int| 0 <= i < indices@.len() ==> indices@[i] < n,
        decreases draws,
    {
        let index = index_below(rng, n);
        if !holds(&indices, index) {
            indices.push(index);
        }
        draws -= 1;
    }
    let mut next: usize = 0;
    while indices.len() < count && next < n
        invariant
            next <= n,
            indices@.len() <= count <= n,
            indices@.no_duplicates(),
            forall|i: int| 0 <= i < indices@.len() ==> indices@[i] < n,
            forall|k: usize| k < next ==> indices@.contains(k),
        decreases n - next,
    {
        let ghost before = indices@;
        if !holds(&indices, next) {
            indices.push(next);
            assert(indices@[before.len() as int] == next);
            assert forall|k: usize| k < next implies indices@.contains(k) by {
                assert(before.contains(k));
                let j = before.index_of(k);
                assert(indices@[j] == k);
            }
        }
        next += 1;
    }
    proof {
        if indices@.len() < count {
            lemma_covering_list_is_long(indices@, n);
        }
    }
    indices
}

/// Picks, among the entries at the slots `indices`, the first with the lowest
/// access epoch; `None` where `indices` is empty.
pub fn lowest_epoch_among<T: Cacheable>(state: &L1State<T>, indices: &Vec<usize>) -> (r: Option<
    i64,
>)
    requires
        state.wf(),
        forall|i: int| 0 <= i < indices@.len() ==> indices@[i] < state.order().len(),
    ensures
        r is None <==> indices@.len() == 0,
        r matches Some(id) ==> exists|k: int|
            {
                &&& 0 <= k < indices@.len()
                &&& id == state.order()[#[trigger] indices@[k] as int]
                &&& forall|j: int|
                    0 <= j < indices@.len() ==> state@[id].last_access_epoch
                        <= state@[state.order()[#[trigger] indices@[j] as int]].last_access_epoch
                &&& forall|j: int|
                    0 <= j < k ==> state@[id].last_access_epoch
                        < state@[state.order()[#[trigger] indices@[j] as int]].last_access_epoch
            },
{
    let mut victim: Option<i64> = None;
    let mut victim_epoch: u64 = u64::MAX;
    let ghost mut at: int = 0;
    let mut i: usize = 0;
    while i < indices.len()
        invariant
            state.wf(),
            i <= indices@.len(),
            forall|j: int| 0 <= j < indices@.len() ==> indices@[j] < state.order().len(),
            victim is None <==> i == 0,
            victim matches Some(id) ==> {
                &&& 0 <= at < i
                &&& id == state.order()[indices@[at] as int]
                &&& victim_epoch == state@[id].last_access_epoch
                &&& forall|j: int|
                    0 <= j < i ==> victim_epoch
                        <= state@[state.order()[#[trigger] indices@[j] as int]].last_access_epoch
                &&& forall|j: int|
                    0 <= j < at ==> victim_epoch
                        < state@[state.order()[#[trigger] indices@[j] as int]].last_access_epoch
            },
        decreases indices@.len() - i,
    {
        proof {
            state.lemma_contents();
            assert(state.order().to_set().contains(state.order()[indices@[i as int] as int]));
        }
        match state.key_at(indices[i]) {
            Some(id) => {
                match state.get(&id) {
                    Some(entry) => {
                        let epoch: u64 = entry.access_epoch();
                        if victim.is_none() || epoch < victim_epoch {
                            victim = Some(id);
                            victim_epoch = epoch;
                            proof {
                                at = i as int;
                            }
                        }
                    },
                    None => {},
                }
            },
            None => {},
        }
        i += 1;
    }
    assert(victim is Some ==> indices@[at] == indices@[at]);
    victim
}

/// Chooses the id with the lowest access epoch of a random sample; `None` from
/// an empty state.
pub fn choose_sampled_lru_victim<T: Cacheable>(
    state: &L1State<T>,
    rng: &mut fastrand::Rng,
) -> (r: Option<i64>)
    requires
        state.wf(),
    ensures
        r is None <==> state@.dom().len() == 0,
        r matches Some(id) ==> is_sampled_victim(state@, id),
{
    if state.is_empty() {
        proof {
            state.lemma_contents();
        }
        return None;
    }
    let n: usize = state.len();
    let sample_size: usize = if n < SAMPLE_SIZE {
        n
    } else {
        SAMPLE_SIZE
    };
    let indices = draw_indices(n, sample_size, rng);
    let victim = lowest_epoch_among(state, &indices);
    proof {
        state.lemma_contents();
        let order = state.order();
        let ids = Seq::new(indices@.len(), |j: int| order[indices@[j] as int]);
        let sample = ids.to_set();
        assert(ids.no_duplicates());
        ids.unique_seq_to_set();
        assert(sample.subset_of(state@.dom())) by {
            assert forall|id: i64| sample.contains(id) implies state@.dom().contains(id) by {
                let j = choose|j: int| 0 <= j < ids.len() && ids[j] == id;
                assert(order.to_set().contains(order[indices@[j] as int]));
            }
        }
        assert(is_sample(state@, sample));
        if let Some(id) = victim {
            let k = choose|k: int|
                {
                    &&& 0 <= k < indices@.len()
                    &&& id == order[#[trigger] indices@[k] as int]
                    &&& forall|j: int|
                        0 <= j < indices@.len() ==> state@[id].last_access_epoch
                            <= state@[order[#[trigger] indices@[j] as int]].last_access_epoch
                };
            assert(ids[k] == id);
            assert forall|other: i64| #[trigger] sample.contains(other) implies
                state@[id].last_access_epoch
                <= state@[other].last_access_epoch by {
                let j = choose|j: int| 0 <= j < ids.len() && ids[j] == other;
                assert(other == order[indices@[j] as int]);
            }
            assert(is_oldest(state@, sample, id));
        }
    }
    victim
}

/// A victim is an entry than which, among five entries or all where there are fewer, none
/// was touched earlier.
pub proof fn victims_are_the_oldest_of_five<T>(entries: Map<i64, Entry<T>>, id: i64)
    requires
        is_sampled_victim(entries, id),
    ensures
        entries.dom().contains(id),
        exists|sample: Set<i64>|
            {
                &&& #[trigger] sample.contains(id)
                &&& sample.finite()
                &&& sample.subset_of(entries.dom())
                &&& sample.len() == 5 || sample.len() == entries.dom().len()
                &&& forall|other: i64| #[trigger]
                    sample.contains(other) ==> entries[id].last_access_epoch
                        <= entries[other].last_access_epoch
            },
{
    let sample = choose|sample: Set<i64>| #[trigger]
        is_sample(entries, sample) && is_oldest(entries, sample, id);
    assert(sample.contains(id));
}

} // verus!

//! The resident entries of a pool.

use vstd::prelude::*;
use crate::cacheable::Cacheable;
use crate::punnu::snapshot::{
    keys_clone, keys_get, keys_len, keys_new, keys_pop_back, keys_push_back, keys_set,
    positions_clone, positions_get, positions_insert, positions_len, positions_new,
    positions_remove,
};
use crate::time::Instant;
use std::sync::Arc;

verus! {

/// One resident entry.
pub struct Entry<T> {
    /// Shared handle to the cached payload.
    pub value: Arc<T>,
    /// Deadline after which the entry counts as absent; `None` means never.
    pub expires_at: Option<Instant>,
    /// When the entry was last touched, on the pool's access clock.
    pub last_access_epoch: u64,
}

impl<T> Entry<T> {
    /// Whether the entry is expired at `now`.
    pub open spec fn expired(&self, now: Instant) -> bool {
        crate::time::reached(self.expires_at, now)
    }

    /// Makes an entry.
    pub fn new(value: Arc<T>, expires_at: Option<Instant>, epoch: u64) -> (r: Self)
        ensures
            r == (Entry { value, expires_at, last_access_epoch: epoch }),
    {
        Entry { value, expires_at, last_access_epoch: epoch }
    }

    /// Tells whether the entry is expired at `now`.
    pub fn is_expired_at(&self, now: Instant) -> (r: bool)
        ensures
            r == self.expired(now),
    {
        match self.expires_at {
            Some(deadline) => deadline <= now,
            None => false,
        }
    }

    /// Sets the access epoch.
    pub fn bump_access_epoch(&mut self, epoch: u64)
        ensures
            *final(self) == (Entry { last_access_epoch: epoch, ..*old(self) }),
    {
        self.last_access_epoch = epoch;
    }

    /// Reads the access epoch.
    pub fn access_epoch(&self) -> (r: u64)
        ensures
            r == self.last_access_epoch,
    {
        self.last_access_epoch
    }
}

/// The resident entries, each at a dense slot.
///
/// `keys` lists the ids by slot, `entries` holds the entry of each slot, and
/// `positions` finds the slot of an id, so that a random slot can be drawn and
/// any entry removed without a scan.
#[verifier::reject_recursive_types(T)]
pub struct L1State<T: Cacheable> {
    entries: Vec<Arc<Entry<T>>>,
    keys: im::Vector<i64>,
    positions: im::HashMap<i64, usize>,
}

impl<T: Cacheable> View for L1State<T> {
    type V = Map<i64, Entry<T>>;

    /// The entry of each resident id.
    closed spec fn view(&self) -> Map<i64, Entry<T>> {
        Map::new(
            |id: i64| crate::punnu::snapshot::position_map(self.positions).dom().contains(id),
            |id: i64| *self.entries@[crate::punnu::snapshot::position_map(self.positions)[id] as int],
        )
    }
}

impl<T: Cacheable> L1State<T> {
    /// The resident ids in slot order.
    pub closed spec fn order(&self) -> Seq<i64> {
        crate::punnu::snapshot::key_list(self.keys)
    }

    /// Where each id is kept.
    closed spec fn slots(&self) -> Map<i64, usize> {
        crate::punnu::snapshot::position_map(self.positions)
    }

    /// The three collections describe the same set of entries, and each entry
    /// is kept under the identity of its payload.
    pub closed spec fn wf(&self) -> bool {
        &&& self.entries@.len() == self.order().len()
        &&& forall|i: int|
            0 <= i < self.order().len() ==> {
                &&& self.slots().dom().contains(#[trigger] self.order()[i])
                &&& self.slots()[self.order()[i]] == i
                &&& self.entries@[i].value.spec_id() == self.order()[i]
            }
        &&& forall|id: i64| #[trigger]
            self.slots().dom().contains(id) ==> {
                &&& self.slots()[id] < self.order().len()
                &&& self.order()[self.slots()[id] as int] == id
            }
    }

    /// What `wf` says about the contents.
    pub proof fn lemma_contents(&self)
        requires
            self.wf(),
        ensures
            self@.dom().finite(),
            self@.dom().len() == self.order().len(),
            self.order().no_duplicates(),
            self.order().to_set() == self@.dom(),
            forall|id: i64| #[trigger]
                self@.dom().contains(id) ==> self@[id].value.spec_id() == id,
    {
        let o = self.order();
        assert(o.no_duplicates());
        o.unique_seq_to_set();
        assert(o.to_set() =~= self@.dom()) by {
            assert forall|id: i64| self@.dom().contains(id) implies o.contains(id) by {
                assert(o[self.slots()[id] as int] == id);
            }
            assert forall|id: i64| o.contains(id) implies self@.dom().contains(id) by {
                let i = choose|i: int| 0 <= i < o.len() && o[i] == id;
                assert(self.slots().dom().contains(o[i]));
            }
        }
    }

    /// Makes a state with no entries.
    pub fn empty() -> (r: Self)
        ensures
            r.wf(),
            r@ == Map::<i64, Entry<T>>::empty(),
            r.order() == Seq::<i64>::empty(),
    {
        let r = L1State { entries: Vec::new(), keys: keys_new(), positions: positions_new() };
        assert(r@ =~= Map::<i64, Entry<T>>::empty());
        r
    }

    /// Makes a state with the same entries in the same slots.
    pub fn clone(&self) -> (r: Self)
        requires
            self.wf(),
        ensures
            r.wf(),
            r@ == self@,
            r.order() == self.order(),
    {
        let mut entries: Vec<Arc<Entry<T>>> = Vec::new();
        let mut i: usize = 0;
        while i < self.entries.len()
            invariant
                i <= self.entries@.len(),
                entries@ == self.entries@.subrange(0, i as int),
            decreases self.entries@.len() - i,
        {
            entries.push(self.entries[i].clone());
            i += 1;
        }
        assert(entries@ =~= self.entries@);
        let r = L1State {
            entries,
            keys: keys_clone(&self.keys),
            positions: positions_clone(&self.positions),
        };
        assert(r@ =~= self@);
        assert(r.wf()) by {
            assert(r.order() == self.order());
            assert(r.slots() == self.slots());
            assert forall|i: int| 0 <= i < r.order().len() implies {
                &&& r.slots().dom().contains(#[trigger] r.order()[i])
                &&& r.slots()[r.order()[i]] == i
                &&& r.entries@[i].value.spec_id() == r.order()[i]
            } by {
                assert(self.slots().dom().contains(self.order()[i]));
            }
            assert forall|id: i64| #[trigger] r.slots().dom().contains(id) implies {
                &&& r.slots()[id] < r.order().len()
                &&& r.order()[r.slots()[id] as int] == id
            } by {
                assert(self.slots().dom().contains(id));
            }
        }
        r
    }

    /// Counts the entries.
    pub fn len(&self) -> (r: usize)
        requires
            self.wf(),
        ensures
            r == self@.dom().len(),
            r == self.order().len(),
    {
        proof {
            self.lemma_contents();
        }
        self.entries.len()
    }

    /// Tells whether there are no entries.
    pub fn is_empty(&self) -> (r: bool)
        requires
            self.wf(),
        ensures
            r == (self@ == Map::<i64, Entry<T>>::empty()),
            r == (self.order().len() == 0),
    {
        proof {
            self.lemma_contents();
            if self.order().len() == 0 {
                assert(self@ =~= Map::<i64, Entry<T>>::empty());
            }
        }
        self.entries.len() == 0
    }

    /// Reads the entry of `id`, `None` where there is none.
    pub fn get(&self, id: &i64) -> (r: Option<&Arc<Entry<T>>>)
        requires
            self.wf(),
        ensures
            r is Some == self@.dom().contains(*id),
            r matches Some(entry) ==> **entry == self@[*id],
    {
        match positions_get(&self.positions, *id) {
            Some(position) => {
                assert(self.slots().dom().contains(*id));
                Some(&self.entries[position])
            },
            None => None,
        }
    }

    /// Tells whether there is an entry for `id`.
    pub fn contains_key(&self, id: &i64) -> (r: bool)
        requires
            self.wf(),
        ensures
            r == self@.dom().contains(*id),
    {
        positions_get(&self.positions, *id).is_some()
    }

    /// Reads the id at slot `index`, `None` past the last slot.
    pub fn key_at(&self, index: usize) -> (r: Option<i64>)
        ensures
            r == if index < self.order().len() {
                Some(self.order()[index as int])
            } else {
                None
            },
    {
        keys_get(&self.keys, index)
    }

    /// Copies the resident ids out in slot order.
    pub fn ids(&self) -> (r: Vec<i64>)
        requires
            self.wf(),
        ensures
            r@ == self.order(),
    {
        let mut r: Vec<i64> = Vec::new();
        let mut i: usize = 0;
        while i < self.entries.len()
            invariant
                self.wf(),
                i <= self.order().len(),
                self.entries@.len() == self.order().len(),
                r@ == self.order().subrange(0, i as int),
            decreases self.order().len() - i,
        {
            match keys_get(&self.keys, i) {
                Some(id) => r.push(id),
                None => {},
            }
            i += 1;
        }
        assert(r@ =~= self.order());
        r
    }

    /// Keeps `entry` under `id` and hands back the entry that it replaces. A
    /// new id takes a new slot at the end; a known one keeps its slot.
    pub fn insert_entry(&mut self, id: i64, entry: Arc<Entry<T>>) -> (r: Option<Arc<Entry<T>>>)
        requires
            old(self).wf(),
            entry.value.spec_id() == id,
        ensures
            final(self).wf(),
            final(self)@ == old(self)@.insert(id, *entry),
            r is Some == old(self)@.dom().contains(id),
            r matches Some(replaced) ==> *replaced == old(self)@[id],
            final(self).order() == if old(self)@.dom().contains(id) {
                old(self).order()
            } else {
                old(self).order().push(id)
            },
    {
        let r = match positions_get(&self.positions, id) {
            Some(position) => {
                assert(self.slots().dom().contains(id));
                let replaced = self.entries[position].clone();
                self.entries.set(position, entry);
                assert forall|i: int| 0 <= i < self.order().len() implies {
                    &&& self.slots().dom().contains(#[trigger] self.order()[i])
                    &&& self.slots()[self.order()[i]] == i
                    &&& self.entries@[i].value.spec_id() == self.order()[i]
                } by {
                    assert(old(self).slots().dom().contains(old(self).order()[i]));
                }
                Some(replaced)
            },
            None => {
                let position = self.entries.len();
                self.entries.push(entry);
                let _grown = self.entries.len();
                keys_push_back(&mut self.keys, id);
                let _none = positions_insert(&mut self.positions, id, position);
                let ghost o = old(self).order();
                assert(self.order() == o.push(id));
                assert forall|i: int| 0 <= i < self.order().len() implies {
                    &&& self.slots().dom().contains(#[trigger] self.order()[i])
                    &&& self.slots()[self.order()[i]] == i
                    &&& self.entries@[i].value.spec_id() == self.order()[i]
                } by {
                    if i < o.len() {
                        assert(old(self).slots().dom().contains(o[i]));
                    }
                }
                assert forall|k: i64| #[trigger] self.slots().dom().contains(k) implies {
                    &&& self.slots()[k] < self.order().len()
                    &&& self.order()[self.slots()[k] as int] == k
                } by {
                    if k != id {
                        assert(old(self).slots().dom().contains(k));
                    }
                }
                None
            },
        };
        assert(self@ =~= old(self)@.insert(id, *entry)) by {
            assert forall|k: i64| k != id && old(self)@.dom().contains(k) implies self@[k]
                == old(self)@[k] by {
                assert(old(self).slots().dom().contains(k));
                assert(old(self).order()[old(self).slots()[k] as int] == k);
            }
        }
        r
    }

    /// Drops the entry of `id` and hands it back. The last slot's entry moves
    /// into the slot that falls free.
    pub fn remove_entry(&mut self, id: &i64) -> (r: Option<Arc<Entry<T>>>)
        requires
            old(self).wf(),
        ensures
            final(self).wf(),
            final(self)@ == old(self)@.remove(*id),
            r is Some == old(self)@.dom().contains(*id),
            r matches Some(removed) ==> *removed == old(self)@[*id],
            final(self).order() == swap_removed(old(self).order(), *id),
    {
        let ghost o = old(self).order();
        let position: usize = match positions_remove(&mut self.positions, *id) {
            Some(position) => position,
            None => {
                assert(self@ =~= old(self)@.remove(*id));
                assert(self.slots() =~= old(self).slots());
                proof {
                    old(self).lemma_contents();
                    assert(!o.contains(*id)) by {
                        assert(!o.to_set().contains(*id));
                    }
                }
                return None;
            },
        };
        proof {
            assert(old(self).slots().dom().contains(*id));
            old(self).lemma_contents();
            assert(o[position as int] == *id);
            assert(o.contains(*id));
            assert(o.index_of(*id) == position as int);
        }
        let last_index: usize = self.entries.len() - 1;
        let removed = self.entries.swap_remove(position);
        if position == last_index {
            let _popped = keys_pop_back(&mut self.keys);
            assert(self.order() == o.drop_last());
            assert(self.order() =~= swap_removed(o, *id));
        } else {
            match keys_get(&self.keys, last_index) {
                Some(moved_id) => {
                    let _removed_id = keys_set(&mut self.keys, position, moved_id);
                    let _popped = keys_pop_back(&mut self.keys);
                    let _unbound = positions_insert(&mut self.positions, moved_id, position);
                    assert(moved_id == o.last());
                    assert(self.order() =~= swap_removed(o, *id));
                    assert(self.slots() == old(self).slots().remove(*id).insert(
                        moved_id,
                        position,
                    ));
                },
                None => {},
            }
        }
        assert forall|i: int| 0 <= i < self.order().len() implies {
            &&& self.slots().dom().contains(#[trigger] self.order()[i])
            &&& self.slots()[self.order()[i]] == i
            &&& self.entries@[i].value.spec_id() == self.order()[i]
        } by {
            assert(old(self).slots().dom().contains(o[i]));
            assert(old(self).slots().dom().contains(o[last_index as int]));
        }
        assert forall|k: i64| #[trigger] self.slots().dom().contains(k) implies {
            &&& self.slots()[k] < self.order().len()
            &&& self.order()[self.slots()[k] as int] == k
        } by {
            assert(old(self).slots().dom().contains(k));
            assert(old(self).slots().dom().contains(o[last_index as int]));
        }
        assert(self@ =~= old(self)@.remove(*id)) by {
            assert forall|k: i64| k != *id && old(self)@.dom().contains(k) implies self@[k]
                == old(self)@[k] && self@.dom().contains(k) by {
                assert(old(self).slots().dom().contains(k));
                assert(o[old(self).slots()[k] as int] == k);
            }
            assert forall|k: i64| self@.dom().contains(k) implies old(self)@.remove(
                *id,
            ).dom().contains(k) by {
                assert(old(self).slots().dom().contains(o[last_index as int]));
            }
        }
        Some(removed)
    }

    /// Sets the access epoch of the entry of `id`; tells whether there is one.
    pub fn touch(&mut self, id: &i64, epoch: u64) -> (r: bool)
        requires
            old(self).wf(),
        ensures
            final(self).wf(),
            r == old(self)@.dom().contains(*id),
            r ==> final(self)@ == old(self)@.insert(
                *id,
                (Entry { last_access_epoch: epoch, ..old(self)@[*id] }),
            ),
            !r ==> final(self)@ == old(self)@,
            final(self).order() == old(self).order(),
    {
        let touched = match self.get(id) {
            Some(entry) => Arc::new(Entry::new(entry.value.clone(), entry.expires_at, epoch)),
            None => {
                return false;
            },
        };
        proof {
            self.lemma_contents();
        }
        let _replaced = self.insert_entry(*id, touched);
        true
    }

    /// Tells whether the three collections describe the same set of entries.
    pub fn assert_invariants(&self) -> (r: bool)
        ensures
            r == self.wf(),
    {
        let n = keys_len(&self.keys);
        let bound = positions_len(&self.positions);
        if self.entries.len() != n || bound != n {
            proof {
                if self.wf() {
                    self.lemma_contents();
                    assert(self.slots().dom() =~= self@.dom());
                }
            }
            return false;
        }
        let mut i: usize = 0;
        while i < n
            invariant
                i <= n,
                n == self.order().len(),
                self.entries@.len() == n,
                forall|j: int|
                    0 <= j < i ==> {
                        &&& self.slots().dom().contains(#[trigger] self.order()[j])
                        &&& self.slots()[self.order()[j]] == j
                        &&& self.entries@[j].value.spec_id() == self.order()[j]
                    },
            decreases n - i,
        {
            let id: i64 = match keys_get(&self.keys, i) {
                Some(id) => id,
                None => {
                    return false;
                },
            };
            assert(id == self.order()[i as int]);
            match positions_get(&self.positions, id) {
                Some(position) => {
                    if position != i {
                        return false;
                    }
                },
                None => {
                    return false;
                },
            }
            if self.entries[i].value.id() != id {
                return false;
            }
            i += 1;
        }
        proof {
            let o = self.order();
            assert(o.no_duplicates());
            o.unique_seq_to_set();
            assert forall|k: i64| o.to_set().contains(k) implies self.slots().dom().contains(
                k,
            ) by {
                let j = choose|j: int| 0 <= j < o.len() && o[j] == k;
                assert(self.slots().dom().contains(o[j]));
            }
            assert(o.to_set().subset_of(self.slots().dom()));
            vstd::set_lib::lemma_subset_equality(o.to_set(), self.slots().dom());
            assert forall|k: i64| #[trigger] self.slots().dom().contains(k) implies {
                &&& self.slots()[k] < o.len()
                &&& o[self.slots()[k] as int] == k
            } by {
                assert(o.to_set().contains(k));
                let j = choose|j: int| 0 <= j < o.len() && o[j] == k;
                assert(self.slots().dom().contains(o[j]));
            }
        }
        true
    }
}

/// The list without `id`: its place is taken by the last item.
pub open spec fn swap_removed(keys: Seq<i64>, id: i64) -> Seq<i64> {
    if !keys.contains(id) {
        keys
    } else {
        keys.update(keys.index_of(id), keys.last()).drop_last()
    }
}

} // verus!

use sassi::punnu::eviction::choose_sampled_lru_victim;
use sassi::punnu::state::{Entry, L1State};
use sassi::Cacheable;
use std::collections::BTreeSet;
use std::sync::Arc;

#[derive(Debug)]
struct Item {
    id: i64,
}

#[derive(Default)]
struct ItemFields;

impl Cacheable for Item {
    type Fields = ItemFields;

    fn id(&self) -> i64 {
        self.id
    }

    fn fields() -> Self::Fields {
        ItemFields
    }

    fn cache_type_name() -> &'static str {
        "Item"
    }
}

fn entry(id: i64) -> Arc<Entry<Item>> {
    Arc::new(Entry::new(Arc::new(Item { id }), None, 0))
}

fn entry_at(id: i64, epoch: u64) -> Arc<Entry<Item>> {
    let mut entry = Entry::new(Arc::new(Item { id }), None, 0);
    entry.bump_access_epoch(epoch);
    Arc::new(entry)
}

#[test]
fn entry_new_should_initialize_access_epoch() {
    let entry = Entry::new(Arc::new(Item { id: 7 }), None, 42);

    assert_eq!(entry.access_epoch(), 42);
}

#[test]
fn insert_entry_should_replace_without_duplicating_keys() {
    let mut state = L1State::empty();
    let original = entry(7);
    let replacement = entry(7);

    assert!(state.insert_entry(7, original).is_none());
    let removed = state.insert_entry(7, replacement.clone());

    assert!(state.assert_invariants());
    assert!(removed.is_some());
    assert_eq!(state.len(), 1);
    assert_eq!(state.ids(), vec![7]);
    assert!(Arc::ptr_eq(
        state.get(&7).expect("replacement entry should be present"),
        &replacement
    ));
}

#[test]
fn remove_entry_should_swap_remove_and_update_moved_key_position() {
    let mut state = L1State::empty();
    state.insert_entry(1, entry(1));
    let removed = entry(2);
    state.insert_entry(2, removed.clone());
    state.insert_entry(3, entry(3));

    let actual = state.remove_entry(&2).expect("entry should be removed");

    assert!(state.assert_invariants());
    assert!(Arc::ptr_eq(&actual, &removed));
    assert_eq!(state.ids(), vec![1, 3]);
    assert_eq!(state.key_at(1), Some(3));
    assert!(!state.contains_key(&2));
}

#[test]
fn choose_sampled_lru_victim_should_return_none_for_empty_state() {
    let state = L1State::<Item>::empty();
    let mut rng = fastrand::Rng::with_seed(1);

    assert_eq!(choose_sampled_lru_victim(&state, &mut rng), None);
}

#[test]
fn choose_sampled_lru_victim_should_choose_lowest_epoch_when_sample_covers_state() {
    let mut state = L1State::empty();
    state.insert_entry(1, entry_at(1, 30));
    state.insert_entry(2, entry_at(2, 5));
    state.insert_entry(3, entry_at(3, 20));

    let mut rng = fastrand::Rng::with_seed(1);

    assert_eq!(choose_sampled_lru_victim(&state, &mut rng), Some(2));
}

#[test]
fn insert_remove_sequences_should_keep_state_invariants() {
    let mut rng = fastrand::Rng::with_seed(7);
    for _ in 0..20 {
        let mut state = L1State::empty();
        let mut expected_ids: BTreeSet<i64> = BTreeSet::new();
        for _ in 0..rng.usize(0..200) {
            let id = rng.i64(-12..=12);
            if rng.bool() {
                state.insert_entry(id, entry(id));
                expected_ids.insert(id);
            } else {
                state.remove_entry(&id);
                expected_ids.remove(&id);
            }
            assert!(state.assert_invariants());
            assert_eq!(state.len(), expected_ids.len());
            for expected_id in &expected_ids {
                assert!(state.contains_key(expected_id));
            }
        }
    }
}

#[test]
fn a_copy_of_the_state_does_not_follow_the_original() {
    let mut state = L1State::empty();
    state.insert_entry(1, entry(1));
    let copy = state.clone();
    state.insert_entry(2, entry(2));
    state.remove_entry(&1);
    assert_eq!(copy.ids(), vec![1]);
    assert_eq!(state.ids(), vec![2]);
}

#[test]
fn a_sampled_victim_is_never_the_newest_of_a_large_state() {
    let mut state = L1State::empty();
    for id in 0..500i64 {
        state.insert_entry(id, entry_at(id, id as u64));
    }
    let mut rng = fastrand::Rng::with_seed(3);
    for _ in 0..50 {
        let victim = choose_sampled_lru_victim(&state, &mut rng).expect("there are entries");
        assert!(victim < 499);
    }
}

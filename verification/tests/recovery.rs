use sassi::punnu::recovery::{RecoveryEntry, RecoverySet};

#[test]
fn failed_restore_uses_capped_exponential_backoff() {
    let mut set = RecoverySet::new(8);
    set.record_eviction(1_i64);

    let mut delays = Vec::new();
    let mut current_tick = 100;
    for _ in 0..8 {
        let snapshot = set.snapshot_eligible(current_tick);
        let entry = snapshot.get(&1).expect("id should be eligible");
        set.restore_after_failed(snapshot, current_tick);
        let restored = set.get(&1).unwrap();
        delays.push(restored.next_eligible_tick - current_tick);
        current_tick = restored.next_eligible_tick;
        assert_eq!(restored.attempts, entry.attempts + 1);
    }

    assert_eq!(delays, vec![1, 2, 4, 8, 16, 32, 64, 64]);
}

#[test]
fn restore_preserves_newer_eviction_for_same_id() {
    let mut set = RecoverySet::new(8);
    set.record_eviction(1_i64);
    let snapshot = set.snapshot_eligible(1);
    set.record_eviction(1_i64);

    set.restore_after_failed(snapshot, 10);

    assert_eq!(
        set.get(&1),
        Some(RecoveryEntry {
            attempts: 0,
            next_eligible_tick: 0
        })
    );
}

#[test]
fn record_eviction_keeps_one_overflow_sentinel() {
    let mut set = RecoverySet::new(2);

    set.record_eviction(1_i64);
    set.record_eviction(2_i64);
    set.record_eviction(3_i64);
    set.record_eviction(4_i64);

    assert_eq!(set.len(), 3);
    assert!(set.is_overflowing());
}

#[test]
fn ids_that_are_not_due_stay_behind() {
    let mut set = RecoverySet::new(8);
    set.record_eviction(1_i64);
    let snapshot = set.snapshot_eligible(5);
    set.restore_after_failed(snapshot, 5);
    set.record_eviction(2_i64);

    let snapshot = set.snapshot_eligible(5);

    assert_eq!(snapshot.ids().len(), 1);
    assert!(snapshot.ids().contains(&2));
    assert!(set.get(&1).is_some());
    set.note_success(snapshot);
    assert_eq!(set.len(), 1);
}

use sassi::backend::keyspace::BackendInvalidation;
use sassi::punnu::backend_write::StrictStart;
use sassi::punnu::builder::BuildError;
use sassi::punnu::config::Sample;
use sassi::punnu::pool::{FetchInsertResult, FetchManyInsertResult};
use sassi::{
    BackendError, BackendFailureMode, CacheTier, Cacheable, DeltaResult, EventReason, InsertError,
    InvalidationReason, OnConflict, Punnu, PunnuConfig, PunnuEvent, RefreshMode,
};
use std::collections::HashSet;
use std::sync::Arc;

const SECOND: u128 = 1_000_000_000;

#[derive(Debug, Clone, PartialEq)]
struct EventOrderItem {
    id: i64,
    note: u32,
}

fn item(id: i64) -> EventOrderItem {
    EventOrderItem { id, note: 0 }
}

fn noted(id: i64, note: u32) -> EventOrderItem {
    EventOrderItem { id, note }
}

impl Cacheable for EventOrderItem {
    type Fields = ();

    fn id(&self) -> i64 {
        self.id
    }

    fn fields() -> Self::Fields {}

    fn cache_type_name() -> &'static str {
        "EventOrderItem"
    }
}

fn pool_with(config: PunnuConfig) -> Punnu<EventOrderItem> {
    match Punnu::builder().config(config).build(true) {
        Ok(pool) => pool,
        Err(err) => panic!("{}", err.to_text()),
    }
}

fn pool() -> Punnu<EventOrderItem> {
    pool_with(PunnuConfig::default())
}

fn small(lru_size: usize) -> Punnu<EventOrderItem> {
    pool_with(PunnuConfig { lru_size, ..Default::default() })
}

fn inserted(event: &PunnuEvent<EventOrderItem>) -> Option<i64> {
    match event {
        PunnuEvent::Insert { value } => Some(value.id),
        _ => None,
    }
}

fn invalidated(event: &PunnuEvent<EventOrderItem>) -> Option<(i64, EventReason)> {
    match event {
        PunnuEvent::Invalidate { id, reason } => Some((*id, *reason)),
        _ => None,
    }
}

#[test]
fn an_inserted_value_is_found() {
    let mut punnu = pool();
    let done = punnu.insert(item(1), 0);
    assert_eq!(done.events.len(), 1);
    assert_eq!(inserted(&done.events[0]), Some(1));
    assert_eq!(done.samples, vec![Sample::LruSize(1)]);

    let (found, samples) = punnu.get(&1, 5);
    assert!(Arc::ptr_eq(&found.unwrap(), &done.result.unwrap()));
    assert_eq!(samples, vec![Sample::Hit(CacheTier::L1)]);

    let (missing, samples) = punnu.get(&2, 5);
    assert!(missing.is_none());
    assert_eq!(samples, vec![Sample::Miss]);
    assert_eq!(punnu.len(), 1);
    assert!(!punnu.is_empty());
}

#[test]
fn an_expired_entry_is_a_miss_and_stays_until_it_is_reclaimed() {
    let mut punnu = pool();
    let _ = punnu.insert_with_ttl(item(1), 5 * SECOND, 0);
    assert!(punnu.get(&1, 5 * SECOND - 1).0.is_some());
    let (found, samples) = punnu.get(&1, 5 * SECOND);
    assert!(found.is_none());
    assert_eq!(samples.len(), 2);
    assert!(matches!(samples[0], Sample::Eviction(EventReason::TtlExpired(_))));
    assert_eq!(samples[1], Sample::Miss);
    assert_eq!(punnu.len(), 1);
    assert_eq!(punnu.expired_ids(5 * SECOND), vec![1]);

    let swept = punnu.sweep_expired(&vec![1], 5 * SECOND);
    assert_eq!(swept.events.len(), 1);
    assert!(matches!(
        invalidated(&swept.events[0]),
        Some((1, EventReason::TtlExpired(_)))
    ));
    assert_eq!(punnu.len(), 0);
}

#[test]
fn sweep_rechecks_expiry_before_removing_stale_candidate() {
    let mut punnu = pool_with(PunnuConfig {
        default_ttl: Some(5 * SECOND),
        ttl_sweep_interval: Some(SECOND),
        ..Default::default()
    });
    let _ = punnu.insert(item(1), 0);
    let now = 10 * SECOND;
    let candidates = punnu.expired_ids(now);
    assert_eq!(candidates, vec![1]);

    let done = punnu.insert_with_ttl(item(1), 60 * SECOND, now);
    assert!(
        done.result.is_ok(),
        "newer same-id write should commit before sweep prepare resumes"
    );
    let swept = punnu.sweep_expired(&candidates, now);

    assert!(
        punnu.get(&1, now).0.is_some(),
        "sweep must not evict a newer same-id value that replaced an expired candidate"
    );
    assert_eq!(punnu.len(), 1);
    assert!(
        swept.events.iter().all(|ev| !matches!(
            ev,
            PunnuEvent::Invalidate { id: 1, reason: EventReason::TtlExpired(_) }
        )),
        "stale candidate should not emit a TtlExpired event for the newer value"
    );
}

#[test]
fn conflicts_follow_the_policy() {
    let mut last = pool();
    let _ = last.insert(noted(1, 1), 0);
    let done = last.insert(noted(1, 2), 0);
    assert_eq!(inserted(&done.events[0]), Some(1));
    assert_eq!(last.get(&1, 0).0.unwrap().note, 2);

    let mut update = pool_with(PunnuConfig { on_conflict: OnConflict::Update, ..Default::default() });
    let _ = update.insert(noted(1, 1), 0);
    let done = update.insert(noted(1, 2), 0);
    match &done.events[0] {
        PunnuEvent::Update { old, new } => {
            assert_eq!(old.note, 1);
            assert_eq!(new.note, 2);
        }
        _ => panic!("expected an update event"),
    }

    let mut reject = pool_with(PunnuConfig { on_conflict: OnConflict::Reject, ..Default::default() });
    let _ = reject.insert(noted(1, 1), 0);
    let done = reject.insert(noted(1, 2), 0);
    assert!(matches!(done.result, Err(InsertError::Conflict)));
    assert!(done.events.is_empty());
    assert_eq!(reject.get(&1, 0).0.unwrap().note, 1);
}

#[test]
fn an_expired_entry_is_no_conflict() {
    let mut reject = pool_with(PunnuConfig { on_conflict: OnConflict::Reject, ..Default::default() });
    let _ = reject.insert_with_ttl(noted(1, 1), SECOND, 0);
    assert!(reject.live_conflict_for_reject(&1, 0));
    assert!(!reject.live_conflict_for_reject(&1, SECOND));
    let done = reject.insert(noted(1, 2), SECOND);
    assert!(done.result.is_ok());
    assert_eq!(reject.get(&1, SECOND).0.unwrap().note, 2);
}

#[test]
fn a_small_pool_evicts_the_entry_used_longest_ago() {
    let mut punnu = small(2);
    let _ = punnu.insert(item(1), 0);
    let _ = punnu.insert(item(2), 0);
    let _ = punnu.get(&1, 0);
    let done = punnu.insert(item(3), 0);
    assert_eq!(punnu.len(), 2);
    assert!(punnu.contains_unexpired(&1, 0));
    assert!(!punnu.contains_unexpired(&2, 0));
    assert!(punnu.contains_unexpired(&3, 0));
    let evicted: Vec<_> = done.events.iter().filter_map(invalidated).collect();
    assert_eq!(evicted.len(), 1);
    assert_eq!(evicted[0].0, 2);
    assert!(matches!(evicted[0].1, EventReason::LruEvict(_)));
}

#[test]
fn capacity_pressure_reclaims_expired_entries_first() {
    let mut punnu = small(2);
    let _ = punnu.insert_with_ttl(item(1), SECOND, 0);
    let _ = punnu.insert(item(2), 0);
    let _ = punnu.get(&1, 0);
    let _ = punnu.insert(item(3), 2 * SECOND);
    assert!(!punnu.contains_unexpired(&1, 0));
    assert!(punnu.contains_unexpired(&2, 0));
    assert!(punnu.contains_unexpired(&3, 0));
}

#[test]
fn the_pool_never_holds_more_than_it_has_room_for() {
    let mut punnu = small(16);
    for id in 0..400 {
        let _ = punnu.insert(item(id), 0);
        assert!(punnu.len() <= 16);
    }
    assert_eq!(punnu.len(), 16);
}

#[test]
fn invalidation_reports_what_was_there() {
    let mut punnu = pool();
    let _ = punnu.insert(item(1), 0);
    let done = punnu.invalidate(&1, InvalidationReason::OnSave, 0);
    assert!(done.result);
    assert_eq!(invalidated(&done.events[0]), Some((1, EventReason::OnSave)));
    assert_eq!(
        done.samples,
        vec![Sample::Eviction(EventReason::OnSave), Sample::LruSize(0)]
    );
    let again = punnu.invalidate(&1, InvalidationReason::Manual, 0);
    assert!(!again.result);
    assert!(again.events.is_empty());
    assert!(again.samples.is_empty());
}

#[test]
fn callers_reasons_are_taken_over() {
    assert_eq!(EventReason::from(InvalidationReason::Manual), EventReason::Manual);
    assert_eq!(EventReason::from(InvalidationReason::OnSave), EventReason::OnSave);
    assert_eq!(EventReason::from(InvalidationReason::OnDelete), EventReason::OnDelete);
}

#[test]
fn a_delta_writes_its_items_and_drops_its_tombstones() {
    let mut punnu = pool();
    let _ = punnu.insert(noted(1, 1), 0);
    let _ = punnu.insert(noted(2, 1), 0);
    let _ = punnu.insert(noted(9, 1), 0);
    let delta: DeltaResult<EventOrderItem> = DeltaResult::new(
        vec![noted(1, 2), noted(3, 1), noted(3, 2), noted(4, 1)],
        HashSet::from([2, 4]),
    );
    let done = punnu.apply_delta(delta, 0);
    assert_eq!(done.result.applied_items, 2);
    assert_eq!(done.result.tombstones_evicted, 1);
    assert_eq!(done.result.lru_evictions, 0);
    assert_eq!(punnu.get(&1, 0).0.unwrap().note, 2);
    assert!(punnu.get(&2, 0).0.is_none());
    assert_eq!(punnu.get(&3, 0).0.unwrap().note, 2);
    assert!(punnu.get(&4, 0).0.is_none());
    assert_eq!(punnu.get(&9, 0).0.unwrap().note, 1);
}

#[test]
fn a_replacing_refresh_keeps_only_what_was_fetched() {
    let mut punnu = pool();
    let _ = punnu.insert(item(1), 0);
    let _ = punnu.insert(item(2), 0);
    let _ = punnu.apply_refresh_items(vec![item(2), item(3)], RefreshMode::Replace, 0);
    let mut ids: Vec<i64> = punnu.snapshot_unexpired(0).iter().map(|v| v.id).collect();
    ids.sort();
    assert_eq!(ids, vec![2, 3]);

    let _ = punnu.apply_refresh_items(vec![item(4)], RefreshMode::UpsertOnly, 0);
    let mut ids: Vec<i64> = punnu.snapshot_unexpired(0).iter().map(|v| v.id).collect();
    ids.sort();
    assert_eq!(ids, vec![2, 3, 4]);
}

#[test]
fn cached_and_missing_ids_are_told_apart() {
    let mut punnu = pool();
    let _ = punnu.insert(item(2), 0);
    let (hits, missing, samples) = punnu.split_cached(&vec![1, 2, 1, 3, 2], 0);
    assert_eq!(hits.iter().map(|v| v.id).collect::<Vec<_>>(), vec![2, 2]);
    assert_eq!(missing, vec![1, 3]);
    assert_eq!(samples.len(), 5);
}

#[test]
fn get_or_fetch_retries_when_strict_reservation_appears_before_l1_commit() {
    let mut punnu = pool();
    let id = 30;
    assert!(punnu.try_acquire_backend_strict_insert(&id));

    let fetch = punnu.insert_arc_or_existing(Arc::new(item(id)), 0);
    assert!(
        matches!(fetch.result, FetchInsertResult::Blocked(30)),
        "fetch returned before the strict reservation was released"
    );
    assert!(punnu.get(&id, 0).0.is_none());

    punnu.release_backend_strict_insert(&id);

    let fetched = match punnu.insert_arc_or_existing(Arc::new(item(id)), 0).result {
        FetchInsertResult::Ready(value) => value,
        FetchInsertResult::Blocked(_) => panic!("the reservation was released"),
    };
    assert_eq!(fetched.id, id);
    assert_eq!(punnu.get(&id, 0).0.unwrap().id, id);
}

#[test]
fn batch_fetch_retries_when_strict_reservation_appears_before_l1_commit() {
    let mut punnu = pool();
    let blocked_id = 41;
    assert!(punnu.try_acquire_backend_strict_insert(&blocked_id));
    let values = vec![Arc::new(item(40)), Arc::new(item(blocked_id))];

    let fetch = punnu.insert_many_for_fetch(&values, 0);
    assert!(
        matches!(fetch.result, FetchManyInsertResult::Blocked(41)),
        "batch fetch returned before the strict reservation was released"
    );
    assert!(punnu.get(&40, 0).0.is_none());
    assert!(punnu.get(&blocked_id, 0).0.is_none());

    punnu.release_backend_strict_insert(&blocked_id);

    let fetched = match punnu.insert_many_for_fetch(&values, 0).result {
        FetchManyInsertResult::Ready(Ok(values)) => values,
        _ => panic!("the reservation was released"),
    };
    assert_eq!(fetched.len(), 2);
    assert!(punnu.get(&40, 0).0.is_some());
    assert!(punnu.get(&blocked_id, 0).0.is_some());
}

#[test]
fn a_fetched_value_yields_to_the_one_that_is_cached() {
    let mut punnu = pool();
    let _ = punnu.insert(noted(1, 1), 0);
    match punnu.insert_arc_or_existing(Arc::new(noted(1, 2)), 0).result {
        FetchInsertResult::Ready(value) => assert_eq!(value.note, 1),
        FetchInsertResult::Blocked(_) => panic!("nothing is reserved"),
    }
}

#[test]
fn a_strict_insert_writes_the_pool_only_after_the_backend() {
    let mut punnu = pool_with(PunnuConfig {
        backend_failure_mode: BackendFailureMode::Error,
        on_conflict: OnConflict::Reject,
        ..Default::default()
    });
    assert_eq!(punnu.begin_strict_insert(&1, 0), StrictStart::Put);
    assert_eq!(punnu.begin_strict_insert(&1, 0), StrictStart::Busy);
    let failed = punnu.finish_strict_insert(
        Arc::new(item(1)),
        None,
        Err(BackendError::Network("down".to_owned())),
        0,
    );
    assert!(matches!(
        failed.result,
        Err(InsertError::BackendFailed(BackendError::Network(_)))
    ));
    assert_eq!(punnu.len(), 0);
    assert!(!punnu.backend_strict_insert_reserved(&1));

    assert_eq!(punnu.begin_strict_insert(&1, 0), StrictStart::Put);
    let done = punnu.finish_strict_insert(Arc::new(item(1)), None, Ok(()), 0);
    assert!(done.result.is_ok());
    assert_eq!(punnu.len(), 1);
    assert_eq!(punnu.begin_strict_insert(&1, 0), StrictStart::Conflict);
    assert!(!punnu.backend_strict_insert_reserved(&1));
}

#[test]
fn a_failed_strict_invalidation_leaves_the_pool_alone() {
    let mut punnu = pool();
    let _ = punnu.insert(item(1), 0);
    let failed = punnu.finish_strict_invalidate(
        &1,
        InvalidationReason::Manual,
        Err(BackendError::NotFound),
        0,
    );
    assert!(matches!(failed, Err(BackendError::NotFound)));
    assert_eq!(punnu.len(), 1);
    let done = punnu.finish_strict_invalidate(&1, InvalidationReason::Manual, Ok(()), 0);
    assert!(matches!(done, Ok(committed) if committed.result));
    assert_eq!(punnu.len(), 0);
}

#[test]
fn the_backend_can_drop_entries() {
    let mut punnu = pool();
    for id in 1..=3 {
        let _ = punnu.insert(item(id), 0);
    }
    let one = punnu.apply_backend_message(Ok(BackendInvalidation::Id(2)), 0);
    assert!(one.result.is_none());
    assert!(matches!(
        invalidated(&one.events[0]),
        Some((2, EventReason::BackendInvalidation(_)))
    ));
    let lost = punnu.apply_backend_message(Err(BackendError::Network("gone".to_owned())), 0);
    assert!(matches!(lost.result, Some(BackendError::Network(_))));
    assert_eq!(punnu.len(), 2);
    let all = punnu.apply_backend_message(Ok(BackendInvalidation::All), 0);
    assert_eq!(all.events.len(), 2);
    assert_eq!(all.samples.len(), 3);
    assert!(punnu.is_empty());
}

#[test]
fn settings_are_checked() {
    fn problem(config: PunnuConfig, backend: bool, runtime: bool) -> Option<BuildError> {
        let builder = Punnu::<EventOrderItem>::builder().config(config);
        let builder = if backend { builder.backend() } else { builder };
        builder.check(runtime).err()
    }
    assert!(problem(PunnuConfig::default(), false, false).is_none());
    assert!(matches!(
        problem(PunnuConfig { lru_size: 0, ..Default::default() }, false, true),
        Some(BuildError::ZeroCapacity)
    ));
    assert!(matches!(
        problem(PunnuConfig { ttl_sweep_interval: Some(0), ..Default::default() }, false, true),
        Some(BuildError::ZeroSweepInterval)
    ));
    assert!(matches!(
        problem(PunnuConfig { event_channel_capacity: 0, ..Default::default() }, false, true),
        Some(BuildError::ZeroEventCapacity)
    ));
    assert!(matches!(
        problem(PunnuConfig { namespace: Some(String::new()), ..Default::default() }, false, true),
        Some(BuildError::EmptyNamespace)
    ));
    assert!(matches!(
        problem(
            PunnuConfig {
                backend_failure_mode: BackendFailureMode::Retry { attempts: 0 },
                ..Default::default()
            },
            false,
            true
        ),
        Some(BuildError::ZeroAttempts)
    ));
    assert!(matches!(
        problem(PunnuConfig::default(), true, false),
        Some(BuildError::NoRuntime)
    ));
    assert_eq!(
        BuildError::ZeroAttempts.to_text(),
        "BackendFailureMode::Retry requires attempts >= 1"
    );
}

#[test]
fn default_settings() {
    let config = PunnuConfig::default();
    assert_eq!(config.lru_size, 10_000);
    assert_eq!(config.event_channel_capacity, 256);
    assert_eq!(config.backend_failure_mode, BackendFailureMode::L1Only);
    assert_eq!(config.on_conflict, OnConflict::LastWriteWins);
    assert!(config.default_ttl.is_none());
    assert!(config.ttl_sweep_interval.is_none());
    assert!(config.namespace.is_none());
    assert!(config.metrics.is_none());
}

use sassi::punnu::delta_refresh::{
    RefreshSubscription, TickKind, UpdateAction, UpdateFullAction,
};
use sassi::punnu::fetch::{check_backend_value, check_fetched_batch, settle_batch};
use sassi::punnu::fetch_commit::{hand_out, FetchCommit};
use sassi::punnu::refresh::{
    on_loop_start, on_loop_wake, refresh_task_stopped_error, settle_run, settle_trigger, FetchEnd,
    LoopStep, Wake,
};
use sassi::punnu::single_flight::{
    into_clone, settle_fetch, Attach, FetchErrorClone, FetchReply, InFlightRegistry,
};
use sassi::{
    BackendError, Cacheable, DeltaResult, DeltaSyncCacheable, FetchError, InsertError,
    MonotonicWatermark, Punnu, PunnuConfig, PunnuSnapshotError, TenantKey, WireFormatError,
};
use std::collections::HashSet;
use std::sync::Arc;

#[derive(Debug, Clone, PartialEq)]
struct Row {
    id: i64,
    version: i64,
}

fn row(id: i64, version: i64) -> Row {
    Row { id, version }
}

impl Cacheable for Row {
    type Fields = ();

    fn id(&self) -> i64 {
        self.id
    }

    fn fields() -> Self::Fields {}

    fn cache_type_name() -> &'static str {
        "Row"
    }
}

impl DeltaSyncCacheable for Row {
    type Watermark = i64;

    fn watermark(&self) -> i64 {
        self.version
    }
}

fn pool(lru_size: usize) -> Punnu<Row> {
    match Punnu::builder().config(PunnuConfig { lru_size, ..Default::default() }).build(true) {
        Ok(pool) => pool,
        Err(err) => panic!("{}", err.to_text()),
    }
}

fn delta(items: Vec<Row>, tombstones: &[i64], high: Option<i64>) -> DeltaResult<Row, i64> {
    let tombstones: HashSet<i64> = tombstones.iter().copied().collect();
    match high {
        Some(high) => DeltaResult::with_high_watermark(items, tombstones, high),
        None => DeltaResult::new(items, tombstones),
    }
}

#[test]
fn ticks_move_the_watermark_on() {
    let mut punnu = pool(10);
    let mut sub = RefreshSubscription::<i64>::new(10);
    let (start, query) = sub.begin_tick(TickKind::Delta);
    assert_eq!(query.since, None);
    let done = sub.complete_tick(&mut punnu, start, Ok(delta(vec![row(1, 5), row(2, 7)], &[], None)), 0);
    let result = done.result.unwrap();
    assert_eq!(result.applied, 2);
    assert_eq!(result.watermark, Some(7));

    let (start, query) = sub.begin_tick(TickKind::Delta);
    assert_eq!(query.since, Some(7));
    let done = sub.complete_tick(&mut punnu, start, Ok(delta(vec![row(1, 3)], &[2], None)), 0);
    assert_eq!(done.result.unwrap().watermark, Some(7));
    assert_eq!(punnu.len(), 1);

    let (start, _) = sub.begin_tick(TickKind::Delta);
    let done = sub.complete_tick(&mut punnu, start, Ok(delta(vec![], &[], Some(12))), 0);
    assert_eq!(done.result.unwrap().watermark, Some(12));
    assert_eq!(sub.watermark(), Some(12));

    let (start, query) = sub.begin_tick(TickKind::Full);
    assert_eq!(query.since, None);
    let failed = sub.complete_tick(
        &mut punnu,
        start,
        Err::<DeltaResult<Row, i64>, _>(FetchError::Serialization("x".to_owned())),
        0,
    );
    assert!(failed.result.is_err());
    assert!(failed.committed.is_none());
    assert_eq!(sub.watermark(), Some(12));
}

/// A position ordered by `at` alone.
#[derive(Debug, Clone, PartialEq)]
struct Offset {
    at: u64,
    label: &'static str,
}

impl MonotonicWatermark for Offset {
    fn is_at_most(&self, other: &Self) -> bool {
        self.at <= other.at
    }

    fn copy(&self) -> Self {
        self.clone()
    }
}

#[test]
fn positions_that_tie_leave_the_current_one() {
    let mut sub = RefreshSubscription::<Offset>::new(10);
    assert_eq!(sub.watermark(), None);
    let first = Offset { at: 3, label: "first" };
    assert_eq!(sub.advance_watermark(Some(first.clone())), Some(first.clone()));
    assert_eq!(sub.advance_watermark(Some(Offset { at: 3, label: "tie" })), Some(first.clone()));
    assert_eq!(sub.advance_watermark(Some(Offset { at: 2, label: "earlier" })), Some(first.clone()));
    assert_eq!(sub.advance_watermark(None), Some(first));
    let later = Offset { at: 4, label: "later" };
    assert_eq!(sub.advance_watermark(Some(later.clone())), Some(later));
}

#[test]
fn evicted_rows_are_asked_for_again() {
    let mut punnu = pool(2);
    let mut sub = RefreshSubscription::<i64>::new(2);
    sub.with_eviction_recovery(true);
    let (start, _) = sub.begin_tick(TickKind::Delta);
    let _ = sub.complete_tick(&mut punnu, start, Ok(delta(vec![row(1, 1), row(2, 2)], &[], None)), 0);
    let done = punnu.insert(row(9, 9), 0);
    for event in &done.events {
        let _ = sub.note_event(event);
    }
    assert_eq!(sub.pending_eviction_recovery_count(), 1);
    let (start, query) = sub.begin_tick(TickKind::Delta);
    assert_eq!(query.recover_ids, HashSet::from([1]));
    assert_eq!(sub.pending_eviction_recovery_count(), 0);
    let _ = sub.complete_tick(
        &mut punnu,
        start,
        Err::<DeltaResult<Row, i64>, _>(FetchError::Serialization("x".to_owned())),
        0,
    );
    assert_eq!(sub.pending_eviction_recovery_count(), 1);
}

#[test]
fn a_recovered_row_does_not_replace_a_newer_one() {
    let mut punnu = pool(10);
    let _ = punnu.insert(row(1, 8), 0);
    let recovered = HashSet::from([1]);
    let _ = punnu.apply_delta_recovering(
        DeltaResult::new(vec![row(1, 5), row(2, 5)], HashSet::new()),
        &recovered,
        0,
    );
    assert_eq!(punnu.get(&1, 0).0.unwrap().version, 8);
    assert_eq!(punnu.get(&2, 0).0.unwrap().version, 5);
    let _ = punnu.apply_delta(DeltaResult::new(vec![row(1, 5)], HashSet::new()), 0);
    assert_eq!(punnu.get(&1, 0).0.unwrap().version, 5);
}

#[test]
fn full_updates_wait_for_a_delta_and_are_shared() {
    let mut sub = RefreshSubscription::<i64>::new(10);
    let first = match sub.update_with_kind() {
        UpdateAction::Await { kind: TickKind::Delta, operation_id, start: true } => operation_id,
        other => panic!("unexpected {other:?}"),
    };
    assert_eq!(
        sub.update_with_kind(),
        UpdateAction::Await { kind: TickKind::Delta, operation_id: first, start: false }
    );
    let full = match sub.update_full() {
        UpdateFullAction::AwaitDeltaThenFull { delta, full, start: true } => {
            assert_eq!(delta, first);
            full
        }
        other => panic!("unexpected {other:?}"),
    };
    assert_eq!(
        sub.update_full(),
        UpdateFullAction::AwaitDeltaThenFull { delta: first, full, start: false }
    );
    sub.finish_tick(TickKind::Delta, first);
    assert_eq!(sub.update_full(), UpdateFullAction::AwaitFull { full, start: false });
    sub.finish_tick(TickKind::Delta, first);
    assert_eq!(sub.update_full(), UpdateFullAction::AwaitFull { full, start: false });
    sub.finish_tick(TickKind::Full, full);
    assert!(matches!(sub.update_full(), UpdateFullAction::AwaitFull { start: true, .. }));
}

#[test]
fn every_nth_tick_is_full() {
    let mut sub = RefreshSubscription::<i64>::new(10);
    sub.with_periodic_full_refresh(Some(2));
    assert_eq!(sub.periodic_full_refresh_progress(), Some((0, 2)));
    assert!(!sub.next_periodic_tick_is_full());
    sub.note_successful_scheduled_delta_tick();
    assert_eq!(sub.periodic_full_refresh_progress(), Some((1, 2)));
    assert!(sub.next_periodic_tick_is_full());
    sub.with_periodic_full_refresh(None);
    assert_eq!(sub.periodic_full_refresh_progress(), None);
}

#[test]
fn the_reach_of_a_delta() {
    assert_eq!(delta(vec![row(1, 5), row(2, 3)], &[], None).observed_watermark(), Some(5));
    assert_eq!(delta(vec![row(1, 5)], &[], Some(4)).observed_watermark(), Some(5));
    assert_eq!(delta(vec![], &[], Some(4)).observed_watermark(), Some(4));
    assert_eq!(delta(vec![], &[1], None).observed_watermark(), None);
}

#[test]
fn the_refresh_loop_stops_when_it_should() {
    assert_eq!(on_loop_start(false, true), LoopStep::Wait);
    assert_eq!(on_loop_start(true, true), LoopStep::Stop { refuse: false, drain: true });
    assert_eq!(on_loop_start(false, false), LoopStep::Stop { refuse: false, drain: true });
    assert_eq!(on_loop_wake(Wake::Tick, false, true), LoopStep::Run);
    assert_eq!(on_loop_wake(Wake::Tick, false, false), LoopStep::Stop { refuse: false, drain: false });
    assert_eq!(on_loop_wake(Wake::Trigger, false, true), LoopStep::Run);
    assert_eq!(on_loop_wake(Wake::Trigger, true, true), LoopStep::Stop { refuse: true, drain: false });
    assert_eq!(on_loop_wake(Wake::Cancelled, false, true), LoopStep::Stop { refuse: false, drain: true });
    assert_eq!(on_loop_wake(Wake::TriggersClosed, false, true), LoopStep::Stop { refuse: false, drain: false });
}

#[test]
fn runs_are_settled() {
    assert_eq!(settle_run(FetchEnd::Returned(Ok(vec![1])), false, true).unwrap(), vec![1]);
    for result in [
        settle_run(FetchEnd::Returned(Ok(vec![1])), true, true),
        settle_run(FetchEnd::Returned(Ok(vec![1])), false, false),
        settle_run(FetchEnd::Cancelled, false, true),
        Err(refresh_task_stopped_error()),
    ] {
        assert_eq!(
            result.unwrap_err().to_text(),
            "fetch serialization error: refresh task stopped"
        );
    }
    assert!(settle_trigger(true, Some(Ok(()))).is_ok());
    match settle_trigger(true, None) {
        Err(FetchError::Serialization(text)) => {
            assert_eq!(text, "refresh task stopped before replying")
        }
        other => panic!("unexpected {other:?}"),
    }
    match settle_trigger(false, None) {
        Err(FetchError::Serialization(text)) => assert_eq!(text, "refresh task stopped"),
        other => panic!("unexpected {other:?}"),
    }
}

#[test]
fn batches_are_checked_and_deduplicated() {
    let kept =
        check_fetched_batch(&vec![1, 2], "Row", vec![row(2, 1), row(1, 1), row(2, 2)]).unwrap();
    assert_eq!(kept, vec![row(2, 1), row(1, 1)]);
    match check_fetched_batch(&vec![1], "Row", vec![row(1, 1), row(3, 1)]) {
        Err(FetchError::IdentityMismatch { cached_type }) => assert_eq!(cached_type, "Row"),
        other => panic!("unexpected {other:?}"),
    }
    assert!(check_fetched_batch::<Row>(&vec![1], "Row", vec![]).unwrap().is_empty());
    let all = settle_batch(vec![Arc::new(row(5, 0))], Ok(vec![Arc::new(row(6, 0))])).unwrap();
    assert_eq!(all.iter().map(|r| r.id).collect::<Vec<_>>(), vec![5, 6]);
    assert!(matches!(
        settle_batch::<Row>(vec![], Err(InsertError::Conflict)),
        Err(FetchError::Insert(InsertError::Conflict))
    ));
}

#[test]
fn backend_values_are_checked() {
    assert_eq!(check_backend_value(&1, "Row", row(1, 0)).unwrap(), row(1, 0));
    match check_backend_value(&2, "Row", row(1, 0)) {
        Err(BackendError::Serialization(text)) => {
            assert_eq!(text, "backend returned mismatched id for Row")
        }
        other => panic!("unexpected {other:?}"),
    }
}

#[test]
fn fetches_are_settled() {
    assert_eq!(
        settle_fetch(&1, "Row", FetchReply::Returned(Ok(Some(row(1, 0))))).unwrap(),
        Some(row(1, 0))
    );
    assert_eq!(settle_fetch::<Row>(&1, "Row", FetchReply::Returned(Ok(None))).unwrap(), None);
    assert!(matches!(
        settle_fetch(&2, "Row", FetchReply::Returned(Ok(Some(row(1, 0))))),
        Err(FetchErrorClone::IdentityMismatch { .. })
    ));
    match settle_fetch::<Row>(&2, "Row", FetchReply::Panicked("boom".to_owned())) {
        Err(FetchErrorClone::FetcherPanic { cached_type, message }) => {
            assert_eq!(cached_type, "Row");
            assert_eq!(message, "boom");
        }
        _ => panic!("expected a panic"),
    }
    assert!(matches!(
        settle_fetch::<Row>(&2, "Row", FetchReply::Returned(Err(FetchError::Custom("c".to_owned())))),
        Err(FetchErrorClone::CustomRendered(_))
    ));
}

#[test]
fn shared_errors_keep_their_shape() {
    fn shared(err: FetchError) -> FetchError {
        into_clone(err).clone().into_error()
    }
    assert!(matches!(
        shared(FetchError::Backend(BackendError::NotFound)),
        FetchError::Backend(BackendError::NotFound)
    ));
    match shared(FetchError::Backend(BackendError::WireFormat(WireFormatError::InvalidMagic))) {
        FetchError::Backend(BackendError::Serialization(text)) => {
            assert_eq!(text, "wire format has invalid magic header")
        }
        other => panic!("unexpected {other:?}"),
    }
    match shared(FetchError::Insert(InsertError::Serialization("s".to_owned()))) {
        FetchError::Custom(text) => assert_eq!(
            text,
            "insert during fetch: serialization failed during insert: s"
        ),
        other => panic!("unexpected {other:?}"),
    }
    assert!(matches!(
        shared(FetchError::Backend(BackendError::Other("o".to_owned()))),
        FetchError::Backend(BackendError::Other(_))
    ));
    assert!(matches!(
        shared(FetchError::Backend(BackendError::Network("o".to_owned()))),
        FetchError::Backend(BackendError::Network(_))
    ));
    assert!(matches!(shared(FetchError::Serialization("s".to_owned())), FetchError::Serialization(_)));
}

#[test]
fn callers_share_a_fetch() {
    let mut registry = InFlightRegistry::new();
    let first = match registry.attach(7, false) {
        Attach::Start(ticket) => ticket,
        Attach::Join(_) => panic!("nothing was under way"),
    };
    assert_eq!(registry.attach(7, true), Attach::Join(first));
    assert!(matches!(registry.attach(8, true), Attach::Start(_)));
    let second = match registry.attach(7, false) {
        Attach::Start(ticket) => ticket,
        Attach::Join(_) => panic!("the fetch was abandoned"),
    };
    registry.detach(&7, first);
    assert_eq!(registry.ticket(&7), Some(second));
    registry.detach(&7, second);
    assert_eq!(registry.ticket(&7), None);
    assert!(registry.ticket(&8).is_some());
}

#[test]
fn error_texts() {
    assert_eq!(
        WireFormatError::VersionMismatch { got: 3, expected: 1 }.to_text(),
        "wire format major version mismatch: got 3, expected 1"
    );
    assert_eq!(
        WireFormatError::KindMismatch { got: 2, expected: 1 }.to_text(),
        "wire format kind mismatch: got 2, expected 1"
    );
    assert_eq!(BackendError::Network("n".to_owned()).to_text(), "backend network error: n");
    assert_eq!(
        InsertError::BackendFailed(BackendError::NotFound).to_text(),
        "backend write-through failed: backend reports entry not found"
    );
    assert!(PunnuSnapshotError::TooManyEntries { entries: 11, limit: 10 }.to_text().contains("11"));
}

#[test]
fn tenants_are_labels() {
    let acme = TenantKey::from("acme".to_owned());
    assert_eq!(acme.as_str(), "acme");
    assert_eq!(TenantKey::from("acme"), acme);
    assert_eq!(TenantKey::new("x".to_owned()).into_string(), "x");
    assert!(TenantKey::none().is_none());
    assert_eq!(sassi::version(), "0.1.0-beta.4");
}

#[test]
fn missed_events_demand_a_full_update() {
    let mut punnu = pool(10);
    let mut sub = RefreshSubscription::<i64>::new(10);
    sub.note_event_lag();
    assert!(matches!(sub.update_with_kind(), UpdateAction::Await { kind: TickKind::Delta, .. }));

    let mut sub = RefreshSubscription::<i64>::new(10);
    sub.with_eviction_recovery(true);
    sub.note_event_lag();
    let full = match sub.update_with_kind() {
        UpdateAction::Promoted(UpdateFullAction::AwaitFull { full, start: true }) => full,
        other => panic!("unexpected {other:?}"),
    };
    let (start, _) = sub.begin_tick(TickKind::Full);
    let _ = sub.complete_tick(&mut punnu, start, Ok(delta(vec![row(1, 1)], &[], None)), 0);
    sub.finish_tick(TickKind::Full, full);
    assert!(!sub.delta_should_promote_to_full());
}

#[test]
fn rows_that_the_source_deleted_are_not_recovered() {
    let mut punnu = pool(10);
    let mut sub = RefreshSubscription::<i64>::new(10);
    sub.with_eviction_recovery(true);
    let (start, _) = sub.begin_tick(TickKind::Delta);
    let _ = sub.complete_tick(&mut punnu, start, Ok(delta(vec![row(1, 1), row(2, 1)], &[], None)), 0);
    let (start, _) = sub.begin_tick(TickKind::Delta);
    let _ = sub.complete_tick(&mut punnu, start, Ok(delta(vec![], &[1], None)), 0);
    let _ = sub.note_lru_eviction(1);
    assert_eq!(sub.pending_eviction_recovery_count(), 0);
    let _ = sub.note_lru_eviction(2);
    assert_eq!(sub.pending_eviction_recovery_count(), 1);
    assert!(!sub.note_lru_eviction(2));
}

#[test]
fn one_fetch_serves_many_callers() {
    let mut registry = InFlightRegistry::new();
    let ticket = match registry.attach(7, false) {
        Attach::Start(ticket) => ticket,
        Attach::Join(_) => panic!("nothing was under way"),
    };
    for other in 0..5 {
        assert_eq!(registry.attach(7, true), Attach::Join(ticket));
        assert!(matches!(registry.attach(100 + other, false), Attach::Start(_)));
    }

    let mut punnu = pool(10);
    let done = punnu.commit_fetch(&7, "Row", FetchReply::Returned(Ok(Some(row(7, 1)))), 0);
    assert_eq!(done.events.len(), 1);
    let end = match done.result {
        FetchCommit::Done(end) => end,
        FetchCommit::Blocked(_) => panic!("nothing holds the id"),
    };
    let first = hand_out(end.clone()).unwrap().unwrap();
    let second = hand_out(end).unwrap().unwrap();
    assert!(Arc::ptr_eq(&first, &second));
    assert_eq!(punnu.len(), 1);

    let done = punnu.commit_fetch(&7, "Row", FetchReply::Returned(Ok(Some(row(7, 2)))), 0);
    assert!(done.events.is_empty());
    match done.result {
        FetchCommit::Done(Ok(Some(cached))) => assert!(Arc::ptr_eq(&cached, &first)),
        _ => panic!("expected the cached value"),
    }
}

#[test]
fn other_ends_of_a_fetch_leave_the_pool_alone() {
    let mut punnu = pool(10);
    let replies: Vec<FetchReply<Row>> = vec![
        FetchReply::Returned(Ok(None)),
        FetchReply::Returned(Ok(Some(row(2, 0)))),
        FetchReply::Panicked("boom".to_owned()),
        FetchReply::Returned(Err(FetchError::Custom("c".to_owned()))),
    ];
    let mut ends = Vec::new();
    for reply in replies {
        let done = punnu.commit_fetch(&1, "Row", reply, 0);
        assert!(done.events.is_empty() && done.samples.is_empty());
        match done.result {
            FetchCommit::Done(end) => ends.push(hand_out(end)),
            FetchCommit::Blocked(_) => panic!("nothing is inserted"),
        }
        assert!(punnu.is_empty());
    }
    assert!(matches!(ends[0], Ok(None)));
    assert!(matches!(ends[1], Err(FetchError::IdentityMismatch { .. })));
    assert!(matches!(ends[2], Err(FetchError::FetcherPanic { .. })));
    assert!(matches!(ends[3], Err(FetchError::Custom(_))));
}

#[test]
fn given_up_ticks_hand_their_ids_back() {
    let mut punnu = pool(1);
    let mut sub = RefreshSubscription::<i64>::new(1);
    sub.with_eviction_recovery(true);
    let (start, _) = sub.begin_tick(TickKind::Delta);
    let _ = sub.complete_tick(&mut punnu, start, Ok(delta(vec![row(1, 1)], &[], None)), 0);
    let done = punnu.insert(row(9, 9), 0);
    for event in &done.events {
        let _ = sub.note_event(event);
    }
    assert_eq!(sub.pending_eviction_recovery_count(), 1);
    let (start, query) = sub.begin_tick(TickKind::Delta);
    assert!(query.recover_ids.contains(&1));
    assert_eq!(sub.pending_eviction_recovery_count(), 0);
    sub.abandon_tick(start);
    assert_eq!(sub.pending_eviction_recovery_count(), 1);
}

#[test]
fn overflow_is_warned_about_until_noticed() {
    let mut punnu = pool(1);
    let mut sub = RefreshSubscription::<i64>::new(1);
    sub.with_eviction_recovery(true);
    assert!(!sub.overflow_warning_due());
    let (start, _) = sub.begin_tick(TickKind::Delta);
    let items = vec![row(1, 1), row(2, 2), row(3, 3)];
    let _ = sub.complete_tick(&mut punnu, start, Ok(delta(items, &[], None)), 0);
    assert_eq!(sub.pending_eviction_recovery_count(), 2);
    assert!(sub.overflow_warning_due());
    let _ = sub.update_with_kind();
    assert!(!sub.overflow_warning_due());
}

//! Settings of a pool.

use vstd::prelude::*;
use crate::error::BackendError;
use crate::punnu::events::{EventReason, PunnuEvent};
use crate::cacheable::Cacheable;
use crate::time::Duration;
use std::sync::Arc;

verus! {

/// Settings of a pool.
pub struct PunnuConfig {
    /// How many entries the pool holds at most.
    pub lru_size: usize,
    /// How many events a slow subscriber can fall behind.
    pub event_channel_capacity: usize,
    /// What a failing backend does to a call.
    pub backend_failure_mode: BackendFailureMode,
    /// What an insert of a cached id does.
    pub on_conflict: OnConflict,
    /// Time to live of an entry that is inserted without one.
    pub default_ttl: Option<Duration>,
    /// Pause between two sweeps of expired entries; `None` means no sweep.
    pub ttl_sweep_interval: Option<Duration>,
    /// Prefix of every backend key.
    pub namespace: Option<String>,
    /// Where samples are reported to.
    pub metrics: Option<Arc<dyn PunnuMetrics>>,
}

impl Default for PunnuConfig {
    fn default() -> (r: Self)
        ensures
            r.lru_size == 10_000,
            r.event_channel_capacity == 256,
            r.backend_failure_mode == BackendFailureMode::L1Only,
            r.on_conflict == OnConflict::LastWriteWins,
            r.default_ttl is None,
            r.ttl_sweep_interval is None,
            r.namespace is None,
            r.metrics is None,
    {
        PunnuConfig {
            lru_size: 10_000,
            event_channel_capacity: 256,
            backend_failure_mode: BackendFailureMode::L1Only,
            on_conflict: OnConflict::LastWriteWins,
            default_ttl: None,
            ttl_sweep_interval: None,
            namespace: None,
            metrics: None,
        }
    }
}

/// What a failing backend does to a call.
#[derive(Debug, Clone, Copy, PartialEq, Eq, Structural)]
pub enum BackendFailureMode {
    /// The call goes on without the backend.
    L1Only,
    /// The caller gets the error.
    Error,
    /// The backend is asked again, then the call goes on without it.
    Retry {
        /// How often the backend is asked.
        attempts: u8,
    },
}

/// What an insert of a cached id does.
#[derive(Debug, Clone, Copy, PartialEq, Eq, Structural)]
pub enum OnConflict {
    /// The new value replaces the cached one, reported as an insert.
    LastWriteWins,
    /// The insert fails and the cached value stays.
    Reject,
    /// The new value replaces the cached one, reported as an update.
    Update,
}

/// Where a hit was served from.
#[derive(Debug, Clone, Copy, PartialEq, Eq, Structural)]
pub enum CacheTier {
    /// The pool itself.
    L1,
    /// The backend.
    L2,
}

/// Receiver of samples. The first argument names the cached type.
pub trait PunnuMetrics: Send + Sync {
    /// A lookup was served from `tier`.
    fn record_hit(&self, cached_type: &str, tier: CacheTier);

    /// A lookup found nothing.
    fn record_miss(&self, cached_type: &str);

    /// An entry left the pool.
    fn record_eviction(&self, cached_type: &str, reason: EventReason);

    /// A backend operation failed.
    fn record_backend_error(&self, cached_type: &str, err: &BackendError);

    /// A fetch took `duration` from end to end.
    fn record_fetch_latency(&self, cached_type: &str, duration: Duration);

    /// The pool holds `size` entries.
    fn record_lru_size(&self, cached_type: &str, size: usize);
}

/// One sample that an operation of the pool gives rise to.
#[derive(Debug, Clone, Copy, PartialEq, Eq, Structural)]
pub enum Sample {
    /// A lookup was served from the tier.
    Hit(CacheTier),
    /// A lookup found nothing.
    Miss,
    /// An entry left the pool for the reason.
    Eviction(EventReason),
    /// The pool holds this many entries.
    LruSize(usize),
}

/// One eviction sample per invalidation among `events`, in order.
pub open spec fn eviction_samples<T: Cacheable>(events: Seq<PunnuEvent<T>>) -> Seq<Sample>
    decreases events.len(),
{
    if events.len() == 0 {
        Seq::empty()
    } else {
        let before = eviction_samples(events.drop_last());
        match events.last() {
            PunnuEvent::Invalidate { id, reason } => before.push(Sample::Eviction(reason)),
            _ => before,
        }
    }
}

/// The samples of a write that produced `events` and left `len` entries: its
/// evictions and, where there was any event, the new size.
pub open spec fn committed_samples<T: Cacheable>(events: Seq<PunnuEvent<T>>, len: usize) -> Seq<
    Sample,
> {
    if events.len() == 0 {
        Seq::empty()
    } else {
        eviction_samples(events).push(Sample::LruSize(len))
    }
}

/// Collects the samples of a write that produced `events` and left `post_len`
/// entries.
pub fn emit_committed_events<T: Cacheable>(events: &Vec<PunnuEvent<T>>, post_len: usize) -> (r: Vec<
    Sample,
>)
    ensures
        r@ == committed_samples(events@, post_len),
{
    let mut samples: Vec<Sample> = Vec::new();
    let mut i: usize = 0;
    while i < events.len()
        invariant
            i <= events@.len(),
            samples@ == eviction_samples(events@.subrange(0, i as int)),
        decreases events@.len() - i,
    {
        match &events[i] {
            PunnuEvent::Invalidate { id: _, reason } => {
                samples.push(Sample::Eviction(*reason));
            },
            PunnuEvent::Insert { value: _ } => {},
            PunnuEvent::Update { old: _, new: _ } => {},
        }
        i += 1;
        assert(events@.subrange(0, i as int).drop_last() =~= events@.subrange(0, i - 1));
    }
    assert(events@.subrange(0, i as int) =~= events@);
    if events.len() > 0 {
        samples.push(Sample::LruSize(post_len));
    }
    samples
}

} // verus!

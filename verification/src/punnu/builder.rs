//! Building a pool, and what stops it.

use vstd::prelude::*;
use vstd::string::*;
use crate::cacheable::Cacheable;
use crate::punnu::config::{BackendFailureMode, OnConflict, PunnuConfig};
use crate::punnu::pool::Punnu;
use crate::punnu::state::Entry;
use std::marker::PhantomData;

verus! {

/// Settings of a pool that is not built yet.
pub struct PunnuBuilder<T: Cacheable> {
    /// The settings.
    pub config: PunnuConfig,
    /// Whether the pool gets a backend.
    pub backend_attached: bool,
    /// The cached type.
    pub marker: PhantomData<T>,
}

/// Why a pool cannot be built.
#[derive(Debug, Clone, Copy, PartialEq, Eq, Structural)]
pub enum BuildError {
    /// The pool would have room for nothing.
    ZeroCapacity,
    /// The sweep would never pause.
    ZeroSweepInterval,
    /// The event channel would have room for nothing.
    ZeroEventCapacity,
    /// The namespace is there and empty.
    EmptyNamespace,
    /// The backend would never be asked.
    ZeroAttempts,
    /// A background task is needed and there is nothing to run it.
    NoRuntime,
}

impl BuildError {
    /// What the error says.
    pub open spec fn message(&self) -> Seq<char> {
        match self {
            BuildError::ZeroCapacity =>
                "PunnuConfig::lru_size must be non-zero (got 0); a zero-capacity LRU evicts every insert immediately"@,
            BuildError::ZeroSweepInterval =>
                "PunnuConfig::ttl_sweep_interval must be greater than Duration::ZERO; use None to disable the background sweep"@,
            BuildError::ZeroEventCapacity =>
                "PunnuConfig::event_channel_capacity must be greater than 0; the broadcast channel rejects a zero capacity"@,
            BuildError::EmptyNamespace =>
                "PunnuConfig::namespace must be non-empty when set; use None to disable namespacing. An empty string would silently prefix L2 backend keys with a leading separator and could collide with un-namespaced deployments."@,
            BuildError::ZeroAttempts => "BackendFailureMode::Retry requires attempts >= 1"@,
            BuildError::NoRuntime =>
                "PunnuBuilder::build requires an active Tokio runtime when a backend is attached or ttl_sweep_interval is configured"@,
        }
    }

    /// Renders the error.
    pub fn to_text(&self) -> (r: &'static str)
        ensures
            r@ == self.message(),
    {
        match self {
            BuildError::ZeroCapacity =>
                "PunnuConfig::lru_size must be non-zero (got 0); a zero-capacity LRU evicts every insert immediately",
            BuildError::ZeroSweepInterval =>
                "PunnuConfig::ttl_sweep_interval must be greater than Duration::ZERO; use None to disable the background sweep",
            BuildError::ZeroEventCapacity =>
                "PunnuConfig::event_channel_capacity must be greater than 0; the broadcast channel rejects a zero capacity",
            BuildError::EmptyNamespace =>
                "PunnuConfig::namespace must be non-empty when set; use None to disable namespacing. An empty string would silently prefix L2 backend keys with a leading separator and could collide with un-namespaced deployments.",
            BuildError::ZeroAttempts => "BackendFailureMode::Retry requires attempts >= 1",
            BuildError::NoRuntime =>
                "PunnuBuilder::build requires an active Tokio runtime when a backend is attached or ttl_sweep_interval is configured",
        }
    }
}

/// The first thing that is wrong with the settings.
pub open spec fn build_problem(
    config: PunnuConfig,
    backend_attached: bool,
    runtime_active: bool,
) -> Option<BuildError> {
    if config.lru_size == 0 {
        Some(BuildError::ZeroCapacity)
    } else if config.ttl_sweep_interval == Some(0u128) {
        Some(BuildError::ZeroSweepInterval)
    } else if config.event_channel_capacity == 0 {
        Some(BuildError::ZeroEventCapacity)
    } else if config.namespace matches Some(namespace) && namespace@.len() == 0 {
        Some(BuildError::EmptyNamespace)
    } else if config.backend_failure_mode == (BackendFailureMode::Retry { attempts: 0 }) {
        Some(BuildError::ZeroAttempts)
    } else if (config.ttl_sweep_interval is Some || backend_attached) && !runtime_active {
        Some(BuildError::NoRuntime)
    } else {
        None
    }
}

impl<T: Cacheable> PunnuBuilder<T> {
    /// The settings are the default ones.
    pub open spec fn has_default_settings(&self) -> bool {
        let c = self.config;
        &&& c.lru_size == 10_000
        &&& c.event_channel_capacity == 256
        &&& c.backend_failure_mode == BackendFailureMode::L1Only
        &&& c.on_conflict == OnConflict::LastWriteWins
        &&& c.default_ttl is None
        &&& c.ttl_sweep_interval is None
        &&& c.namespace is None
        &&& c.metrics is None
    }

    /// Starts with the default settings.
    pub fn new() -> (r: Self)
        ensures
            r.has_default_settings(),
            !r.backend_attached,
    {
        PunnuBuilder { config: PunnuConfig::default(), backend_attached: false, marker: PhantomData }
    }

    /// Replaces the settings.
    pub fn config(self, config: PunnuConfig) -> (r: Self)
        ensures
            r.config == config,
            r.backend_attached == self.backend_attached,
    {
        PunnuBuilder { config, ..self }
    }

    /// Marks the pool as one with a backend.
    pub fn backend(self) -> (r: Self)
        ensures
            r.config == self.config,
            r.backend_attached,
    {
        PunnuBuilder { backend_attached: true, ..self }
    }

    /// Finds the first thing that is wrong with the settings, given whether
    /// background tasks can run.
    pub fn check(&self, runtime_active: bool) -> (r: Result<(), BuildError>)
        ensures
            r == match build_problem(self.config, self.backend_attached, runtime_active) {
                Some(e) => Err::<(), BuildError>(e),
                None => Ok(()),
            },
    {
        if self.config.lru_size == 0 {
            return Err(BuildError::ZeroCapacity);
        }
        match self.config.ttl_sweep_interval {
            Some(d) => {
                if d == 0 {
                    return Err(BuildError::ZeroSweepInterval);
                }
            },
            None => {},
        }
        if self.config.event_channel_capacity == 0 {
            return Err(BuildError::ZeroEventCapacity);
        }
        match &self.config.namespace {
            Some(namespace) => {
                if namespace.as_str().is_empty() {
                    return Err(BuildError::EmptyNamespace);
                }
            },
            None => {},
        }
        match self.config.backend_failure_mode {
            BackendFailureMode::Retry { attempts } => {
                if attempts == 0 {
                    return Err(BuildError::ZeroAttempts);
                }
            },
            BackendFailureMode::L1Only => {},
            BackendFailureMode::Error => {},
        }
        if (self.config.ttl_sweep_interval.is_some() || self.backend_attached) && !runtime_active {
            return Err(BuildError::NoRuntime);
        }
        Ok(())
    }

    /// Builds the pool, empty, or says what is wrong with the settings.
    pub fn build(self, runtime_active: bool) -> (r: Result<Punnu<T>, BuildError>)
        ensures
            match build_problem(self.config, self.backend_attached, runtime_active) {
                Some(e) => r == Err::<Punnu<T>, BuildError>(e),
                None => r matches Ok(pool) && {
                    &&& pool.wf()
                    &&& pool.settings() == self.config
                    &&& pool.entries() == Map::<i64, Entry<T>>::empty()
                    &&& pool.order() == Seq::<i64>::empty()
                    &&& pool.reserved() == Set::<i64>::empty()
                    &&& pool.clock() == 0
                },
            },
    {
        match self.check(runtime_active) {
            Ok(()) => Ok(Punnu::with_config(self.config)),
            Err(e) => Err(e),
        }
    }
}

impl<T: Cacheable> Default for PunnuBuilder<T> {
    fn default() -> (r: Self)
        ensures
            r.has_default_settings(),
            !r.backend_attached,
    {
        PunnuBuilder::new()
    }
}

/// A pool is built exactly where it has room, sweeps and sends with a capacity, has a
/// namespace that is not empty where it has one, asks its backend at least once, and has a
/// runtime where it needs one.
pub proof fn sound_settings_are_built(
    config: PunnuConfig,
    backend_attached: bool,
    runtime_active: bool,
)
    ensures
        build_problem(config, backend_attached, runtime_active) is None <==> {
            &&& config.lru_size > 0
            &&& config.event_channel_capacity > 0
            &&& config.ttl_sweep_interval matches Some(d) ==> d > 0
            &&& config.namespace matches Some(text) ==> text@.len() > 0
            &&& config.backend_failure_mode matches BackendFailureMode::Retry { attempts }
                ==> attempts > 0
            &&& config.ttl_sweep_interval is Some ==> runtime_active
            &&& backend_attached ==> runtime_active
        },
        config.lru_size == 0 ==> build_problem(config, backend_attached, runtime_active) == Some(
            BuildError::ZeroCapacity,
        ),
{
}

} // verus!

//! What a pool reports about its entries.

use vstd::prelude::*;
use crate::cacheable::Cacheable;
use std::sync::Arc;

verus! {

/// One observable change of a pool.
#[verifier::reject_recursive_types(T)]
pub enum PunnuEvent<T: Cacheable> {
    /// An entry landed in the pool.
    Insert {
        /// Newly cached value.
        value: Arc<T>,
    },
    /// An entry was replaced in a pool that reports replacements.
    Update {
        /// Value that was replaced.
        old: Arc<T>,
        /// Value that is cached now.
        new: Arc<T>,
    },
    /// An entry left the pool.
    Invalidate {
        /// Id of the entry.
        id: i64,
        /// Why it left.
        reason: EventReason,
    },
}

impl<T: Cacheable> Clone for PunnuEvent<T> {
    fn clone(&self) -> (r: Self)
        ensures
            r == *self,
    {
        match self {
            PunnuEvent::Insert { value } => PunnuEvent::Insert { value: value.clone() },
            PunnuEvent::Update { old, new } => PunnuEvent::Update {
                old: old.clone(),
                new: new.clone(),
            },
            PunnuEvent::Invalidate { id, reason } => PunnuEvent::Invalidate {
                id: *id,
                reason: *reason,
            },
        }
    }
}

/// Why a caller invalidates an entry.
#[non_exhaustive]
#[derive(Debug, Clone, Copy, PartialEq, Eq, Structural)]
pub enum InvalidationReason {
    /// The caller asked for it.
    Manual,
    /// The source of truth was saved.
    OnSave,
    /// The source of truth was deleted.
    OnDelete,
}

/// Seal on the reasons that only the library gives.
#[non_exhaustive]
#[derive(Debug, Clone, Copy, PartialEq, Eq, Structural)]
pub struct Internal {}

impl Internal {
    /// The seal.
    pub open spec fn seal() -> Internal {
        Internal {  }
    }

    /// Makes the seal.
    pub(crate) fn new() -> (r: Self)
        ensures
            r == Internal::seal(),
    {
        Internal {  }
    }
}

/// Why an entry left the pool.
#[non_exhaustive]
#[derive(Debug, Clone, Copy, PartialEq, Eq, Structural)]
pub enum EventReason {
    /// The caller asked for it.
    Manual,
    /// The source of truth was saved.
    OnSave,
    /// The source of truth was deleted.
    OnDelete,
    /// The pool was over capacity.
    LruEvict(Internal),
    /// The entry's time to live had passed.
    TtlExpired(Internal),
    /// The backend reported the entry stale.
    BackendInvalidation(Internal),
}

impl EventReason {
    /// The reason of an eviction under capacity pressure.
    pub open spec fn spec_lru_evict() -> EventReason {
        EventReason::LruEvict(Internal::seal())
    }

    /// The reason of an expiry.
    pub open spec fn spec_ttl_expired() -> EventReason {
        EventReason::TtlExpired(Internal::seal())
    }

    /// The reason of an invalidation that the backend reported.
    pub open spec fn spec_backend_invalidation() -> EventReason {
        EventReason::BackendInvalidation(Internal::seal())
    }

    /// The reason of an eviction under capacity pressure.
    pub(crate) fn lru_evict() -> (r: Self)
        ensures
            r == EventReason::spec_lru_evict(),
    {
        EventReason::LruEvict(Internal::new())
    }

    /// The reason of an expiry.
    pub(crate) fn ttl_expired() -> (r: Self)
        ensures
            r == EventReason::spec_ttl_expired(),
    {
        EventReason::TtlExpired(Internal::new())
    }

    /// The reason of an invalidation that the backend reported.
    pub(crate) fn backend_invalidation() -> (r: Self)
        ensures
            r == EventReason::spec_backend_invalidation(),
    {
        EventReason::BackendInvalidation(Internal::new())
    }
}

impl From<InvalidationReason> for EventReason {
    fn from(r: InvalidationReason) -> (reason: Self) {
        match r {
            InvalidationReason::Manual => EventReason::Manual,
            InvalidationReason::OnSave => EventReason::OnSave,
            InvalidationReason::OnDelete => EventReason::OnDelete,
        }
    }
}

impl vstd::std_specs::convert::FromSpecImpl<InvalidationReason> for EventReason {
    open spec fn obeys_from_spec() -> bool {
        true
    }

    open spec fn from_spec(r: InvalidationReason) -> EventReason {
        match r {
            InvalidationReason::Manual => EventReason::Manual,
            InvalidationReason::OnSave => EventReason::OnSave,
            InvalidationReason::OnDelete => EventReason::OnDelete,
        }
    }
}

/// No reason that a caller can give is one of the library's own.
pub proof fn callers_cannot_give_internal_reasons(r: InvalidationReason)
    ensures
        ({
            let reason = <EventReason as vstd::std_specs::convert::FromSpec<
                InvalidationReason,
            >>::from_spec(r);
            reason is Manual || reason is OnSave || reason is OnDelete
        }),
{
}

/// A caller's reason is told as it was given.
pub proof fn reasons_are_told_as_given(r: InvalidationReason)
    ensures
        ({
            let reason = <EventReason as vstd::std_specs::convert::FromSpec<
                InvalidationReason,
            >>::from_spec(r);
            &&& r is Manual <==> reason is Manual
            &&& r is OnSave <==> reason is OnSave
            &&& r is OnDelete <==> reason is OnDelete
        }),
        EventReason::spec_lru_evict() is LruEvict,
        EventReason::spec_ttl_expired() is TtlExpired,
        EventReason::spec_backend_invalidation() is BackendInvalidation,
{
}

} // verus!

//! The backend of a pool that has none.

use vstd::prelude::*;
use crate::backend::keyspace::BackendKeyspace;
use crate::error::BackendError;
use crate::time::Duration;

verus! {

/// A backend that stores nothing.
#[derive(Debug, Clone, Copy)]
pub struct NoBackend;

impl NoBackend {
    /// Finds nothing.
    pub fn get<T>(&self, _keyspace: &BackendKeyspace, _id: &i64) -> (r: Result<
        Option<T>,
        BackendError,
    >)
        ensures
            r == Ok::<Option<T>, BackendError>(None),
    {
        Ok(None)
    }

    /// Stores nothing.
    pub fn put<T>(
        &self,
        _keyspace: &BackendKeyspace,
        _id: &i64,
        _value: &T,
        _ttl: Option<Duration>,
    ) -> (r: Result<(), BackendError>)
        ensures
            r == Ok::<(), BackendError>(()),
    {
        Ok(())
    }

    /// Drops nothing.
    pub fn invalidate(&self, _keyspace: &BackendKeyspace, _id: &i64) -> (r: Result<
        (),
        BackendError,
    >)
        ensures
            r == Ok::<(), BackendError>(()),
    {
        Ok(())
    }

    /// Drops nothing.
    pub fn invalidate_all(&self, _keyspace: &BackendKeyspace) -> (r: Result<(), BackendError>)
        ensures
            r == Ok::<(), BackendError>(()),
    {
        Ok(())
    }
}

impl Default for NoBackend {
    fn default() -> (r: Self)
        ensures
            r == NoBackend,
    {
        NoBackend
    }
}

} // verus!

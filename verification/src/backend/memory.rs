//! A backend that keeps containers in memory.

use vstd::prelude::*;
use crate::backend::keyspace::{
    keyspace_storage_key,
    keyspace_storage_key_prefix,
    BackendKeyspace,
};
use crate::cacheable::Cacheable;
use crate::error::BackendError;
use crate::payload::WirePayload;
use crate::text::{starts_with_codes, text_codes};
use crate::time::{expiry_deadline, Duration, Instant};
use crate::wire::{from_slice, to_vec};
use std::collections::hash_map::RandomState;

verus! {

/// `dashmap::DashMap`, a map that can be shared.
#[verifier::external_type_specification]
#[verifier::external_body]
#[verifier::reject_recursive_types(K)]
#[verifier::reject_recursive_types(V)]
#[verifier::reject_recursive_types(S)]
pub struct ExDashMap<K, V, S>(dashmap::DashMap<K, V, S>);

/// What a map of cells holds: for each key the bytes and when they expire.
pub uninterp spec fn cells(
    map: dashmap::DashMap<String, (Vec<u8>, Option<u128>), RandomState>,
) -> Map<Seq<char>, (Seq<u8>, Option<u128>)>;

/// A cell, its bytes seen as a sequence.
pub open spec fn seen_cell(r: Option<(Vec<u8>, Option<u128>)>) -> Option<
    (Seq<u8>, Option<u128>),
> {
    match r {
        Some((bytes, expires_at)) => Some((bytes@, expires_at)),
        None => None,
    }
}

/// The value of a key.
pub open spec fn found(
    m: Map<Seq<char>, (Seq<u8>, Option<u128>)>,
    key: Seq<char>,
) -> Option<(Seq<u8>, Option<u128>)> {
    if m.dom().contains(key) {
        Some(m[key])
    } else {
        None
    }
}

/// The entries whose keys do not start with `prefix`.
pub open spec fn without_prefix(
    m: Map<Seq<char>, (Seq<u8>, Option<u128>)>,
    prefix: Seq<char>,
) -> Map<Seq<char>, (Seq<u8>, Option<u128>)> {
    Map::new(|key: Seq<char>| m.dom().contains(key)
        && !prefix.is_prefix_of(key), |key: Seq<char>| m[key])
}

/// No entries.
pub open spec fn no_cells() -> Map<Seq<char>, (Seq<u8>, Option<u128>)> {
    Map::empty()
}

/// Makes an empty map. Calls `DashMap::new`.
#[verifier::external_body]
fn cells_new() -> (r: dashmap::DashMap<String, (Vec<u8>, Option<u128>), RandomState>)
    ensures
        cells(r) == no_cells(),
{
    dashmap::DashMap::new()
}

/// Looks up a key and copies its cell. Calls `DashMap::get`, which finds the cell of the
/// key where there is one.
#[verifier::external_body]
fn cells_get(
    map: &dashmap::DashMap<String, (Vec<u8>, Option<u128>), RandomState>,
    key: &String,
) -> (r: Option<(Vec<u8>, Option<u128>)>)
    ensures
        seen_cell(r) == found(cells(*map), key@),
{
    map.get(key).map(|cell| cell.value().clone())
}

/// Sets the cell of a key. Calls `DashMap::insert`, which replaces the cell of the key and
/// leaves the others alone.
#[verifier::external_body]
fn cells_insert(
    map: &mut dashmap::DashMap<String, (Vec<u8>, Option<u128>), RandomState>,
    key: String,
    cell: (Vec<u8>, Option<u128>),
)
    ensures
        cells(*final(map)) == cells(*old(map)).insert(key@, (cell.0@, cell.1)),
{
    map.insert(key, cell);
}

/// Drops the cell of a key. Calls `DashMap::remove`, which removes the key where it is
/// there and leaves the others alone.
#[verifier::external_body]
fn cells_remove(
    map: &mut dashmap::DashMap<String, (Vec<u8>, Option<u128>), RandomState>,
    key: &String,
)
    ensures
        cells(*final(map)) == cells(*old(map)).remove(key@),
{
    map.remove(key);
}

/// Drops the cells whose keys start with `prefix`. Calls `DashMap::retain`, which keeps
/// exactly the entries that its test passes, as they are.
#[verifier::external_body]
fn cells_retain(
    map: &mut dashmap::DashMap<String, (Vec<u8>, Option<u128>), RandomState>,
    prefix: &String,
)
    ensures
        cells(*final(map)) == without_prefix(cells(*old(map)), prefix@),
{
    map.retain(|key, _| lacks_prefix(key, prefix));
}

/// Tells whether a key does not start with `prefix`.
fn lacks_prefix(key: &String, prefix: &String) -> (r: bool)
    ensures
        r == !prefix@.is_prefix_of(key@),
{
    let a = text_codes(key.as_str(), false);
    let b = text_codes(prefix.as_str(), false);
    proof {
        if prefix@.len() <= key@.len() {
            let start = key@.take(prefix@.len() as int);
            assert(a@.subrange(0, b@.len() as int) =~= crate::text::codes(start, false));
            crate::text::lemma_codes_determine_text(start, prefix@);
        }
    }
    !starts_with_codes(&a, &b)
}

/// A backend that keeps containers in memory.
pub struct MemoryBackend {
    entries: dashmap::DashMap<String, (Vec<u8>, Option<u128>), RandomState>,
}

impl MemoryBackend {
    /// For each key the container and when it expires.
    pub closed spec fn contents(&self) -> Map<Seq<char>, (Seq<u8>, Option<Instant>)> {
        cells(self.entries)
    }

    /// Makes a backend that holds nothing.
    pub fn new() -> (r: Self)
        ensures
            r.contents() == Map::<Seq<char>, (Seq<u8>, Option<Instant>)>::empty(),
    {
        MemoryBackend { entries: cells_new() }
    }

    /// Reads the value of an id. A container that has expired is dropped.
    pub fn get<T: Cacheable + WirePayload>(
        &mut self,
        keyspace: &BackendKeyspace,
        id: &i64,
        now: Instant,
    ) -> (r: Result<Option<T>, BackendError>)
        ensures
            ({
                let key = crate::backend::keyspace::storage_key(*keyspace, *id);
                match found(old(self).contents(), key) {
                    None => r == Ok::<Option<T>, BackendError>(None) && final(self).contents()
                        == old(self).contents(),
                    Some((bytes, expires_at)) => if crate::time::reached(expires_at, now) {
                        r == Ok::<Option<T>, BackendError>(None)
                            && final(self).contents() == old(self).contents().remove(key)
                    } else {
                        crate::backend::keyspace::may_find::<T>(bytes, r) && final(self).contents()
                            == old(self).contents()
                    },
                }
            }),
    {
        let key = match keyspace_storage_key(keyspace, id) {
            Ok(key) => key,
            Err(err) => {
                return Err(err);
            },
        };
        let cell = match cells_get(&self.entries, &key) {
            Some(cell) => cell,
            None => {
                return Ok(None);
            },
        };
        let expired = match cell.1 {
            Some(deadline) => deadline <= now,
            None => false,
        };
        if expired {
            cells_remove(&mut self.entries, &key);
            return Ok(None);
        }
        match from_slice::<T>(cell.0.as_slice()) {
            Ok(value) => Ok(Some(value)),
            Err(err) => Err(BackendError::WireFormat(err)),
        }
    }

    /// Stores the value of an id.
    pub fn put<T: Cacheable + WirePayload>(
        &mut self,
        keyspace: &BackendKeyspace,
        id: &i64,
        value: &T,
        ttl: Option<Duration>,
        now: Instant,
    ) -> (r: Result<(), BackendError>)
        ensures
            match r {
                Ok(()) => exists|bytes: Vec<u8>| #[trigger]
                    crate::wire::may_write(*value, crate::wire::KIND_VALUE, Ok(bytes))
                        && final(self).contents() == old(self).contents().insert(
                        crate::backend::keyspace::storage_key(*keyspace, *id),
                        (bytes@, crate::time::deadline(now, ttl)),
                    ),
                Err(err) => {
                    &&& err matches BackendError::WireFormat(e) && crate::wire::may_write(
                        *value,
                        crate::wire::KIND_VALUE,
                        Err(e),
                    )
                    &&& final(self).contents() == old(self).contents()
                },
            },
    {
        let key = match keyspace_storage_key(keyspace, id) {
            Ok(key) => key,
            Err(err) => {
                return Err(err);
            },
        };
        let expires_at = expiry_deadline(now, ttl);
        match to_vec(value) {
            Ok(bytes) => {
                assert(crate::wire::may_write(*value, crate::wire::KIND_VALUE, Ok(bytes)));
                cells_insert(&mut self.entries, key, (bytes, expires_at));
                Ok(())
            },
            Err(err) => Err(BackendError::WireFormat(err)),
        }
    }

    /// Drops the value of an id.
    pub fn invalidate(&mut self, keyspace: &BackendKeyspace, id: &i64) -> (r: Result<
        (),
        BackendError,
    >)
        ensures
            r is Ok,
            final(self).contents() == old(self).contents().remove(
                crate::backend::keyspace::storage_key(*keyspace, *id),
            ),
    {
        let key = match keyspace_storage_key(keyspace, id) {
            Ok(key) => key,
            Err(err) => {
                return Err(err);
            },
        };
        cells_remove(&mut self.entries, &key);
        Ok(())
    }

    /// Drops every value of a keyspace.
    pub fn invalidate_all(&mut self, keyspace: &BackendKeyspace) -> (r: Result<(), BackendError>)
        ensures
            r is Ok,
            final(self).contents() == without_prefix(
                old(self).contents(),
                crate::backend::keyspace::key_prefix(*keyspace),
            ),
    {
        let prefix = keyspace_storage_key_prefix(keyspace);
        cells_retain(&mut self.entries, &prefix);
        Ok(())
    }
}

impl Default for MemoryBackend {
    fn default() -> (r: Self)
        ensures
            r.contents() == Map::<Seq<char>, (Seq<u8>, Option<Instant>)>::empty(),
    {
        MemoryBackend::new()
    }
}

} // verus!

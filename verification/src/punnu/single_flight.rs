//! One fetch for each id at a time.

use vstd::prelude::*;
use vstd::string::*;
use crate::cacheable::Cacheable;
use crate::error::{BackendError, FetchError};
use std::collections::hash_map::RandomState;

verus! {

/// What a map of tickets holds.
pub uninterp spec fn tickets(map: dashmap::DashMap<i64, u64, RandomState>) -> Map<i64, u64>;

/// No tickets.
pub open spec fn no_tickets() -> Map<i64, u64> {
    Map::empty()
}

/// The ticket of an id.
pub open spec fn ticket_of(m: Map<i64, u64>, id: i64) -> Option<u64> {
    if m.dom().contains(id) {
        Some(m[id])
    } else {
        None
    }
}

/// Makes an empty map. Calls `DashMap::new`.
#[verifier::external_body]
fn tickets_new() -> (r: dashmap::DashMap<i64, u64, RandomState>)
    ensures
        tickets(r) == no_tickets(),
{
    dashmap::DashMap::new()
}

/// Looks up an id. Calls `DashMap::get`, which finds the value of the key where there is
/// one.
#[verifier::external_body]
fn tickets_get(map: &dashmap::DashMap<i64, u64, RandomState>, id: &i64) -> (r: Option<u64>)
    ensures
        r == ticket_of(tickets(*map), *id),
{
    map.get(id).map(|ticket| *ticket.value())
}

/// Sets the ticket of an id. Calls `DashMap::insert`, which replaces the value of the key
/// and leaves the others alone.
#[verifier::external_body]
fn tickets_insert(map: &mut dashmap::DashMap<i64, u64, RandomState>, id: i64, ticket: u64)
    ensures
        tickets(*final(map)) == tickets(*old(map)).insert(id, ticket),
{
    map.insert(id, ticket);
}

/// Drops an id where its ticket is `ticket`. Calls `DashMap::remove_if`, which removes the
/// key where it is there and its test passes, and leaves the others alone.
#[verifier::external_body]
fn tickets_remove_if(map: &mut dashmap::DashMap<i64, u64, RandomState>, id: &i64, ticket: u64)
    ensures
        tickets(*final(map)) == detached(tickets(*old(map)), *id, ticket),
{
    map.remove_if(id, |_, current| is_ticket(current, ticket));
}

/// Tells whether two tickets are the same.
fn is_ticket(current: &u64, ticket: u64) -> (r: bool)
    ensures
        r == (*current == ticket),
{
    *current == ticket
}

/// A fetch error as every caller that waits for the fetch gets it.
#[derive(Debug, Clone)]
pub enum FetchErrorClone {
    /// The backend has no such entry.
    BackendNotFound,
    /// The backend could not encode or decode a payload.
    BackendSerialization(String),
    /// The backend could not be reached.
    BackendNetwork(String),
    /// Another error of the backend, rendered.
    BackendOtherRendered(String),
    /// A fetched payload could not be encoded or decoded.
    Serialization(String),
    /// The fetcher panicked.
    FetcherPanic {
        /// Name of the cached type.
        cached_type: String,
        /// What the panic said.
        message: String,
    },
    /// The fetcher returned a value of another id.
    IdentityMismatch {
        /// Name of the cached type.
        cached_type: String,
    },
    /// The fetcher's own error, rendered.
    CustomRendered(String),
    /// The fetched value could not be inserted, rendered.
    InsertRendered(String),
}

/// `c` is what the callers get for `e`.
pub open spec fn is_render_of(e: FetchError, c: FetchErrorClone) -> bool {
    match e {
        FetchError::Backend(BackendError::NotFound) => c is BackendNotFound,
        FetchError::Backend(BackendError::Serialization(s)) => c
            == FetchErrorClone::BackendSerialization(s),
        FetchError::Backend(BackendError::Network(s)) => c == FetchErrorClone::BackendNetwork(s),
        FetchError::Backend(BackendError::WireFormat(err)) => c
            matches FetchErrorClone::BackendSerialization(s) && s@ == err.message(),
        FetchError::Backend(BackendError::Other(s)) => c == FetchErrorClone::BackendOtherRendered(
            s,
        ),
        FetchError::Serialization(s) => c == FetchErrorClone::Serialization(s),
        FetchError::FetcherPanic { cached_type, message } => c == FetchErrorClone::FetcherPanic {
            cached_type,
            message,
        },
        FetchError::IdentityMismatch { cached_type } => c == FetchErrorClone::IdentityMismatch {
            cached_type,
        },
        FetchError::Custom(s) => c == FetchErrorClone::CustomRendered(s),
        FetchError::Insert(err) => c matches FetchErrorClone::InsertRendered(s) && s@
            == err.message(),
    }
}

/// `e` is what a caller makes of `c`.
pub open spec fn is_restored(c: FetchErrorClone, e: FetchError) -> bool {
    match c {
        FetchErrorClone::BackendNotFound => e matches FetchError::Backend(BackendError::NotFound),
        FetchErrorClone::BackendSerialization(s) => e == FetchError::Backend(
            BackendError::Serialization(s),
        ),
        FetchErrorClone::BackendNetwork(s) => e == FetchError::Backend(BackendError::Network(s)),
        FetchErrorClone::BackendOtherRendered(s) => e == FetchError::Backend(
            BackendError::Other(s),
        ),
        FetchErrorClone::Serialization(s) => e == FetchError::Serialization(s),
        FetchErrorClone::FetcherPanic { cached_type, message } => e == FetchError::FetcherPanic {
            cached_type,
            message,
        },
        FetchErrorClone::IdentityMismatch { cached_type } => e == FetchError::IdentityMismatch {
            cached_type,
        },
        FetchErrorClone::CustomRendered(s) => e == FetchError::Custom(s),
        FetchErrorClone::InsertRendered(s) => e matches FetchError::Custom(t) && t@
            == "insert during fetch: "@ + s@,
    }
}

/// Renders an error for all callers.
pub fn into_clone(err: FetchError) -> (r: FetchErrorClone)
    ensures
        is_render_of(err, r),
{
    match err {
        FetchError::Backend(BackendError::NotFound) => FetchErrorClone::BackendNotFound,
        FetchError::Backend(BackendError::Serialization(s)) =>
            FetchErrorClone::BackendSerialization(s),
        FetchError::Backend(BackendError::Network(s)) => FetchErrorClone::BackendNetwork(s),
        FetchError::Backend(BackendError::WireFormat(e)) => FetchErrorClone::BackendSerialization(
            e.to_text(),
        ),
        FetchError::Backend(BackendError::Other(s)) => FetchErrorClone::BackendOtherRendered(s),
        FetchError::Serialization(s) => FetchErrorClone::Serialization(s),
        FetchError::FetcherPanic { cached_type, message } => FetchErrorClone::FetcherPanic {
            cached_type,
            message,
        },
        FetchError::IdentityMismatch { cached_type } => FetchErrorClone::IdentityMismatch {
            cached_type,
        },
        FetchError::Custom(s) => FetchErrorClone::CustomRendered(s),
        FetchError::Insert(e) => FetchErrorClone::InsertRendered(e.to_text()),
    }
}

impl FetchErrorClone {
    /// Makes a fetch error of what a caller got.
    pub fn into_error(self) -> (r: FetchError)
        ensures
            is_restored(self, r),
    {
        match self {
            FetchErrorClone::BackendNotFound => FetchError::Backend(BackendError::NotFound),
            FetchErrorClone::BackendSerialization(s) => FetchError::Backend(
                BackendError::Serialization(s),
            ),
            FetchErrorClone::BackendNetwork(s) => FetchError::Backend(BackendError::Network(s)),
            FetchErrorClone::BackendOtherRendered(s) => FetchError::Backend(
                BackendError::Other(s),
            ),
            FetchErrorClone::Serialization(s) => FetchError::Serialization(s),
            FetchErrorClone::FetcherPanic { cached_type, message } => FetchError::FetcherPanic {
                cached_type,
                message,
            },
            FetchErrorClone::IdentityMismatch { cached_type } => FetchError::IdentityMismatch {
                cached_type,
            },
            FetchErrorClone::CustomRendered(s) => FetchError::Custom(s),
            FetchErrorClone::InsertRendered(s) => {
                let mut text = "insert during fetch: ".to_owned();
                text.append(s.as_str());
                FetchError::Custom(text)
            },
        }
    }
}

/// An error that needs no rendering reaches every caller as it is.
pub proof fn plain_errors_reach_every_caller(e: FetchError, c: FetchErrorClone, got: FetchError)
    requires
        is_render_of(e, c),
        is_restored(c, got),
        !(e matches FetchError::Backend(BackendError::WireFormat(_))),
        !(e is Insert),
    ensures
        got == e,
{
}

/// How a fetcher came to an end.
pub enum FetchReply<T> {
    /// It returned.
    Returned(Result<Option<T>, FetchError>),
    /// It panicked, and said this.
    Panicked(String),
}

/// What a fetch for `id` comes to.
pub open spec fn is_fetch_outcome<T: Cacheable>(
    id: i64,
    cached_type: Seq<char>,
    reply: FetchReply<T>,
    r: Result<Option<T>, FetchErrorClone>,
) -> bool {
    match reply {
        FetchReply::Returned(Ok(Some(value))) => if value.spec_id() == id {
            r == Ok::<Option<T>, FetchErrorClone>(Some(value))
        } else {
            r matches Err(FetchErrorClone::IdentityMismatch { cached_type: name }) && name@
                == cached_type
        },
        FetchReply::Returned(Ok(None)) => r == Ok::<Option<T>, FetchErrorClone>(None),
        FetchReply::Returned(Err(err)) => r matches Err(c) && is_render_of(err, c),
        FetchReply::Panicked(said) => r matches Err(
            FetchErrorClone::FetcherPanic { cached_type: name, message },
        ) && name@ == cached_type && message == said,
    }
}

/// Settles a fetch for `id`.
pub fn settle_fetch<T: Cacheable>(id: &i64, cached_type: &str, reply: FetchReply<T>) -> (r: Result<
    Option<T>,
    FetchErrorClone,
>)
    ensures
        is_fetch_outcome(*id, cached_type@, reply, r),
{
    match reply {
        FetchReply::Returned(Ok(Some(value))) => {
            if value.id() != *id {
                return Err(
                    FetchErrorClone::IdentityMismatch { cached_type: cached_type.to_owned() },
                );
            }
            Ok(Some(value))
        },
        FetchReply::Returned(Ok(None)) => Ok(None),
        FetchReply::Returned(Err(err)) => Err(into_clone(err)),
        FetchReply::Panicked(message) => Err(
            FetchErrorClone::FetcherPanic { cached_type: cached_type.to_owned(), message },
        ),
    }
}

/// What a caller does.
#[derive(Debug, Clone, Copy, PartialEq, Eq, Structural)]
pub enum Attach {
    /// It waits for the fetch with this ticket.
    Join(u64),
    /// It starts the fetch with this ticket.
    Start(u64),
}

/// What a caller does, and the slots and the count of tickets after that.
pub open spec fn attached(slots: Map<i64, u64>, count: int, id: i64, alive: bool) -> (
    Attach,
    Map<i64, u64>,
    int,
) {
    if slots.dom().contains(id) && alive {
        (Attach::Join(slots[id]), slots, count)
    } else {
        (Attach::Start(count as u64), slots.insert(id, count as u64), count + 1)
    }
}

/// The slots after a fetch is over.
pub open spec fn detached(slots: Map<i64, u64>, id: i64, ticket: u64) -> Map<i64, u64> {
    if slots.dom().contains(id) && slots[id] == ticket {
        slots.remove(id)
    } else {
        slots
    }
}

/// The fetches under way: for each id the ticket of its fetch.
pub struct InFlightRegistry {
    pending: dashmap::DashMap<i64, u64, RandomState>,
    issued: u64,
}

impl InFlightRegistry {
    /// For each id the ticket of its fetch.
    pub closed spec fn slots(&self) -> Map<i64, u64> {
        tickets(self.pending)
    }

    /// How many tickets were issued.
    pub closed spec fn count(&self) -> int {
        self.issued as int
    }

    /// Every ticket in use was issued.
    pub open spec fn wf(&self) -> bool {
        forall|id: i64| #[trigger] self.slots().dom().contains(id) ==> self.slots()[id]
            < self.count()
    }

    /// Starts without fetches.
    pub fn new() -> (r: Self)
        ensures
            r.wf(),
            r.slots() == Map::<i64, u64>::empty(),
            r.count() == 0,
    {
        InFlightRegistry { pending: tickets_new(), issued: 0 }
    }

    /// Returns the ticket of the fetch for `id`.
    pub fn ticket(&self, id: &i64) -> (r: Option<u64>)
        ensures
            r == ticket_of(self.slots(), *id),
    {
        tickets_get(&self.pending, id)
    }

    /// Tells whether another ticket can be issued.
    pub fn can_attach(&self) -> (r: bool)
        ensures
            r == (self.count() < u64::MAX),
    {
        self.issued < u64::MAX
    }

    /// A caller wants `id`. It joins the fetch under way where some caller still waits for
    /// it (`alive`), and starts one otherwise.
    pub fn attach(&mut self, id: i64, alive: bool) -> (r: Attach)
        requires
            old(self).wf(),
            old(self).count() < u64::MAX,
        ensures
            final(self).wf(),
            (r, final(self).slots(), final(self).count()) == attached(
                old(self).slots(),
                old(self).count(),
                id,
                alive,
            ),
    {
        match self.ticket(&id) {
            Some(ticket) => {
                if alive {
                    return Attach::Join(ticket);
                }
            },
            None => {},
        }
        let ticket = self.issued;
        tickets_insert(&mut self.pending, id, ticket);
        self.issued = self.issued + 1;
        Attach::Start(ticket)
    }

    /// The fetch with `ticket` for `id` is over or abandoned. Its slot is freed, unless a
    /// later fetch has taken it.
    pub fn detach(&mut self, id: &i64, ticket: u64)
        requires
            old(self).wf(),
        ensures
            final(self).wf(),
            final(self).count() == old(self).count(),
            final(self).slots() == detached(old(self).slots(), *id, ticket),
    {
        tickets_remove_if(&mut self.pending, id, ticket);
        assert forall|k: i64| #[trigger] self.slots().dom().contains(k) implies self.slots()[k]
            < self.count() by {
            assert(old(self).slots().dom().contains(k));
        }
    }
}

/// While a fetch is under way, every caller for its id waits for that one.
pub proof fn callers_share_one_fetch(slots: Map<i64, u64>, count: int, id: i64, alive: bool)
    requires
        0 <= count < u64::MAX,
    ensures
        ({
            let (first, held, issued) = attached(slots, count, id, alive);
            let (second, after, _) = attached(held, issued, id, true);
            &&& second == Attach::Join(held[id])
            &&& after == held
            &&& first == Attach::Join(held[id]) || first == Attach::Start(held[id])
        }),
{
}

/// The end of an abandoned fetch does not free the slot of the fetch that replaced it.
pub proof fn late_detach_spares_the_newer_fetch(
    slots: Map<i64, u64>,
    count: int,
    id: i64,
    ticket: u64,
)
    requires
        0 <= count < u64::MAX,
        ticket < count,
    ensures
        ({
            let (_, held, _) = attached(slots, count, id, false);
            detached(held, id, ticket) == held
        }),
{
}

/// After its fetch is over, an id is fetched anew.
pub proof fn finished_fetch_frees_its_slot(slots: Map<i64, u64>, count: int, id: i64, alive: bool)
    requires
        slots.dom().contains(id),
    ensures
        attached(detached(slots, id, slots[id]), count, id, alive).0 == Attach::Start(count as u64),
{
}

} // verus!

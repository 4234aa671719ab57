//! Clock readings and spans as plain numbers.

use vstd::prelude::*;

verus! {

/// A reading of the monotonic clock, in nanoseconds since the clock's origin.
pub type Instant = u128;

/// A span of time in nanoseconds.
pub type Duration = u128;

/// The deadline of an entry written at `now` with time to live `ttl`; a
/// deadline past the end of the clock means that the entry never expires.
pub open spec fn deadline(now: Instant, ttl: Option<Duration>) -> Option<Instant> {
    match ttl {
        Some(d) => if now + d <= u128::MAX {
            Some((now + d) as u128)
        } else {
            None
        },
        None => None,
    }
}

/// Whether `expires_at` has been reached at `now`.
pub open spec fn reached(expires_at: Option<Instant>, now: Instant) -> bool {
    match expires_at {
        Some(d) => d <= now,
        None => false,
    }
}

/// Computes the deadline of an entry written at `now` with time to live `ttl`.
pub fn expiry_deadline(now: Instant, ttl: Option<Duration>) -> (r: Option<Instant>)
    ensures
        r == deadline(now, ttl),
{
    match ttl {
        Some(d) => now.checked_add(d),
        None => None,
    }
}

/// An entry with a positive time to live is live at the moment it is written,
/// and stays live until that time has passed.
pub proof fn deadline_is_not_early(now: Instant, ttl: Option<Duration>, later: Instant)
    requires
        now <= later,
        ttl matches Some(d) ==> later < now + d,
    ensures
        !reached(deadline(now, ttl), later),
{
}

/// An entry is expired exactly from the moment on at which its time to live has passed, and
/// never without one.
pub proof fn entry_lives_exactly_its_time(now: Instant, ttl: Option<Duration>, at: Instant)
    ensures
        reached(deadline(now, ttl), at) <==> (ttl matches Some(d) && now + d <= at),
{
}

} // verus!

//! What a failing backend does to a call.

use vstd::prelude::*;
use crate::error::BackendError;
use crate::punnu::config::BackendFailureMode;
use crate::punnu::random::number_up_to;
use crate::time::Duration;

verus! {

/// The longest span that a timer takes.
pub const LONGEST_SPAN: u128 = 18_446_744_073_709_551_615_999_999_999;

/// Whether asking again may help.
pub open spec fn retryable(err: BackendError) -> bool {
    err is Network || err is Other
}

/// Tells whether asking again may help.
pub fn is_retryable_backend_error(err: &BackendError) -> (r: bool)
    ensures
        r == retryable(*err),
{
    match err {
        BackendError::Network(_) => true,
        BackendError::Other(_) => true,
        _ => false,
    }
}

/// The most microseconds that are added to a delay.
pub open spec fn jitter_cap(base: Duration) -> int {
    let quarter = base / 1000 / 4;
    if quarter <= u64::MAX {
        quarter as int
    } else {
        u64::MAX as int
    }
}

/// A delay with microseconds added.
pub open spec fn delayed(base: int, micros: int) -> int {
    base + 1000 * micros
}

/// Computes the most microseconds that are added to a delay: a quarter of it.
pub fn jitter_cap_micros(base: Duration) -> (r: u64)
    ensures
        r == jitter_cap(base),
{
    let quarter: u128 = base / 1000 / 4;
    if quarter <= u64::MAX as u128 {
        quarter as u64
    } else {
        u64::MAX
    }
}

/// Adds microseconds to a delay.
pub fn with_jitter(base: Duration, micros: u64) -> (r: Duration)
    requires
        base + 1000 * micros <= LONGEST_SPAN,
    ensures
        r == delayed(base as int, micros as int),
{
    base + 1000 * (micros as u128)
}

/// Adds up to a quarter to a delay, so that callers that failed together do not come back
/// together. How much is a matter of chance.
pub fn jittered_delay(base: Duration) -> (r: Duration)
    requires
        base + 1000 * jitter_cap(base) <= LONGEST_SPAN,
    ensures
        exists|micros: int|
            0 <= micros <= jitter_cap(base) && r == #[trigger] delayed(base as int, micros),
{
    with_jitter(base, number_up_to(jitter_cap_micros(base)))
}

/// Where a backend call is with its attempts.
#[derive(Debug, Clone, Copy, PartialEq, Eq, Structural)]
pub enum RetryStep {
    /// Ask the backend; this is the attempt, counted from one.
    Ask(u8),
    /// The call is over.
    Stop,
}

/// The first step of a call with up to `attempts` attempts.
pub open spec fn first_step(attempts: u8) -> RetryStep {
    if attempts == 0 {
        RetryStep::Stop
    } else {
        RetryStep::Ask(1)
    }
}

/// What follows the reply to an attempt.
pub open spec fn next_step<V>(
    attempt: u8,
    attempts: u8,
    reply: Result<V, BackendError>,
) -> RetryStep {
    match reply {
        Err(err) => if retryable(err) && attempt < attempts {
            RetryStep::Ask((attempt + 1) as u8)
        } else {
            RetryStep::Stop
        },
        Ok(_) => RetryStep::Stop,
    }
}

/// Starts a call with up to `attempts` attempts.
pub fn begin_retry(attempts: u8) -> (r: RetryStep)
    ensures
        r == first_step(attempts),
{
    if attempts == 0 {
        RetryStep::Stop
    } else {
        RetryStep::Ask(1)
    }
}

/// Tells what follows the reply to an attempt.
pub fn continue_retry<V>(attempt: u8, attempts: u8, reply: &Result<V, BackendError>) -> (r:
    RetryStep)
    ensures
        r == next_step(attempt, attempts, *reply),
{
    match reply {
        Err(err) => if is_retryable_backend_error(err) && attempt < attempts {
            RetryStep::Ask(attempt + 1)
        } else {
            RetryStep::Stop
        },
        Ok(_) => RetryStep::Stop,
    }
}

/// The reply that a call with up to `attempts` attempts ends with, where the backend
/// replies in this order from attempt `attempt` on; `None` where it is not asked.
pub open spec fn last_reply<V>(
    step: RetryStep,
    attempts: u8,
    replies: Seq<Result<V, BackendError>>,
) -> Option<Result<V, BackendError>>
    decreases
            match step {
                RetryStep::Ask(attempt) => 256 - attempt,
                RetryStep::Stop => 0,
            },
{
    match step {
        RetryStep::Stop => None,
        RetryStep::Ask(attempt) => {
            let reply = replies[attempt - 1];
            let next = next_step(attempt, attempts, reply);
            if next == RetryStep::Stop || attempt >= attempts {
                Some(reply)
            } else {
                last_reply(next, attempts, replies)
            }
        },
    }
}

/// A call asks at most as often as it may, and ends with the first reply that is no
/// retryable error, or with the last one.
pub proof fn retry_ends_with_the_first_final_reply<V>(
    attempt: u8,
    attempts: u8,
    replies: Seq<Result<V, BackendError>>,
    last: u8,
)
    requires
        1 <= attempt <= last <= attempts,
        forall|i: int|
            attempt - 1 <= i < last - 1 ==> (#[trigger] replies[i] matches Err(err) && retryable(
                err,
            )),
        last == attempts || !(replies[last - 1] matches Err(err) && retryable(err)),
    ensures
        last_reply(RetryStep::Ask(attempt), attempts, replies) == Some(replies[last - 1]),
    decreases last - attempt,
{
    if attempt < last {
        assert(replies[attempt - 1] matches Err(err) && retryable(err));
        retry_ends_with_the_first_final_reply((attempt + 1) as u8, attempts, replies, last);
    }
}

/// What the caller of a read gets, and the error that is only reported.
pub open spec fn read_outcome<V>(
    mode: BackendFailureMode,
    reply: Option<Result<Option<V>, BackendError>>,
) -> (Result<Option<V>, BackendError>, Option<BackendError>) {
    match reply {
        None => (Ok(None), None),
        Some(Ok(value)) => (Ok(value), None),
        Some(Err(err)) => if mode == BackendFailureMode::Error {
            (Err(err), None)
        } else {
            (Ok(None), Some(err))
        },
    }
}

/// Settles a read by the last reply of the backend; `None` where it was not asked.
pub fn settle_read<V>(
    mode: BackendFailureMode,
    reply: Option<Result<Option<V>, BackendError>>,
) -> (r: (Result<Option<V>, BackendError>, Option<BackendError>))
    ensures
        r == read_outcome(mode, reply),
{
    match reply {
        None => (Ok(None), None),
        Some(Ok(value)) => (Ok(value), None),
        Some(Err(err)) => match mode {
            BackendFailureMode::Error => (Err(err), None),
            _ => (Ok(None), Some(err)),
        },
    }
}

/// The error of a write that is only reported.
pub open spec fn write_report(reply: Option<Result<(), BackendError>>) -> Option<BackendError> {
    match reply {
        Some(Err(err)) => Some(err),
        _ => None,
    }
}

/// Settles a write that followed the pool, by the last reply of the backend; `None` where
/// it was not asked. An error is only reported.
pub fn settle_write(reply: Option<Result<(), BackendError>>) -> (r: Option<BackendError>)
    ensures
        r == write_report(reply),
{
    match reply {
        Some(Err(err)) => Some(err),
        _ => None,
    }
}

/// How often a backend is asked.
pub open spec fn attempts_of(mode: BackendFailureMode) -> u8 {
    match mode {
        BackendFailureMode::Retry { attempts } => attempts,
        _ => 1,
    }
}

/// Tells how often a backend is asked.
pub fn attempts_for(mode: BackendFailureMode) -> (r: u8)
    ensures
        r == attempts_of(mode),
{
    match mode {
        BackendFailureMode::Retry { attempts } => attempts,
        _ => 1,
    }
}

/// In which order pool and backend are written.
#[derive(Debug, Clone, Copy, PartialEq, Eq, Structural)]
pub enum WriteRoute {
    /// Only the pool.
    PoolOnly,
    /// The pool, then the backend; what the backend says does not matter to the caller.
    PoolFirst,
    /// The backend, and the pool only where that succeeds.
    BackendFirst,
}

/// In which order pool and backend are written.
pub open spec fn route(mode: BackendFailureMode, has_backend: bool) -> WriteRoute {
    if !has_backend {
        WriteRoute::PoolOnly
    } else if mode == BackendFailureMode::Error {
        WriteRoute::BackendFirst
    } else {
        WriteRoute::PoolFirst
    }
}

/// Tells in which order pool and backend are written.
pub fn write_route(mode: BackendFailureMode, has_backend: bool) -> (r: WriteRoute)
    ensures
        r == route(mode, has_backend),
{
    if !has_backend {
        return WriteRoute::PoolOnly;
    }
    match mode {
        BackendFailureMode::Error => WriteRoute::BackendFirst,
        _ => WriteRoute::PoolFirst,
    }
}

/// An error never reaches the caller of a read unless the mode says so.
pub proof fn only_strict_reads_fail<V>(
    mode: BackendFailureMode,
    reply: Option<Result<Option<V>, BackendError>>,
)
    requires
        mode != BackendFailureMode::Error,
    ensures
        read_outcome(mode, reply).0 is Ok,
{
}

/// Asking again helps against errors of the network and unknown ones alone; a failed attempt
/// is followed by the next where there is one, and a reply that is no error by none.
pub proof fn only_passing_errors_are_asked_again<V>(
    err: BackendError,
    value: V,
    attempt: u8,
    attempts: u8,
)
    requires
        attempt < u8::MAX,
    ensures
        retryable(err) <==> match err {
            BackendError::NotFound => false,
            BackendError::Serialization(_) => false,
            BackendError::Network(_) => true,
            BackendError::WireFormat(_) => false,
            BackendError::Other(_) => true,
        },
        next_step::<V>(attempt, attempts, Err(err)) == (if retryable(err) && attempt < attempts {
            RetryStep::Ask((attempt + 1) as u8)
        } else {
            RetryStep::Stop
        }),
        next_step::<V>(attempt, attempts, Ok(value)) == RetryStep::Stop,
        first_step(0) == RetryStep::Stop,
        attempts > 0 ==> first_step(attempts) == RetryStep::Ask(1),
{
}

/// A read gives what the backend has. An error of it reaches the caller of a strict pool; of
/// any other pool the caller finds nothing, and the error is reported.
pub proof fn reads_give_what_the_backend_has<V>(
    mode: BackendFailureMode,
    value: Option<V>,
    err: BackendError,
)
    ensures
        read_outcome(mode, Some(Ok(value))) == (
            Ok::<Option<V>, BackendError>(value),
            None::<BackendError>,
        ),
        read_outcome::<V>(mode, None) == (Ok::<Option<V>, BackendError>(None), None::<BackendError>),
        mode is Error ==> read_outcome::<V>(mode, Some(Err(err))) == (
            Err::<Option<V>, BackendError>(err),
            None::<BackendError>,
        ),
        !(mode is Error) ==> read_outcome::<V>(mode, Some(Err(err))) == (
            Ok::<Option<V>, BackendError>(None),
            Some(err),
        ),
        write_report(Some(Err(err))) == Some(err),
        write_report(Some(Ok(()))) is None,
        write_report(None) is None,
{
}

/// A strict pool writes its backend first, any other one itself first, and one without a
/// backend only itself. A backend is asked once, or as often as a retrying pool says.
pub proof fn modes_say_how_backends_are_used(mode: BackendFailureMode, attempts: u8)
    ensures
        route(mode, false) == WriteRoute::PoolOnly,
        route(mode, true) == WriteRoute::BackendFirst <==> mode is Error,
        route(mode, true) == WriteRoute::PoolFirst <==> !(mode is Error),
        attempts_of(BackendFailureMode::Retry { attempts }) == attempts,
        attempts_of(BackendFailureMode::L1Only) == 1,
        attempts_of(BackendFailureMode::Error) == 1,
{
}

/// What is added to a delay is at most a quarter of it, and may be all of that to the
/// microsecond.
pub proof fn jitter_is_a_quarter_at_most(base: Duration, micros: int)
    requires
        0 <= micros <= jitter_cap(base),
    ensures
        base <= delayed(base as int, micros),
        4 * (delayed(base as int, micros) - base) <= base,
        delayed(base as int, micros) - base == 1000 * micros,
        jitter_cap(base) < u64::MAX ==> 4000 * (jitter_cap(base) + 1) > base,
{
    assert(base / 1000 / 4 == base / 4000) by (nonlinear_arith);
}

} // verus!

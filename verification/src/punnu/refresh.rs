//! Periodic refresh: how fetched values are applied, and what the loop does.

use vstd::prelude::*;
use vstd::string::*;
use crate::error::FetchError;

verus! {

/// How fetched values are applied to a pool.
#[derive(Debug, Clone, Copy, PartialEq, Eq, Structural)]
pub enum RefreshMode {
    /// Fetched values are written; entries that were not fetched stay.
    UpsertOnly,
    /// The fetched values are all there is; entries that were not fetched go.
    Replace,
}

/// What wakes the refresh loop.
#[derive(Debug, Clone, Copy, PartialEq, Eq, Structural)]
pub enum Wake {
    /// The refresh was cancelled.
    Cancelled,
    /// A caller asks for a refresh and waits for a reply.
    Trigger,
    /// No caller can ask any more.
    TriggersClosed,
    /// The interval has passed.
    Tick,
}

/// What the refresh loop does next.
#[derive(Debug, Clone, Copy, PartialEq, Eq, Structural)]
pub enum LoopStep {
    /// Wait for something to happen.
    Wait,
    /// Fetch and apply.
    Run,
    /// End. `refuse` says that the caller that asked is told so, `drain` that those who
    /// asked after it are.
    Stop {
        /// Whether the caller that asked is told.
        refuse: bool,
        /// Whether those who asked later are told.
        drain: bool,
    },
}

/// What the loop does at its start: a cancelled refresh ends, and so does one whose pool
/// is gone; whoever asked is told.
pub open spec fn loop_start(cancelled: bool, alive: bool) -> LoopStep {
    if cancelled || !alive {
        LoopStep::Stop { refuse: false, drain: true }
    } else {
        LoopStep::Wait
    }
}

/// What the loop does when it wakes up.
pub open spec fn loop_wake(wake: Wake, cancelled: bool, alive: bool) -> LoopStep {
    match wake {
        Wake::Cancelled => LoopStep::Stop { refuse: false, drain: true },
        Wake::TriggersClosed => LoopStep::Stop { refuse: false, drain: false },
        Wake::Trigger => if cancelled || !alive {
            LoopStep::Stop { refuse: true, drain: false }
        } else {
            LoopStep::Run
        },
        Wake::Tick => if cancelled || !alive {
            LoopStep::Stop { refuse: false, drain: false }
        } else {
            LoopStep::Run
        },
    }
}

/// Decides what the loop does at its start and after each run.
pub fn on_loop_start(cancelled: bool, alive: bool) -> (r: LoopStep)
    ensures
        r == loop_start(cancelled, alive),
{
    if cancelled || !alive {
        LoopStep::Stop { refuse: false, drain: true }
    } else {
        LoopStep::Wait
    }
}

/// Decides what the loop does when it wakes up.
pub fn on_loop_wake(wake: Wake, cancelled: bool, alive: bool) -> (r: LoopStep)
    ensures
        r == loop_wake(wake, cancelled, alive),
{
    match wake {
        Wake::Cancelled => LoopStep::Stop { refuse: false, drain: true },
        Wake::TriggersClosed => LoopStep::Stop { refuse: false, drain: false },
        Wake::Trigger => if cancelled || !alive {
            LoopStep::Stop { refuse: true, drain: false }
        } else {
            LoopStep::Run
        },
        Wake::Tick => if cancelled || !alive {
            LoopStep::Stop { refuse: false, drain: false }
        } else {
            LoopStep::Run
        },
    }
}

/// The error that the refresh has ended.
pub open spec fn is_stopped_error(err: FetchError) -> bool {
    err matches FetchError::Serialization(text) && text@ == "refresh task stopped"@
}

/// Makes the error that the refresh has ended.
pub fn refresh_task_stopped_error() -> (r: FetchError)
    ensures
        is_stopped_error(r),
{
    FetchError::Serialization("refresh task stopped".to_owned())
}

/// How a fetch of the refresh came to an end.
pub enum FetchEnd<T> {
    /// The refresh was cancelled before or during the fetch.
    Cancelled,
    /// The fetcher returned.
    Returned(Result<Vec<T>, FetchError>),
}

/// What a run comes to: the items to apply, or the error.
pub open spec fn is_run_outcome<T>(
    end: FetchEnd<T>,
    cancelled: bool,
    alive: bool,
    r: Result<Vec<T>, FetchError>,
) -> bool {
    match end {
        FetchEnd::Cancelled => r matches Err(err) && is_stopped_error(err),
        FetchEnd::Returned(Err(err)) => r == Err::<Vec<T>, FetchError>(err),
        FetchEnd::Returned(Ok(items)) => if cancelled || !alive {
            r matches Err(err) && is_stopped_error(err)
        } else {
            r == Ok::<Vec<T>, FetchError>(items)
        },
    }
}

/// Settles a run. What was fetched is not applied once the refresh is cancelled or the
/// pool is gone.
pub fn settle_run<T>(end: FetchEnd<T>, cancelled: bool, alive: bool) -> (r: Result<
    Vec<T>,
    FetchError,
>)
    ensures
        is_run_outcome(end, cancelled, alive, r),
{
    match end {
        FetchEnd::Cancelled => Err(refresh_task_stopped_error()),
        FetchEnd::Returned(Err(err)) => Err(err),
        FetchEnd::Returned(Ok(items)) => {
            if cancelled || !alive {
                return Err(refresh_task_stopped_error());
            }
            Ok(items)
        },
    }
}

/// What a caller that asked for a refresh gets.
pub open spec fn is_trigger_outcome(
    sent: bool,
    reply: Option<Result<(), FetchError>>,
    r: Result<(), FetchError>,
) -> bool {
    if !sent {
        r matches Err(err) && is_stopped_error(err)
    } else {
        match reply {
            Some(result) => r == result,
            None => r matches Err(FetchError::Serialization(text)) && text@
                == "refresh task stopped before replying"@,
        }
    }
}

/// Settles a caller that asked for a refresh: whether the loop took the question, and its
/// reply where there was one.
pub fn settle_trigger(sent: bool, reply: Option<Result<(), FetchError>>) -> (r: Result<
    (),
    FetchError,
>)
    ensures
        is_trigger_outcome(sent, reply, r),
{
    if !sent {
        return Err(refresh_task_stopped_error());
    }
    match reply {
        Some(result) => result,
        None => Err(
            FetchError::Serialization("refresh task stopped before replying".to_owned()),
        ),
    }
}

/// Once it is cancelled, a refresh neither waits nor fetches nor applies anything.
pub proof fn cancelled_refresh_does_nothing<T>(
    wake: Wake,
    alive: bool,
    end: FetchEnd<T>,
    r: Result<Vec<T>, FetchError>,
)
    requires
        is_run_outcome(end, true, alive, r),
    ensures
        loop_start(true, alive) is Stop,
        loop_wake(wake, true, alive) is Stop,
        r is Err,
{
}

/// A caller that asked is never left without a reply: it is answered by a run, or told
/// that the refresh has ended.
pub proof fn every_trigger_is_answered(cancelled: bool, alive: bool)
    ensures
        loop_wake(Wake::Trigger, cancelled, alive) == LoopStep::Run || loop_wake(
            Wake::Trigger,
            cancelled,
            alive,
        )->refuse,
{
}

/// A refresh that is neither cancelled nor without its pool waits, runs when it is asked to
/// or its time has come, and applies what was fetched.
pub proof fn live_refresh_runs<T>(items: Vec<T>, r: Result<Vec<T>, FetchError>)
    requires
        is_run_outcome(FetchEnd::Returned(Ok(items)), false, true, r),
    ensures
        loop_start(false, true) == LoopStep::Wait,
        loop_wake(Wake::Trigger, false, true) == LoopStep::Run,
        loop_wake(Wake::Tick, false, true) == LoopStep::Run,
        loop_wake(Wake::Cancelled, false, true) is Stop,
        loop_wake(Wake::TriggersClosed, false, true) is Stop,
        r == Ok::<Vec<T>, FetchError>(items),
{
}

/// A fetch that failed gives its error to the run, and the reply to a caller is what the run
/// came to.
pub proof fn replies_are_handed_on<T>(
    err: FetchError,
    cancelled: bool,
    alive: bool,
    r: Result<Vec<T>, FetchError>,
    result: Result<(), FetchError>,
    got: Result<(), FetchError>,
)
    requires
        is_run_outcome(FetchEnd::<T>::Returned(Err(err)), cancelled, alive, r),
        is_trigger_outcome(true, Some(result), got),
    ensures
        r == Err::<Vec<T>, FetchError>(err),
        got == result,
{
}

} // verus!

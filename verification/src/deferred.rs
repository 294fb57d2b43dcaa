//! The pace of work that can wait.

use vstd::prelude::*;

verus! {

/// How long the worker waits where there was nothing to do, in seconds.
pub const IDLE_INTERVAL_SECS: u64 = 120;

/// How long it waits after an item, so that a backlog drains.
pub const BUSY_INTERVAL_SECS: u64 = 5;

/// Why an item of work failed.
#[derive(Debug)]
pub enum DeferredWorkError {
    /// The worker is being shut down.
    Cancelled,
    /// The item will be retried.
    Failed(String),
}

/// How long the worker waits after a turn, or nothing where it ends. `outcome`
/// says whether an item ran.
pub fn run_worker(outcome: Result<bool, DeferredWorkError>) -> (wait_secs: Option<u64>)
    ensures
        wait_secs == wait_after(outcome),
        wait_secs == (match outcome {
            Ok(true) => Some(BUSY_INTERVAL_SECS),
            Ok(false) => Some(IDLE_INTERVAL_SECS),
            Err(DeferredWorkError::Cancelled) => None,
            Err(DeferredWorkError::Failed(_)) => Some(IDLE_INTERVAL_SECS),
        }),
{
    match outcome {
        Ok(ran) => if ran {
            Some(BUSY_INTERVAL_SECS)
        } else {
            Some(IDLE_INTERVAL_SECS)
        },
        Err(e) => match e {
            DeferredWorkError::Cancelled => None,
            DeferredWorkError::Failed(_) => Some(IDLE_INTERVAL_SECS),
        },
    }
}

/// How long the worker waits after a turn.
pub open spec fn wait_after(outcome: Result<bool, DeferredWorkError>) -> Option<u64> {
    match outcome {
        Ok(true) => Some(BUSY_INTERVAL_SECS),
        Ok(false) => Some(IDLE_INTERVAL_SECS),
        Err(DeferredWorkError::Cancelled) => None,
        Err(DeferredWorkError::Failed(_)) => Some(IDLE_INTERVAL_SECS),
    }
}

/// The worker ends exactly where it is shut down. It comes back after five
/// seconds where it found something to do, so that a backlog drains, and after
/// two minutes where it found nothing or failed.
pub proof fn law_the_worker_keeps_its_pace(outcome: Result<bool, DeferredWorkError>)
    ensures
        wait_after(outcome) is None <==> outcome == Err::<bool, DeferredWorkError>(
            DeferredWorkError::Cancelled,
        ),
        wait_after(outcome) matches Some(secs) ==> secs == (if outcome is Ok && outcome->Ok_0 {
            5u64
        } else {
            120u64
        }),
{
}

} // verus!

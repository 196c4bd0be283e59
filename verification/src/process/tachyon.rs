//! Event-horizon measurement of an operation.
//!
//! An operation that takes longer than its horizon reports the elapsed
//! ticks to the scheduler as unfinished-work pressure.

use vstd::prelude::*;

use crate::SyscallError;

verus! {

pub const DEFAULT_EVENT_HORIZON_TICKS: u64 = 50_000;

/// The result of a measured operation and the scheduler hint it emitted.
pub struct EventHorizonOutcome<T> {
    pub value: T,
    pub elapsed_ticks: u64,
    pub yield_result: Option<Result<(), SyscallError>>,
}

/// Ticks between two counter readings; a counter that went backwards
/// counts as no time.
pub open spec fn spec_elapsed(start: u64, end: u64) -> u64 {
    if end >= start {
        (end - start) as u64
    } else {
        0
    }
}

/// The ticks an operation took between counter readings `start` and `end`,
/// and whether that overran `limit`.
pub fn measure_horizon(limit: u64, start: u64, end: u64) -> (r: (u64, bool))
    ensures
        r.0 == spec_elapsed(start, end),
        r.1 == (spec_elapsed(start, end) > limit),
{
    let elapsed = if end >= start {
        end - start
    } else {
        0
    };
    (elapsed, elapsed > limit)
}

/// Runs `operation` between two readings of `counter` and, when it took
/// longer than `limit` ticks, reports the elapsed ticks through `report`.
pub fn execute_within_event_horizon<T, F, C, Y>(
    limit: u64,
    operation: F,
    counter: C,
    report: Y,
) -> (r: EventHorizonOutcome<T>) where
    F: FnOnce() -> T,
    C: Fn() -> u64,
    Y: FnOnce(u64) -> Result<(), SyscallError>,

    requires
        operation.requires(()),
        counter.requires(()),
        forall|ticks: u64| report.requires((ticks,)),
    ensures
        operation.ensures((), r.value),
        exists|start: u64, end: u64|
            #![trigger counter.ensures((), start), counter.ensures((), end)]
            counter.ensures((), start) && counter.ensures((), end) && r.elapsed_ticks
                == spec_elapsed(start, end),
        r.yield_result is Some <==> r.elapsed_ticks > limit,
        r.yield_result matches Some(answer) ==> report.ensures((r.elapsed_ticks,), answer),
{
    let start = counter();
    let value = operation();
    let end = counter();
    let (elapsed_ticks, overran) = measure_horizon(limit, start, end);
    assert(counter.ensures((), start) && counter.ensures((), end) && elapsed_ticks == spec_elapsed(
        start,
        end,
    ));
    let yield_result = if overran {
        Some(report(elapsed_ticks))
    } else {
        None
    };
    EventHorizonOutcome { value, elapsed_ticks, yield_result }
}

/// Runs `operation` within the default horizon.
pub fn execute_with_default_horizon<T, F, C, Y>(operation: F, counter: C, report: Y) -> (r:
    EventHorizonOutcome<T>) where
    F: FnOnce() -> T,
    C: Fn() -> u64,
    Y: FnOnce(u64) -> Result<(), SyscallError>,

    requires
        operation.requires(()),
        counter.requires(()),
        forall|ticks: u64| report.requires((ticks,)),
    ensures
        operation.ensures((), r.value),
        exists|start: u64, end: u64|
            #![trigger counter.ensures((), start), counter.ensures((), end)]
            counter.ensures((), start) && counter.ensures((), end) && r.elapsed_ticks
                == spec_elapsed(start, end),
        r.yield_result is Some <==> r.elapsed_ticks > DEFAULT_EVENT_HORIZON_TICKS,
        r.yield_result matches Some(answer) ==> report.ensures((r.elapsed_ticks,), answer),
{
    execute_within_event_horizon(DEFAULT_EVENT_HORIZON_TICKS, operation, counter, report)
}

} // verus!

use slope::process::fabric::{FabricFiber, FabricWeave, MAX_FIBERS, OUTCOME_PANICKED};
use slope::process::tachyon::{
    execute_with_default_horizon, execute_within_event_horizon, measure_horizon,
};
use slope::process::wait_outcome;
use slope::SyscallError;

#[test]
fn fiber_harvest_before_done_is_none() {
    let fiber = FabricFiber::new();
    assert!(fiber.try_harvest().is_none());
}

#[test]
fn fiber_harvest_after_store_returns_value() {
    let mut fiber = FabricFiber::new();
    fiber.store_outcome(42);
    assert_eq!(fiber.try_harvest(), Some(42));
}

#[test]
fn weave_hands_out_bounded_slots_and_harvests_finished_fibers() {
    let mut weave = FabricWeave::new();
    {
        let slot = weave.next_slot().unwrap();
        slot.begin(11);
        slot.store_outcome(5);
    }
    {
        let slot = weave.next_slot().unwrap();
        slot.begin(12);
    }
    {
        let slot = weave.next_slot().unwrap();
        slot.begin(13);
        slot.store_outcome(OUTCOME_PANICKED);
    }
    assert_eq!(weave.live_count(), 3);
    assert_eq!(weave.harvest_all(), vec![(11, 5), (13, OUTCOME_PANICKED)]);
    for _ in 3..MAX_FIBERS {
        assert!(weave.next_slot().is_some());
    }
    assert!(weave.next_slot().is_none());
    assert_eq!(weave.live_count(), MAX_FIBERS);
}

#[test]
fn horizon_and_wait_answers() {
    assert_eq!(measure_horizon(u64::MAX, 10, 20), (10, false));
    assert_eq!(measure_horizon(5, 10, 20), (10, true));
    assert_eq!(measure_horizon(5, 20, 10), (0, false));
    assert_eq!(wait_outcome(Ok(0), 4, -1), Ok(Some((4, -1))));
    assert_eq!(wait_outcome(Err(SyscallError(-11)), 0, 0), Ok(None));
    assert_eq!(wait_outcome(Err(SyscallError(-3)), 0, 0), Err(SyscallError(-3)));
}

#[test]
fn preserves_the_closure_result() {
    let outcome = execute_within_event_horizon(u64::MAX, || 42, || 0u64, |_| Ok(()));
    assert_eq!(outcome.value, 42);
    assert!(outcome.yield_result.is_none());
}

#[test]
fn an_overrun_is_reported_with_its_elapsed_ticks() {
    let readings = std::cell::Cell::new(100u64);
    let counter = || {
        let now = readings.get();
        readings.set(now + 70_000);
        now
    };
    let reported = std::cell::Cell::new(0u64);
    let outcome = execute_with_default_horizon(
        || "done",
        counter,
        |ticks| {
            reported.set(ticks);
            Err(SyscallError(-38))
        },
    );
    assert_eq!(outcome.value, "done");
    assert_eq!(outcome.elapsed_ticks, 70_000);
    assert_eq!(outcome.yield_result, Some(Err(SyscallError(-38))));
    assert_eq!(reported.get(), 70_000);
}

#[test]
fn a_run_within_the_horizon_reports_nothing() {
    let readings = std::cell::Cell::new(0u64);
    let counter = || {
        let now = readings.get();
        readings.set(now + 10);
        now
    };
    let outcome = execute_within_event_horizon(10, || 1u8, counter, |_| Ok(()));
    assert_eq!(outcome.elapsed_ticks, 10);
    assert!(outcome.yield_result.is_none());
}

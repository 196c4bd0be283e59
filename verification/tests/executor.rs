use slope::executor::{ExecutorError, OuroborosExecutor, SlotState, MAX_TASKS};

/// Runs one pass the way the executor's driver does, with `polls` deciding
/// whether each polled task finishes; returns the polled slots.
fn pass(exec: &mut OuroborosExecutor, mut finishes: impl FnMut(usize) -> bool) -> Vec<usize> {
    let mut polled = Vec::new();
    let mut mask = exec.take_ready_mask();
    while mask != 0 {
        let (slot, rest) = exec.next_to_poll(mask);
        mask = rest;
        if let Some(slot) = slot {
            polled.push(slot);
            let done = finishes(slot);
            if !done {
                exec.wake(slot);
            }
            exec.finish_poll(slot, done);
        }
    }
    polled
}

#[test]
fn executor_runs_future_to_completion() {
    // a task that needs three polls and wakes itself in between
    let mut exec = OuroborosExecutor::new();
    let slot = exec.spawn_slot().unwrap();
    let mut counter = 0;
    while exec.task_count() > 0 {
        pass(&mut exec, |_| {
            counter += 1;
            counter >= 3
        });
    }
    assert_eq!(counter, 3);
    assert_eq!(exec.task_count(), 0);
    assert_eq!(exec.slot_state(slot), SlotState::Done);
}

#[test]
fn spawns_reuse_finished_slots_and_refuse_a_full_arena() {
    let mut exec = OuroborosExecutor::new();
    for index in 0..MAX_TASKS {
        assert_eq!(exec.spawn_slot(), Ok(index));
    }
    assert_eq!(exec.spawn_slot(), Err(ExecutorError::ArenaFull));
    assert_eq!(exec.task_count(), MAX_TASKS);
    let polled = pass(&mut exec, |slot| slot % 2 == 0);
    assert_eq!(polled.len(), MAX_TASKS);
    assert_eq!(polled[0], 0);
    assert_eq!(exec.task_count(), MAX_TASKS / 2);
    assert_eq!(exec.find_free_slot(), Some(0));
    assert_eq!(exec.spawn_slot(), Ok(0));
    assert_eq!(exec.slot_state(1), SlotState::Ready);
}

#[test]
fn only_ready_slots_are_polled() {
    let mut exec = OuroborosExecutor::new();
    let a = exec.spawn_slot().unwrap();
    let b = exec.spawn_slot().unwrap();
    // first pass: neither finishes, and neither is woken
    let mut mask = exec.take_ready_mask();
    while mask != 0 {
        let (slot, rest) = exec.next_to_poll(mask);
        mask = rest;
        if let Some(slot) = slot {
            exec.finish_poll(slot, false);
        }
    }
    assert_eq!(exec.slot_state(a), SlotState::Parked);
    assert_eq!(pass(&mut exec, |_| true), Vec::<usize>::new());
    exec.wake(b);
    assert_eq!(pass(&mut exec, |_| true), vec![b]);
    assert_eq!(exec.task_count(), 1);
}

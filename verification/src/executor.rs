//! The bookkeeping of a cooperative executor with a fixed arena of task
//! slots.
//!
//! Each slot is free, parked, ready, running or done; a bitmask marks the
//! slots scheduled for polling. A spawn takes the first free or done slot;
//! a wake marks the slot ready; a pass takes the scheduled slots, lowest
//! first, and polls each that is ready; a finished task frees its slot.

use vstd::prelude::*;

verus! {

pub const MAX_TASKS: usize = 64;

#[derive(Clone, Copy, Debug, PartialEq, Eq, Structural)]
pub enum ExecutorError {
    ArenaFull,
}

#[derive(Clone, Copy, Debug, PartialEq, Eq, Structural)]
pub enum SlotState {
    Free,
    Parked,
    Ready,
    Running,
    Done,
}

/// The slot states, the scheduled-slot mask and the number of live tasks.
pub struct OuroborosExecutor {
    states: Vec<SlotState>,
    ready_mask: u64,
    count: usize,
}

/// The abstract value of an executor.
pub struct ExecutorView {
    pub states: Seq<SlotState>,
    pub ready_mask: u64,
    pub count: nat,
}

impl View for OuroborosExecutor {
    type V = ExecutorView;

    closed spec fn view(&self) -> ExecutorView {
        ExecutorView { states: self.states@, ready_mask: self.ready_mask, count: self.count as nat }
    }
}

/// Bit `b` of the mask is set.
pub open spec fn mask_has(mask: u64, b: u64) -> bool {
    (mask >> b) & 1u64 == 1u64
}

/// A slot that can take a new task.
pub open spec fn reusable(s: SlotState) -> bool {
    s == SlotState::Free || s == SlotState::Done
}

/// The first reusable slot from `from` on.
pub open spec fn first_reusable(states: Seq<SlotState>, from: int) -> Option<int>
    decreases states.len() - from,
{
    if from < 0 || from >= states.len() {
        None
    } else if reusable(states[from]) {
        Some(from)
    } else {
        first_reusable(states, from + 1)
    }
}

/// The first reusable slot is the lowest-numbered slot that is free or
/// done: no slot before it is, and when there is none no slot is.
pub proof fn lemma_first_reusable_is_lowest(states: Seq<SlotState>)
    ensures
        first_reusable(states, 0) matches Some(i) ==> 0 <= i < states.len() && (states[i]
            == SlotState::Free || states[i] == SlotState::Done) && forall|j: int|
            0 <= j < i ==> #[trigger] states[j] != SlotState::Free && states[j] != SlotState::Done,
        first_reusable(states, 0) is None ==> forall|j: int|
            0 <= j < states.len() ==> #[trigger] states[j] != SlotState::Free && states[j]
                != SlotState::Done,
{
    lemma_first_reusable_from(states, 0);
}

proof fn lemma_first_reusable_from(states: Seq<SlotState>, from: int)
    requires
        0 <= from,
    ensures
        first_reusable(states, from) matches Some(i) ==> from <= i < states.len() && (states[i]
            == SlotState::Free || states[i] == SlotState::Done) && forall|j: int|
            from <= j < i ==> #[trigger] states[j] != SlotState::Free && states[j] != SlotState::Done,
        first_reusable(states, from) is None ==> forall|j: int|
            from <= j < states.len() ==> #[trigger] states[j] != SlotState::Free && states[j]
                != SlotState::Done,
    decreases states.len() - from,
{
    if from < states.len() {
        lemma_first_reusable_from(states, from + 1);
    }
}

/// The number of live tasks: slots neither free nor done.
pub open spec fn live_tasks(states: Seq<SlotState>) -> nat
    decreases states.len(),
{
    if states.len() == 0 {
        0
    } else {
        live_tasks(states.drop_last()) + if reusable(states.last()) {
            0nat
        } else {
            1nat
        }
    }
}

proof fn lemma_first_reusable_found(states: Seq<SlotState>, from: int)
    requires
        0 <= from,
    ensures
        first_reusable(states, from) is Some ==> from <= first_reusable(states, from)->Some_0
            < states.len() && reusable(states[first_reusable(states, from)->Some_0]),
    decreases states.len() - from,
{
    if from < states.len() && !reusable(states[from]) {
        lemma_first_reusable_found(states, from + 1);
    }
}

proof fn lemma_set_bit(x: u64, k: u64, b: u64)
    requires
        k < 64,
        b < 64,
    ensures
        mask_has(x | (1u64 << k), b) == (mask_has(x, b) || b == k),
{
    assert(((x | (1u64 << k)) >> b) & 1u64 == 1u64 <==> (((x >> b) & 1u64 == 1u64) || b == k))
        by (bit_vector)
        requires
            k < 64,
            b < 64,
    ;
}

proof fn lemma_clear_bit(x: u64, k: u64, b: u64)
    requires
        k < 64,
        b < 64,
    ensures
        mask_has(x & !(1u64 << k), b) == (mask_has(x, b) && b != k),
{
    assert(((x & !(1u64 << k)) >> b) & 1u64 == 1u64 <==> (((x >> b) & 1u64 == 1u64) && b != k))
        by (bit_vector)
        requires
            k < 64,
            b < 64,
    ;
}

/// Changing one slot's state changes the live count by that slot alone.
proof fn lemma_live_tasks_update(states: Seq<SlotState>, i: int, s: SlotState)
    requires
        0 <= i < states.len(),
    ensures
        live_tasks(states.update(i, s)) + (if reusable(states[i]) {
            0int
        } else {
            1int
        }) == live_tasks(states) + (if reusable(s) {
            0int
        } else {
            1int
        }),
    decreases states.len(),
{
    let u = states.update(i, s);
    if i < states.len() - 1 {
        assert(u.drop_last() =~= states.drop_last().update(i, s));
        lemma_live_tasks_update(states.drop_last(), i, s);
    } else {
        assert(u.drop_last() =~= states.drop_last());
    }
}

proof fn lemma_live_tasks_bound(states: Seq<SlotState>)
    ensures
        live_tasks(states) <= states.len(),
    decreases states.len(),
{
    if states.len() > 0 {
        lemma_live_tasks_bound(states.drop_last());
    }
}

impl OuroborosExecutor {
    /// A full arena, and a count that is the number of live tasks.
    pub closed spec fn executor_wf(&self) -> bool {
        &&& self.states@.len() == MAX_TASKS
        &&& self.count == live_tasks(self.states@)
    }

    pub fn new() -> (r: OuroborosExecutor)
        ensures
            r.executor_wf(),
            r@.ready_mask == 0,
            r@.count == 0,
            forall|i: int| 0 <= i < MAX_TASKS ==> #[trigger] r@.states[i] == SlotState::Free,
    {
        let mut states: Vec<SlotState> = Vec::new();
        let mut i: usize = 0;
        while i < MAX_TASKS
            invariant
                i <= MAX_TASKS,
                states@.len() == i,
                forall|k: int| 0 <= k < i ==> #[trigger] states@[k] == SlotState::Free,
                live_tasks(states@) == 0,
            decreases MAX_TASKS - i,
        {
            let ghost before = states@;
            states.push(SlotState::Free);
            assert(states@.drop_last() =~= before);
            i = i + 1;
        }
        OuroborosExecutor { states, ready_mask: 0, count: 0 }
    }

    /// The first slot that can take a new task.
    pub fn find_free_slot(&self) -> (r: Option<usize>)
        requires
            self.executor_wf(),
        ensures
            match first_reusable(self@.states, 0) {
                None => r is None,
                Some(i) => r == Some(i as usize),
            },
    {
        let mut i: usize = 0;
        while i < self.states.len()
            invariant
                i <= self.states@.len(),
                first_reusable(self@.states, 0) == first_reusable(self@.states, i as int),
            decreases self.states@.len() - i,
        {
            if self.states[i] == SlotState::Free || self.states[i] == SlotState::Done {
                return Some(i);
            }
            i = i + 1;
        }
        None
    }

    /// Takes a slot for a new task, scheduled for its first poll.
    pub fn spawn_slot(&mut self) -> (r: Result<usize, ExecutorError>)
        requires
            old(self).executor_wf(),
        ensures
            final(self).executor_wf(),
            match first_reusable(old(self)@.states, 0) {
                None => r == Err::<usize, ExecutorError>(ExecutorError::ArenaFull) && final(self)@
                    == old(self)@,
                Some(i) => r == Ok::<usize, ExecutorError>(i as usize) && final(self)@.states
                    == old(self)@.states.update(i, SlotState::Ready) && final(self)@.ready_mask
                    == old(self)@.ready_mask | (1u64 << (i as u64)) && final(self)@.count == old(
                    self,
                )@.count + 1,
            },
    {
        let slot = match self.find_free_slot() {
            None => {
                return Err(ExecutorError::ArenaFull);
            },
            Some(i) => i,
        };
        proof {
            lemma_first_reusable_found(self.states@, 0);
            lemma_live_tasks_update(self.states@, slot as int, SlotState::Ready);
            lemma_live_tasks_bound(self.states@.update(slot as int, SlotState::Ready));
        }
        self.states.set(slot, SlotState::Ready);
        self.ready_mask = self.ready_mask | (1u64 << slot as u64);
        self.count = self.count + 1;
        Ok(slot)
    }

    /// A waker's signal: the slot is scheduled for the next pass, and a
    /// parked task becomes ready to be polled.
    pub fn wake(&mut self, slot: usize)
        requires
            old(self).executor_wf(),
            slot < MAX_TASKS,
        ensures
            final(self).executor_wf(),
            final(self)@.ready_mask == old(self)@.ready_mask | (1u64 << (slot as u64)),
            final(self)@.count == old(self)@.count,
            final(self)@.states == if old(self)@.states[slot as int] == SlotState::Parked {
                old(self)@.states.update(slot as int, SlotState::Ready)
            } else {
                old(self)@.states
            },
    {
        self.ready_mask = self.ready_mask | (1u64 << slot as u64);
        if self.states[slot] == SlotState::Parked {
            proof {
                lemma_live_tasks_update(self.states@, slot as int, SlotState::Ready);
            }
            self.states.set(slot, SlotState::Ready);
        }
    }

    /// Starts a pass: takes the scheduled-slot mask and clears it.
    pub fn take_ready_mask(&mut self) -> (r: u64)
        requires
            old(self).executor_wf(),
        ensures
            final(self).executor_wf(),
            r == old(self)@.ready_mask,
            final(self)@ == (ExecutorView { ready_mask: 0, ..old(self)@ }),
    {
        let mask = self.ready_mask;
        self.ready_mask = 0;
        mask
    }

    /// Takes the lowest slot of `mask` off it and, when that slot is
    /// ready, marks it running and returns it for polling.
    pub fn next_to_poll(&mut self, mask: u64) -> (r: (Option<usize>, u64))
        requires
            old(self).executor_wf(),
            mask != 0,
        ensures
            final(self).executor_wf(),
            final(self)@.ready_mask == old(self)@.ready_mask,
            final(self)@.count == old(self)@.count,
            ({
                let b = vstd::std_specs::bits::u64_trailing_zeros(mask);
                &&& b < 64
                &&& mask_has(mask, b as u64)
                &&& forall|j: u64| j < b ==> !mask_has(mask, j)
                &&& r.1 == mask & !(1u64 << (b as u64))
                &&& if old(self)@.states[b as int] == SlotState::Ready {
                    r.0 == Some(b as usize) && final(self)@.states == old(self)@.states.update(
                        b as int,
                        SlotState::Running,
                    )
                } else {
                    r.0 is None && final(self)@.states == old(self)@.states
                }
            }),
    {
        let bit = mask.trailing_zeros() as usize;
        proof {
            vstd::std_specs::bits::axiom_u64_trailing_zeros(mask);
        }
        let rest = mask & !(1u64 << bit as u64);
        if self.states[bit] != SlotState::Ready {
            return (None, rest);
        }
        proof {
            lemma_live_tasks_update(self.states@, bit as int, SlotState::Running);
        }
        self.states.set(bit, SlotState::Running);
        (Some(bit), rest)
    }

    /// Records a poll's outcome: a finished task's slot is done and no
    /// longer counted; an unfinished one is ready again when it was woken
    /// during the poll, and parked until woken otherwise.
    pub fn finish_poll(&mut self, slot: usize, done: bool)
        requires
            old(self).executor_wf(),
            slot < MAX_TASKS,
            old(self)@.states[slot as int] == SlotState::Running,
        ensures
            final(self).executor_wf(),
            final(self)@.ready_mask == old(self)@.ready_mask,
            done ==> final(self)@.states == old(self)@.states.update(slot as int, SlotState::Done)
                && final(self)@.count == old(self)@.count - 1,
            !done ==> final(self)@.states == old(self)@.states.update(
                slot as int,
                if mask_has(old(self)@.ready_mask, slot as u64) {
                    SlotState::Ready
                } else {
                    SlotState::Parked
                },
            ) && final(self)@.count == old(self)@.count,
    {
        if done {
            proof {
                lemma_live_tasks_update(self.states@, slot as int, SlotState::Done);
            }
            self.states.set(slot, SlotState::Done);
            self.count = self.count - 1;
        } else {
            let woken = (self.ready_mask >> slot as u64) & 1u64 == 1u64;
            let next = if woken {
                SlotState::Ready
            } else {
                SlotState::Parked
            };
            proof {
                lemma_live_tasks_update(self.states@, slot as int, next);
            }
            self.states.set(slot, next);
        }
    }

    /// The number of live tasks.
    pub fn task_count(&self) -> (r: usize)
        ensures
            r == self@.count,
    {
        self.count
    }

    /// The state of a slot.
    pub fn slot_state(&self, slot: usize) -> (r: SlotState)
        requires
            self.executor_wf(),
            slot < MAX_TASKS,
        ensures
            r == self@.states[slot as int],
    {
        self.states[slot]
    }
}

/// The live count is exactly the number of slots holding a task: it never
/// exceeds the arena, and a spawn into a full arena is refused.
pub proof fn lemma_live_count_bounded(states: Seq<SlotState>)
    ensures
        live_tasks(states) <= states.len(),
        first_reusable(states, 0) is None ==> live_tasks(states) == states.len(),
{
    lemma_live_tasks_bound(states);
    if first_reusable(states, 0) is None {
        lemma_no_reusable_all_live(states, 0);
    }
}

proof fn lemma_no_reusable_all_live(states: Seq<SlotState>, from: int)
    requires
        0 <= from <= states.len(),
        first_reusable(states, from) is None,
    ensures
        forall|i: int| from <= i < states.len() ==> !reusable(#[trigger] states[i]),
        from == 0 ==> live_tasks(states) == states.len(),
    decreases states.len() - from,
{
    if from < states.len() {
        lemma_no_reusable_all_live(states, from + 1);
    }
    if from == 0 {
        lemma_all_live_count(states);
    }
}

proof fn lemma_all_live_count(states: Seq<SlotState>)
    requires
        forall|i: int| 0 <= i < states.len() ==> !reusable(#[trigger] states[i]),
    ensures
        live_tasks(states) == states.len(),
    decreases states.len(),
{
    if states.len() > 0 {
        let p = states.drop_last();
        assert forall|i: int| 0 <= i < p.len() implies !reusable(#[trigger] p[i]) by {
            assert(p[i] == states[i]);
        }
        lemma_all_live_count(p);
        assert(!reusable(states[states.len() - 1]));
    }
}

} // verus!

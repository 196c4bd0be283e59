//! Fiber bookkeeping for userland threads.
//!
//! A fiber's outcome is pending until its thread stores the closure's
//! result; a weave hands out at most `MAX_FIBERS` fiber slots and collects
//! the outcomes of the finished ones.

use vstd::prelude::*;

verus! {

pub const MAX_FIBERS: usize = 32;
pub const MIN_STACK_BYTES: usize = 4096;

pub const OUTCOME_PENDING: u64 = 0xffff_ffff_ffff_ffff;
pub const OUTCOME_PANICKED: u64 = 0xffff_ffff_ffff_fffe;

/// One spawned thread's identity and outcome.
pub struct FabricFiber {
    outcome: u64,
    tid: u64,
}

/// The outcome a harvest sees for a stored word.
pub open spec fn harvest_of(outcome: u64) -> Option<u64> {
    if outcome == OUTCOME_PENDING {
        None
    } else {
        Some(outcome)
    }
}

impl FabricFiber {
    pub closed spec fn spec_outcome(&self) -> u64 {
        self.outcome
    }

    pub closed spec fn spec_tid(&self) -> u64 {
        self.tid
    }

    /// A fiber whose outcome is pending.
    pub fn new() -> (r: FabricFiber)
        ensures
            r.spec_outcome() == OUTCOME_PENDING,
            r.spec_tid() == 0,
    {
        FabricFiber { outcome: OUTCOME_PENDING, tid: 0 }
    }

    /// The finished fiber's result; nothing while it is pending.
    pub fn try_harvest(&self) -> (r: Option<u64>)
        ensures
            r == harvest_of(self.spec_outcome()),
    {
        if self.outcome == OUTCOME_PENDING {
            None
        } else {
            Some(self.outcome)
        }
    }

    pub fn tid(&self) -> (r: u64)
        ensures
            r == self.spec_tid(),
    {
        self.tid
    }

    /// The thread's exit: stores the closure's result.
    pub fn store_outcome(&mut self, value: u64)
        ensures
            final(self).spec_outcome() == value,
            final(self).spec_tid() == old(self).spec_tid(),
    {
        self.outcome = value;
    }

    /// A spawn: the outcome is pending again and the thread id recorded.
    pub fn begin(&mut self, tid: u64)
        ensures
            final(self).spec_outcome() == OUTCOME_PENDING,
            final(self).spec_tid() == tid,
    {
        self.outcome = OUTCOME_PENDING;
        self.tid = tid;
    }
}

/// A fixed pool of fibers.
pub struct FabricWeave {
    fibers: Vec<FabricFiber>,
    count: usize,
}

impl FabricWeave {
    pub closed spec fn weave_wf(&self) -> bool {
        self.fibers@.len() == MAX_FIBERS && self.count <= MAX_FIBERS
    }

    pub closed spec fn spec_count(&self) -> nat {
        self.count as nat
    }

    /// The `(tid, outcome)` of each handed-out fiber.
    pub closed spec fn fibers(&self) -> Seq<(u64, u64)> {
        Seq::new(self.count as nat, |i: int| (self.fibers@[i].tid, self.fibers@[i].outcome))
    }

    pub fn new() -> (r: FabricWeave)
        ensures
            r.weave_wf(),
            r.spec_count() == 0,
    {
        let mut fibers: Vec<FabricFiber> = Vec::new();
        let mut i: usize = 0;
        while i < MAX_FIBERS
            invariant
                i <= MAX_FIBERS,
                fibers@.len() == i,
            decreases MAX_FIBERS - i,
        {
            fibers.push(FabricFiber::new());
            i = i + 1;
        }
        FabricWeave { fibers, count: 0 }
    }

    /// Hands out the next free fiber slot; none once all are taken.
    pub fn next_slot(&mut self) -> (r: Option<&mut FabricFiber>)
        requires
            old(self).weave_wf(),
        ensures
            final(self).weave_wf(),
            old(self).spec_count() == MAX_FIBERS ==> r is None && final(self).spec_count()
                == MAX_FIBERS,
            old(self).spec_count() < MAX_FIBERS ==> r is Some && final(self).spec_count() == old(
                self,
            ).spec_count() + 1,
    {
        if self.count >= MAX_FIBERS {
            return None;
        }
        let index = self.count;
        self.count = self.count + 1;
        Some(&mut self.fibers[index])
    }

    /// The `(tid, outcome)` of every handed-out fiber that has finished, in
    /// slot order.
    pub fn harvest_all(&self) -> (r: Vec<(u64, u64)>)
        requires
            self.weave_wf(),
        ensures
            r@ == self.fibers().filter(|f: (u64, u64)| f.1 != OUTCOME_PENDING),
    {
        let ghost keep = |f: (u64, u64)| f.1 != OUTCOME_PENDING;
        let mut out: Vec<(u64, u64)> = Vec::new();
        let mut i: usize = 0;
        while i < self.count
            invariant
                self.weave_wf(),
                i <= self.count,
                keep == (|f: (u64, u64)| f.1 != OUTCOME_PENDING),
                out@ == self.fibers().take(i as int).filter(keep),
            decreases self.count - i,
        {
            let fiber = &self.fibers[i];
            let item = (fiber.tid, fiber.outcome);
            if let Some(outcome) = fiber.try_harvest() {
                out.push((fiber.tid(), outcome));
            }
            proof {
                reveal_with_fuel(Seq::<_>::filter, 1);
                let t = self.fibers().take(i + 1);
                assert(t.drop_last() =~= self.fibers().take(i as int));
                assert(t.last() == item);
            }
            i = i + 1;
        }
        assert(self.fibers().take(self.count as int) =~= self.fibers());
        out
    }

    pub fn live_count(&self) -> (r: usize)
        ensures
            r == self.spec_count(),
    {
        self.count
    }
}

} // verus!

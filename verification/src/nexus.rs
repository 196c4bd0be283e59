//! The Nexus control client's sequencing and argument packing.
//!
//! Every transaction takes the client's next sequence number; sequence
//! numbers wrap past `u64::MAX` but never become zero.

use vstd::prelude::*;

verus! {

/// A task handle: the slot in the low sixteen bits, the generation above.
pub open spec fn spec_task_handle(slot: u16, generation: u16) -> u64 {
    (slot as u64) | ((generation as u64) << 16u64)
}

pub fn task_handle(slot: u16, generation: u16) -> (r: u64)
    ensures
        r == spec_task_handle(slot, generation),
        r == slot + generation * 0x1_0000,
{
    let s = slot as u64;
    let g = generation as u64;
    assert(s | (g << 16u64) == s + g * 0x1_0000) by (bit_vector)
        requires
            s <= 0xffff,
            g <= 0xffff,
    ;
    s | (g << 16u64)
}

/// The sequence after `s`: the next number, skipping zero on wrap.
pub open spec fn next_sequence(s: u64) -> u64 {
    if s == u64::MAX {
        1
    } else {
        (s + 1) as u64
    }
}

pub struct NexusClient {
    capability: u64,
    next_sequence: u64,
}

impl NexusClient {
    pub closed spec fn spec_capability(&self) -> u64 {
        self.capability
    }

    pub closed spec fn spec_next_sequence(&self) -> u64 {
        self.next_sequence
    }

    pub fn new(capability: u64) -> (r: NexusClient)
        ensures
            r.spec_capability() == capability,
            r.spec_next_sequence() == 1,
    {
        NexusClient { capability, next_sequence: 1 }
    }

    pub fn capability(&self) -> (r: u64)
        ensures
            r == self.spec_capability(),
    {
        self.capability
    }

    /// Takes the sequence number for the next transaction.
    pub fn claim_sequence(&mut self) -> (r: u64)
        ensures
            r == old(self).spec_next_sequence(),
            final(self).spec_next_sequence() == next_sequence(r),
            final(self).spec_capability() == old(self).spec_capability(),
    {
        let sequence = self.next_sequence;
        let advanced = self.next_sequence.wrapping_add(1);
        self.next_sequence = if advanced == 0 {
            1
        } else {
            advanced
        };
        sequence
    }
}

/// A client that starts at sequence one never hands out sequence zero.
pub proof fn lemma_sequences_are_nonzero(s: u64)
    requires
        s != 0,
    ensures
        next_sequence(s) != 0,
{
}

/// The four argument words of an entangle request: the two tasks, the phase
/// bin with the flags in the high half, and the amplitude's real and
/// imaginary parts by their bits.
pub fn entangle_arguments(
    task_a: u64,
    task_b: u64,
    phase_bin: u16,
    flags: u32,
    re_q16: i32,
    im_q16: i32,
) -> (r: [u64; 4])
    ensures
        r@ == seq![
            task_a,
            task_b,
            (phase_bin as u64) | ((flags as u64) << 32u64),
            ((re_q16 as u32) as u64) | (((im_q16 as u32) as u64) << 32u64),
        ],
{
    let phase_and_flags = (phase_bin as u64) | ((flags as u64) << 32u64);
    let amplitude = ((re_q16 as u32) as u64) | (((im_q16 as u32) as u64) << 32u64);
    let r = [task_a, task_b, phase_and_flags, amplitude];
    assert(r@ =~= seq![task_a, task_b, phase_and_flags, amplitude]);
    r
}

} // verus!

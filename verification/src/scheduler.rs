//! Scheduling hints.
//!
//! A priority maps to a scheduling mass; a phase hint packs its phase bin,
//! coherence, mass and flags into one word for the kernel.

use vstd::prelude::*;

verus! {

#[derive(Clone, Copy, Debug, PartialEq, Eq, Structural)]
pub enum Priority {
    Idle,
    Background,
    Normal,
    Interactive,
    Critical,
    Nexus,
}

pub open spec fn spec_mass(p: Priority) -> u16 {
    match p {
        Priority::Idle => 0x1000,
        Priority::Background => 0x3000,
        Priority::Normal => 0x6000,
        Priority::Interactive => 0x9000,
        Priority::Critical => 0xd000,
        Priority::Nexus => 0xffff,
    }
}

impl Priority {
    pub fn mass(self) -> (r: u16)
        ensures
            r == spec_mass(self),
    {
        match self {
            Priority::Idle => 0x1000,
            Priority::Background => 0x3000,
            Priority::Normal => 0x6000,
            Priority::Interactive => 0x9000,
            Priority::Critical => 0xd000,
            Priority::Nexus => 0xffff,
        }
    }
}

/// Higher priorities carry more scheduling mass.
pub proof fn lemma_mass_is_monotone()
    ensures
        spec_mass(Priority::Idle) < spec_mass(Priority::Background) < spec_mass(Priority::Normal)
            < spec_mass(Priority::Interactive) < spec_mass(Priority::Critical) < spec_mass(
            Priority::Nexus,
        ),
{
}

#[derive(Clone, Copy, Debug, PartialEq, Eq, Structural)]
pub struct PhaseHint {
    pub phase_bin: u16,
    pub coherence: u16,
    pub priority: Priority,
    pub flags: u16,
}

/// The packed word: ten bits of phase bin, ten bits of coherence, sixteen
/// bits of mass from bit 20 and the flags from bit 36.
pub open spec fn spec_packed(h: PhaseHint) -> u64 {
    (h.phase_bin as u64 & 0x03ff) | ((h.coherence as u64 & 0x03ff) << 10u64) | ((spec_mass(
        h.priority,
    ) as u64) << 20u64) | ((h.flags as u64) << 36u64)
}

impl PhaseHint {
    pub fn packed(self) -> (r: u64)
        ensures
            r == spec_packed(self),
    {
        (self.phase_bin as u64 & 0x03ff) | ((self.coherence as u64 & 0x03ff) << 10u64) | ((
        self.priority.mass() as u64) << 20u64) | ((self.flags as u64) << 36u64)
    }
}

/// The packed fields can be read back: the bin and coherence modulo 1024,
/// the mass and the flags exactly.
pub proof fn lemma_packed_fields(h: PhaseHint)
    ensures
        spec_packed(h) & 0x3ff == h.phase_bin as u64 & 0x3ff,
        (spec_packed(h) >> 10u64) & 0x3ff == h.coherence as u64 & 0x3ff,
        (spec_packed(h) >> 20u64) & 0xffff == spec_mass(h.priority) as u64,
        spec_packed(h) >> 36u64 == h.flags as u64,
{
    let b = h.phase_bin as u64;
    let c = h.coherence as u64;
    let m = spec_mass(h.priority) as u64;
    let f = h.flags as u64;
    assert(((b & 0x3ff) | ((c & 0x3ff) << 10u64) | (m << 20u64) | (f << 36u64)) & 0x3ff == b
        & 0x3ff) by (bit_vector)
        requires
            m <= 0xffff,
            f <= 0xffff,
    ;
    assert((((b & 0x3ff) | ((c & 0x3ff) << 10u64) | (m << 20u64) | (f << 36u64)) >> 10u64)
        & 0x3ff == c & 0x3ff) by (bit_vector)
        requires
            m <= 0xffff,
            f <= 0xffff,
    ;
    assert((((b & 0x3ff) | ((c & 0x3ff) << 10u64) | (m << 20u64) | (f << 36u64)) >> 20u64)
        & 0xffff == m) by (bit_vector)
        requires
            m <= 0xffff,
            f <= 0xffff,
    ;
    assert(((b & 0x3ff) | ((c & 0x3ff) << 10u64) | (m << 20u64) | (f << 36u64)) >> 36u64 == f)
        by (bit_vector)
        requires
            m <= 0xffff,
            f <= 0xffff,
    ;
}

/// The two words a sleep request carries: the low and the high half of the
/// duration in nanoseconds.
pub fn sleep_words(nanoseconds: u64) -> (r: (u32, u32))
    ensures
        r.0 as u64 + (r.1 as u64) * 0x1_0000_0000 == nanoseconds,
{
    let low = nanoseconds as u32;
    let high = (nanoseconds >> 32u64) as u32;
    assert(nanoseconds as u32 as u64 + ((nanoseconds >> 32u64) as u32 as u64) * 0x1_0000_0000
        == nanoseconds) by (bit_vector);
    (low, high)
}

} // verus!

//! Machine trait bits of the Kairos summary page and topology reply.

use vstd::prelude::*;

verus! {

pub const SMP: u32 = 0x1;
pub const NUMA: u32 = 0x2;
pub const HETEROGENEOUS: u32 = 0x4;
pub const OFFLOAD: u32 = 0x8;

} // verus!

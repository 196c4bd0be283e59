//! Feature lattice bits aligned with the driver ABI's Hermes features.

use vstd::prelude::*;

verus! {

pub const BOOT_RPC: u64 = 0x1;
pub const COMMAND_RING: u64 = 0x2;
pub const EVENT_RING: u64 = 0x4;
pub const RECOVERY: u64 = 0x8;
pub const DISPLAY: u64 = 0x10;
pub const COMPUTE: u64 = 0x20;
pub const COPY_ENGINE: u64 = 0x40;
pub const TELEMETRY: u64 = 0x80;
pub const POWER: u64 = 0x100;
pub const MEMORY_MANAGEMENT: u64 = 0x200;

/// True when feature bit `flag` is set in `bits`.
pub open spec fn has(bits: u64, flag: u64) -> bool {
    bits & flag != 0
}

/// The lattice rules: the empty set is well formed; otherwise boot RPC is
/// present, the two rings come together, display needs the command ring,
/// compute needs memory management and power needs telemetry.
pub open spec fn spec_well_formed(bits: u64) -> bool {
    bits == 0 || {
        &&& has(bits, BOOT_RPC)
        &&& has(bits, COMMAND_RING) == has(bits, EVENT_RING)
        &&& has(bits, DISPLAY) ==> has(bits, COMMAND_RING)
        &&& has(bits, COMPUTE) ==> has(bits, MEMORY_MANAGEMENT)
        &&& has(bits, POWER) ==> has(bits, TELEMETRY)
    }
}

/// Checks the feature lattice's well-formedness rules.
pub fn well_formed(bits: u64) -> (r: bool)
    ensures
        r == spec_well_formed(bits),
{
    if bits == 0 {
        return true;
    }
    if bits & BOOT_RPC == 0 {
        return false;
    }
    if bits & (COMMAND_RING | EVENT_RING) != 0 && (bits & COMMAND_RING == 0 || bits
        & EVENT_RING == 0) {
        assert(bits & (COMMAND_RING | EVENT_RING) != 0 ==> (bits & COMMAND_RING != 0 || bits
            & EVENT_RING != 0)) by (bit_vector);
        return false;
    }
    assert(bits & (COMMAND_RING | EVENT_RING) == 0 ==> (bits & COMMAND_RING == 0 && bits
        & EVENT_RING == 0)) by (bit_vector);
    if bits & DISPLAY != 0 && bits & COMMAND_RING == 0 {
        return false;
    }
    if bits & COMPUTE != 0 && bits & MEMORY_MANAGEMENT == 0 {
        return false;
    }
    if bits & POWER != 0 && bits & TELEMETRY == 0 {
        return false;
    }
    true
}

} // verus!

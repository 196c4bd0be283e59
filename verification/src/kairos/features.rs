//! Kairos ABI feature bits.

use vstd::prelude::*;

verus! {

pub const SYSCALL_BASIC: u64 = 0x1;
pub const SYSCALL_DRIVER: u64 = 0x2;
pub const ASYNC_IO: u64 = 0x4;
pub const THERMAL_PAGE: u64 = 0x8;
pub const KAIROS_PAGE: u64 = 0x10;
pub const OFFLOAD_DISPATCH: u64 = 0x20;
pub const HOLOGRAM_FS: u64 = 0x40;

} // verus!

//! Open intents: what the opener means to do with a node.

use vstd::prelude::*;

verus! {

pub const READ_INTENT: u32 = 0x1;
pub const WRITE_INTENT: u32 = 0x2;
pub const CREATE_INTENT: u32 = 0x4;
pub const EXCLUSIVE: u32 = 0x8;
pub const TRUNCATE: u32 = 0x10;
pub const APPEND_ONLY: u32 = 0x20;
pub const EPHEMERAL: u32 = 0x40;
pub const HOLOGRAM: u32 = 0x80;
pub const RW: u32 = 0x3;
pub const CREATE_RW: u32 = 0x7;

} // verus!

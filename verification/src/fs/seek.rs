//! Origins of a seek.

use vstd::prelude::*;

verus! {

pub const FROM_START: u32 = 0;
pub const FROM_CURRENT: u32 = 1;
pub const FROM_END: u32 = 2;

} // verus!

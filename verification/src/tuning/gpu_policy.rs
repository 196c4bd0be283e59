//! GPU policies a tuning profile may select.

use vstd::prelude::*;

verus! {

pub const OBSERVE: u8 = 0;
pub const BALANCED: u8 = 1;
pub const PERFORMANCE: u8 = 2;
pub const POWER_SAVE: u8 = 3;

} // verus!

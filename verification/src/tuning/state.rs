//! Outcomes of a tuning transaction.

use vstd::prelude::*;

verus! {

pub const UNKNOWN: u8 = 0;
pub const APPLIED: u8 = 1;
pub const ROLLED_BACK: u8 = 2;
pub const REJECTED: u8 = 3;

} // verus!

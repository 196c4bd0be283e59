//! Read-only Aegis service observation.
//!
//! The kernel answers a status query with one word: the service state in
//! its low byte and the process id above it. Only a running state with a
//! nonzero process id is accepted.

use vstd::prelude::*;

verus! {

pub const STATUS_RUNNING: u8 = 1;

#[derive(Clone, Copy, Debug, PartialEq, Eq, Structural)]
pub enum CrestServiceState {
    Running,
}

#[derive(Clone, Copy, Debug, PartialEq, Eq, Structural)]
pub struct CrestServiceStatus {
    pub state: CrestServiceState,
    pub pid: u32,
}

impl CrestServiceStatus {
    /// Decodes the kernel's status word.
    pub fn decode(word: u64) -> (r: Option<CrestServiceStatus>)
        ensures
            (word as u8 == STATUS_RUNNING && (word >> 8u64) as u32 != 0) ==> r == Some(
                CrestServiceStatus { state: CrestServiceState::Running, pid: (word >> 8u64) as u32 },
            ),
            !(word as u8 == STATUS_RUNNING && (word >> 8u64) as u32 != 0) ==> r is None,
    {
        if word as u8 != STATUS_RUNNING {
            return None;
        }
        let pid = (word >> 8u64) as u32;
        if pid != 0 {
            Some(CrestServiceStatus { state: CrestServiceState::Running, pid })
        } else {
            None
        }
    }
}

} // verus!

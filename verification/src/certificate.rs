//! The certificate page's echo of the kernel's transition chain.

use vstd::prelude::*;

verus! {

/// The chain root, sequence and verdict the kernel last echoed.
#[derive(Clone, Copy, Debug, PartialEq, Eq, Structural)]
pub struct EchoState {
    pub chain_root: u64,
    pub sequence: u64,
    pub verdict: u64,
}

impl EchoState {
    pub fn new(chain_root: u64, sequence: u64, verdict: u64) -> (r: EchoState)
        ensures
            r == (EchoState { chain_root, sequence, verdict }),
    {
        EchoState { chain_root, sequence, verdict }
    }
}

} // verus!

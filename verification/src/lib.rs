//! Slope: the capability-oriented userspace ABI library for ArachOS, with
//! its wire records, admission gates and bounded state machines verified.

pub mod aegis;
pub mod bridge;
pub mod capability;
pub mod certificate;
pub mod display;
pub mod env;
pub mod executor;
pub mod fs;
pub mod hermes_manifold;
pub mod hypermedia;
pub mod input;
pub mod ipc;
pub mod kairos;
pub mod memory;
pub mod net;
pub mod nexus;
pub mod process;
pub mod quantum_crest;
pub mod resonance_plane;
pub mod runtime;
pub mod scheduler;
pub mod service_calculus;
pub mod signal;
pub mod storage;
pub mod thermogenesis;
pub mod tuning;
pub mod wayland;

use vstd::prelude::*;

verus! {

/// A negative kernel status returned by a failed syscall.
#[derive(Clone, Copy, Debug, PartialEq, Eq, Structural)]
pub struct SyscallError(pub isize);

} // verus!

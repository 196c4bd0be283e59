//! The shared early-process state of a userland binary.
//!
//! Start-up collects the arguments and the environment, negotiates the ABI
//! and reads the topology; the runtime then derives the process's affinity
//! hint and work partition from the topology.

use vstd::prelude::*;

use crate::env::{EnvSnapshot, QuantumArgv};
use crate::kairos::features;
use crate::kairos::{
    spec_compute_affinity, spec_partition, CpuAffinityHint, KairosInit, WorkPartition,
    WorkloadClass,
};

verus! {

pub const DEFAULT_REQUIRED_FEATURES: u64 = features::SYSCALL_BASIC;
pub const DEFAULT_OPTIONAL_FEATURES: u64 = features::ASYNC_IO | features::THERMAL_PAGE
    | features::KAIROS_PAGE | features::OFFLOAD_DISPATCH | features::HOLOGRAM_FS;
pub const DEFAULT_WORK_UNITS: usize = 1024;

pub struct ProcessRuntime {
    pub argv: QuantumArgv,
    pub environment: EnvSnapshot,
    pub kairos: KairosInit,
    pub affinity: CpuAffinityHint,
    pub partition: WorkPartition,
}

impl ProcessRuntime {
    /// The runtime for start-up results: the affinity hint for `workload`
    /// and the partition of `work_units` both come from the topology.
    pub fn assemble(
        argv: QuantumArgv,
        environment: EnvSnapshot,
        kairos: KairosInit,
        workload: WorkloadClass,
        work_units: usize,
    ) -> (r: ProcessRuntime)
        ensures
            r.argv@ == argv@,
            r.environment@ == environment@,
            r.kairos.topology@ == kairos.topology@,
            r.kairos.features == kairos.features,
            r.affinity == spec_compute_affinity(kairos.topology@, workload),
            r.partition.slices@ == spec_partition(kairos.topology@, work_units as nat),
            r.partition.count == r.partition.slices@.len(),
    {
        let affinity = kairos.topology.compute_affinity(workload);
        let partition = kairos.topology.partition_work(work_units);
        ProcessRuntime { argv, environment, kairos, affinity, partition }
    }
}

} // verus!

use slope::kairos::features;
use slope::SyscallError;
use slope::kairos::trait_flags;
use slope::kairos::{
    AbiError, AbiNegotiator, AbiReply, CpuAffinityHint, CpuKind, DomainKind, KairosError,
    KairosPage, NegotiatedFeatures, RawCpu, RawTopology, TopologySnapshot, WorkSlice,
    WorkloadClass,
};

fn synthetic_raw(performance_cpus: usize, efficiency_cpus: usize) -> RawTopology {
    let mut raw = RawTopology::zeroed();
    let cpu_count = performance_cpus + efficiency_cpus;
    for index in 0..cpu_count {
        raw.cpus[index] = RawCpu {
            logical_id: index as u16,
            hardware_id: index as u32,
            package: 0,
            core: index as u16,
            thread: 0,
            numa_domain: if index < performance_cpus { 0 } else { 1 },
            kind: if index < performance_cpus { 1 } else { 2 },
            enabled: 1,
        };
    }
    raw.cpu_count = cpu_count as u32;

    raw.domains[0].id = 0;
    raw.domains[0].kind = 0;
    for index in 0..cpu_count {
        raw.domains[0].members[index] = index as u16;
    }
    raw.domains[0].member_count = cpu_count as u16;

    raw.domains[1].id = 1;
    raw.domains[1].kind = 1;
    raw.domains[1].parent_valid = 1;
    raw.domains[1].parent_id = 0;
    for index in 0..performance_cpus {
        raw.domains[1].members[index] = index as u16;
    }
    raw.domains[1].member_count = performance_cpus as u16;

    raw.domains[2].id = 2;
    raw.domains[2].kind = 1;
    raw.domains[2].parent_valid = 1;
    raw.domains[2].parent_id = 0;
    for index in 0..efficiency_cpus {
        raw.domains[2].members[index] = (performance_cpus + index) as u16;
    }
    raw.domains[2].member_count = efficiency_cpus as u16;
    raw.domain_count = 3;
    raw.trait_flags = trait_flags::SMP | trait_flags::NUMA | trait_flags::HETEROGENEOUS;
    raw
}

fn synthetic_snapshot(performance_cpus: usize, efficiency_cpus: usize) -> TopologySnapshot {
    match TopologySnapshot::from_raw(&synthetic_raw(performance_cpus, efficiency_cpus)) {
        Ok(snapshot) => snapshot,
        Err(error) => panic!("synthetic topology rejected: {:?}", error),
    }
}

#[test]
fn page_decodes_flags_and_features() {
    let mut page = KairosPage::zeroed();
    page.flags = trait_flags::SMP | trait_flags::NUMA | trait_flags::HETEROGENEOUS;
    page.abi_features_lo = 0xdead;
    page.abi_features_hi = 0xbeef;
    assert!(page.is_smp());
    assert!(page.is_numa());
    assert!(page.is_heterogeneous());
    assert!(!page.has_offload());
    assert_eq!(page.abi_features(), 0x0000_beef_0000_dead);
    assert!(!page.is_ready());
}

#[test]
fn affinity_uses_enabled_cpu_kinds() {
    let snapshot = synthetic_snapshot(2, 2);
    assert_eq!(
        snapshot.compute_affinity(WorkloadClass::Compute),
        CpuAffinityHint {
            domain_id: 1,
            preferred_kind: CpuKind::Performance,
            smp_eligible: true,
        }
    );
    assert_eq!(
        snapshot.compute_affinity(WorkloadClass::Io).preferred_kind,
        CpuKind::Efficiency
    );
}

#[test]
fn partition_is_proportional_and_exact() {
    let snapshot = synthetic_snapshot(3, 1);
    let partition = snapshot.partition_work(101);
    let mut slices = partition.iter().iter();
    let first = slices.next().unwrap();
    let second = slices.next().unwrap();
    assert_eq!(partition.count, 2);
    assert_eq!(first.len(), 76);
    assert_eq!(second.len(), 25);
    assert_eq!(first.len() + second.len(), 101);
    assert_eq!(second.start, first.end);
}

#[test]
fn raw_topology_rejects_unknown_members() {
    let mut raw = RawTopology::zeroed();
    raw.cpu_count = 1;
    raw.cpus[0].logical_id = 7;
    raw.domain_count = 1;
    raw.domains[0].member_count = 1;
    raw.domains[0].members[0] = 8;
    assert!(matches!(
        TopologySnapshot::from_raw(&raw),
        Err(KairosError::InvalidTopology)
    ));
}

#[test]
fn feature_queries_and_cpu_capabilities_work() {
    let negotiated = NegotiatedFeatures {
        granted_lo: features::SYSCALL_BASIC | features::ASYNC_IO,
        granted_hi: 0,
        unavailable_lo: features::HOLOGRAM_FS,
        unavailable_hi: 0,
    };
    assert!(negotiated.has(features::ASYNC_IO));
    assert!(negotiated.missing(features::HOLOGRAM_FS));
    assert!(CpuKind::Performance.is_compute_capable());
    assert!(!CpuKind::Efficiency.is_compute_capable());
    assert!(CpuKind::Offload.is_offload_only());
    assert_eq!(CpuKind::from_raw(99), CpuKind::Unknown);
}

#[test]
fn snapshot_keeps_the_validated_tables() {
    let snapshot = synthetic_snapshot(2, 1);
    assert_eq!(snapshot.cpus().len(), 3);
    assert_eq!(snapshot.domains().len(), 3);
    assert_eq!(snapshot.domains()[1].kind, DomainKind::Numa);
    assert_eq!(snapshot.domains()[1].parent, Some(0));
    assert_eq!(snapshot.domains()[2].members(), &[2u16][..]);
    assert_eq!(snapshot.numa_domain_of(2), Some(1));
    assert_eq!(snapshot.numa_domain_of(9), None);
    let mut local = snapshot.numa_local_cpus(0);
    assert_eq!(local.next().unwrap().logical_id, 0);
    assert_eq!(local.next().unwrap().logical_id, 1);
    assert!(local.next().is_none());
    let mut second = snapshot.numa_local_cpus(1);
    assert_eq!(second.next().unwrap().logical_id, 2);
    assert!(second.next().is_none());
    assert!(snapshot.is_smp() && snapshot.is_numa() && snapshot.is_heterogeneous());
    assert!(!snapshot.has_offload());
    let mut domains = snapshot.domain_iter();
    assert_eq!(domains.next().unwrap().id, 0);
    assert_eq!(domains.next().unwrap().id, 1);
    assert_eq!(domains.next().unwrap().id, 2);
    assert!(domains.next().is_none());
}

#[test]
fn raw_topology_rejects_duplicates_and_dangling_parents() {
    let mut raw = synthetic_raw(2, 2);
    raw.cpus[1].logical_id = 0;
    assert_eq!(
        TopologySnapshot::from_raw(&raw).err(),
        Some(KairosError::InvalidTopology)
    );

    let mut raw = synthetic_raw(2, 2);
    raw.domains[2].id = 1;
    assert_eq!(
        TopologySnapshot::from_raw(&raw).err(),
        Some(KairosError::InvalidTopology)
    );

    let mut raw = synthetic_raw(2, 2);
    raw.domains[1].parent_id = 9;
    assert_eq!(
        TopologySnapshot::from_raw(&raw).err(),
        Some(KairosError::InvalidTopology)
    );

    let mut raw = synthetic_raw(2, 2);
    raw.domains[1].members[1] = 0;
    assert_eq!(
        TopologySnapshot::from_raw(&raw).err(),
        Some(KairosError::InvalidTopology)
    );

    let mut raw = synthetic_raw(2, 2);
    raw.cpu_count = 0;
    assert_eq!(
        TopologySnapshot::from_raw(&raw).err(),
        Some(KairosError::InvalidTopology)
    );
}

#[test]
fn partition_without_enabled_numa_cpus_covers_everything_in_domain_zero() {
    let mut raw = synthetic_raw(2, 2);
    for index in 0..4 {
        raw.cpus[index].enabled = 0;
    }
    let snapshot = TopologySnapshot::from_raw(&raw).ok().unwrap();
    let partition = snapshot.partition_work(50);
    assert_eq!(partition.count, 1);
    assert_eq!(
        partition.iter()[0],
        WorkSlice {
            domain_id: 0,
            start: 0,
            end: 50
        }
    );
    assert_eq!(
        snapshot.compute_affinity(WorkloadClass::Compute),
        CpuAffinityHint::any()
    );
}

#[test]
fn partition_spreads_rounding_in_domain_order() {
    let snapshot = synthetic_snapshot(1, 2);
    let partition = snapshot.partition_work(10);
    let slices = partition.iter();
    assert_eq!(slices.len(), 2);
    // shares 10/3 = 3.33 and 20/3 = 6.67: floors 3 and 6, one unit left over
    assert_eq!(slices[0], WorkSlice { domain_id: 1, start: 0, end: 4 });
    assert_eq!(slices[1], WorkSlice { domain_id: 2, start: 4, end: 10 });
    assert!(!slices[0].is_empty());
}

#[test]
fn affinity_for_any_and_offload_work() {
    let snapshot = synthetic_snapshot(2, 2);
    assert_eq!(
        snapshot.compute_affinity(WorkloadClass::Any),
        CpuAffinityHint {
            domain_id: 0,
            preferred_kind: CpuKind::Symmetric,
            smp_eligible: true
        }
    );
    assert_eq!(
        snapshot.compute_affinity(WorkloadClass::Offload),
        CpuAffinityHint::any()
    );
    let io = snapshot.compute_affinity(WorkloadClass::Io);
    assert_eq!(io.domain_id, 2);
    assert!(io.smp_eligible);
}

#[test]
fn negotiation_accepts_only_sound_replies() {
    let negotiator = AbiNegotiator::native()
        .require(features::ASYNC_IO)
        .want(features::THERMAL_PAGE);
    let good = AbiReply {
        status: 0,
        features_lo_granted: features::SYSCALL_BASIC | features::ASYNC_IO,
        features_hi_granted: 0,
        features_lo_unavailable: features::THERMAL_PAGE,
        features_hi_unavailable: 0,
    };
    let negotiated = negotiator.accept_reply(&good).unwrap();
    assert!(negotiated.has(features::ASYNC_IO));
    assert!(negotiated.missing(features::THERMAL_PAGE));

    let unrequested = AbiReply {
        features_lo_granted: features::SYSCALL_BASIC | features::ASYNC_IO | features::HOLOGRAM_FS,
        ..good
    };
    assert_eq!(
        negotiator.accept_reply(&unrequested),
        Err(AbiError::InvalidReply)
    );

    let failed = AbiReply { status: 1, ..good };
    assert_eq!(negotiator.accept_reply(&failed), Err(AbiError::InvalidReply));

    let withheld = AbiReply {
        features_lo_granted: features::SYSCALL_BASIC,
        ..good
    };
    assert_eq!(
        negotiator.accept_reply(&withheld),
        Err(AbiError::RequiredFeatureMissing {
            missing_lo: features::ASYNC_IO,
            missing_hi: 0
        })
    );
    assert_eq!(negotiator.negotiate(Ok(good)), Ok(negotiated));
    assert_eq!(
        negotiator.negotiate(Err(SyscallError(-38))),
        Err(AbiError::Syscall(SyscallError(-38)))
    );
    assert_eq!(
        AbiNegotiator::driver().required_features(),
        (features::SYSCALL_BASIC | features::SYSCALL_DRIVER, 0)
    );
}

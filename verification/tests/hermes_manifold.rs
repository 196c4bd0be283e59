use slope::hermes_manifold::feature;
use slope::hermes_manifold::{HermesManifold, HermesPhase, ManifoldFault, OnlineCertificate, HermesEvidence};
use slope::quantum_crest::{SNAPSHOT_FLAG_HERMES_ONLINE, SNAPSHOT_FLAG_QUARANTINE_ACTIVE, SNAPSHOT_FLAG_RECOVERY_PENDING};

#[test]
fn full_gate_chain_reaches_online_with_certificate() {
    let mut manifold = HermesManifold::dark(7);
    assert!(manifold.observe_probe(true).is_ok());
    assert!(manifold.observe_firmware(true).is_ok());
    assert!(manifold.arm_queues(true, 3).is_ok());
    let features = feature::BOOT_RPC
        | feature::COMMAND_RING
        | feature::EVENT_RING
        | feature::DISPLAY
        | feature::TELEMETRY
        | feature::POWER
        | feature::MEMORY_MANAGEMENT
        | feature::COMPUTE;
    assert!(manifold.negotiate(features).is_ok());
    assert!(manifold.ignite(true, true, true).is_ok());
    assert!(manifold.is_online());
    assert_eq!(manifold.phase, HermesPhase::Online);
    assert_ne!(manifold.certificate.unwrap().root, 0);
    assert_ne!(manifold.snapshot_flags() & SNAPSHOT_FLAG_HERMES_ONLINE, 0);
}

#[test]
fn cannot_jump_to_online_without_gates() {
    let mut manifold = HermesManifold::dark(1);
    assert_eq!(manifold.ignite(true, true, true), Err(ManifoldFault::InvalidPhaseJump));
    assert!(manifold.observe_probe(true).is_ok());
    assert_eq!(manifold.ignite(true, true, true), Err(ManifoldFault::InvalidPhaseJump));
}

#[test]
fn ill_formed_features_reject_negotiation() {
    let mut manifold = HermesManifold::dark(2);
    assert!(manifold.observe_probe(true).is_ok());
    assert!(manifold.observe_firmware(true).is_ok());
    assert!(manifold.arm_queues(true, 1).is_ok());
    assert_eq!(
        manifold.negotiate(feature::BOOT_RPC | feature::DISPLAY),
        Err(ManifoldFault::IllFormedFeatures)
    );
}

#[test]
fn recovery_and_quarantine_clear_online_flags() {
    let mut manifold = HermesManifold::dark(3);
    assert!(manifold.observe_probe(true).is_ok());
    assert!(manifold.observe_firmware(true).is_ok());
    assert!(manifold.arm_queues(true, 9).is_ok());
    assert!(manifold
        .negotiate(feature::BOOT_RPC | feature::COMMAND_RING | feature::EVENT_RING)
        .is_ok());
    assert!(manifold.ignite(true, true, true).is_ok());
    assert!(manifold.detect_fault(false).is_ok());
    assert!(manifold.phase.is_degraded());
    assert_eq!(
        manifold.snapshot_flags() & SNAPSHOT_FLAG_RECOVERY_PENDING,
        SNAPSHOT_FLAG_RECOVERY_PENDING
    );
    assert!(manifold.contain().is_ok());
    assert_ne!(manifold.snapshot_flags() & SNAPSHOT_FLAG_QUARANTINE_ACTIVE, 0);
    assert!(manifold.release().is_ok());
    assert_eq!(manifold.phase, HermesPhase::Offline);
    assert_eq!(manifold.generation, 4);
}

#[test]
fn feature_well_formedness_matches_agda_rules() {
    assert!(feature::well_formed(0));
    assert!(feature::well_formed(feature::BOOT_RPC));
    assert!(!feature::well_formed(feature::COMMAND_RING));
    assert!(!feature::well_formed(feature::BOOT_RPC | feature::DISPLAY));
    assert!(feature::well_formed(
        feature::BOOT_RPC | feature::COMMAND_RING | feature::EVENT_RING | feature::DISPLAY
    ));
    assert!(!feature::well_formed(feature::BOOT_RPC | feature::COMPUTE));
    assert!(feature::well_formed(
        feature::BOOT_RPC | feature::MEMORY_MANAGEMENT | feature::COMPUTE
    ));
}

#[test]
fn phase_numbers_round_trip_and_labels() {
    for n in 0u8..8 {
        let phase = HermesPhase::from_u8(n).unwrap();
        assert_eq!(phase.as_u8(), n);
    }
    assert_eq!(HermesPhase::from_u8(8), None);
    assert_eq!(HermesPhase::Negotiated.label(), "NEGOTIATED");
    assert!(HermesPhase::Online.is_live());
    assert!(!HermesPhase::Online.is_degraded());
}

#[test]
fn evidence_gates_report_the_first_missing_one() {
    let mut evidence = HermesEvidence::empty();
    assert_eq!(evidence.online_ready(), Err(ManifoldFault::MissingPci));
    evidence.pci_matched = true;
    evidence.firmware_measured = true;
    assert_eq!(evidence.online_ready(), Err(ManifoldFault::MissingIommu));
    evidence.iommu_isolated = true;
    evidence.dma_domain = 4;
    evidence.wpr_locked = true;
    evidence.boot_mailbox_ok = true;
    evidence.ready_queue_observed = true;
    assert_eq!(evidence.online_ready(), Err(ManifoldFault::EmptyFeatures));
    evidence.negotiated_features = feature::POWER | feature::BOOT_RPC;
    assert_eq!(evidence.online_ready(), Err(ManifoldFault::IllFormedFeatures));
    evidence.negotiated_features = feature::BOOT_RPC;
    assert_eq!(evidence.online_ready(), Ok(()));
    let first = OnlineCertificate::seal(1, evidence).unwrap();
    let second = OnlineCertificate::seal(2, evidence).unwrap();
    assert_ne!(first.root, second.root);
    assert_eq!(first, OnlineCertificate::seal(1, evidence).unwrap());
}

#[test]
fn failed_ignition_keeps_the_phase_and_records_evidence() {
    let mut manifold = HermesManifold::dark(5);
    manifold.observe_probe(true).unwrap();
    manifold.observe_firmware(true).unwrap();
    manifold.arm_queues(true, 2).unwrap();
    manifold.negotiate(feature::BOOT_RPC).unwrap();
    assert_eq!(manifold.ignite(true, false, true), Err(ManifoldFault::MissingMailbox));
    assert_eq!(manifold.phase, HermesPhase::Negotiated);
    assert!(manifold.evidence.wpr_locked);
    assert!(manifold.certificate.is_none());
    assert_eq!(manifold.restore(), Err(ManifoldFault::InvalidPhaseJump));
    assert_eq!(manifold.observe_probe(true), Err(ManifoldFault::InvalidPhaseJump));
    assert_eq!(ManifoldFault::MissingWpr.message(), "wpr unlocked");
}

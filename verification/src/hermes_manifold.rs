//! OS-wide Hermes phase manifold shared by Boulder and Crest.
//!
//! Online is never a free jump from Probe: callers publish evidence and the
//! manifold only advances when every gate for the requested transition holds.

pub mod feature;

use vstd::prelude::*;

use crate::quantum_crest::{
    SNAPSHOT_FLAG_DMA_REVOKED, SNAPSHOT_FLAG_HERMES_ONLINE, SNAPSHOT_FLAG_QUARANTINE_ACTIVE,
    SNAPSHOT_FLAG_RECOVERY_PENDING,
};

verus! {

/// The Hermes device phases, in lattice order.
#[derive(Clone, Copy, Debug, PartialEq, Eq, Structural, PartialOrd, Ord)]
pub enum HermesPhase {
    Offline,
    Probed,
    Firmwared,
    Queued,
    Negotiated,
    Online,
    Recovering,
    Quarantined,
}

/// The wire number of a phase.
pub open spec fn phase_number(p: HermesPhase) -> u8 {
    match p {
        HermesPhase::Offline => 0,
        HermesPhase::Probed => 1,
        HermesPhase::Firmwared => 2,
        HermesPhase::Queued => 3,
        HermesPhase::Negotiated => 4,
        HermesPhase::Online => 5,
        HermesPhase::Recovering => 6,
        HermesPhase::Quarantined => 7,
    }
}

/// Phases are numbered in lifecycle order from 0: offline, probed,
/// firmwared, queued, negotiated, online, recovering, quarantined; each
/// number names one phase.
pub proof fn lemma_phase_numbers(p: HermesPhase, q: HermesPhase)
    ensures
        phase_number(p) <= 7,
        phase_number(p) == phase_number(q) ==> p == q,
        phase_number(HermesPhase::Offline) == 0,
        phase_number(HermesPhase::Probed) == 1,
        phase_number(HermesPhase::Firmwared) == 2,
        phase_number(HermesPhase::Queued) == 3,
        phase_number(HermesPhase::Negotiated) == 4,
        phase_number(HermesPhase::Online) == 5,
        phase_number(HermesPhase::Recovering) == 6,
        phase_number(HermesPhase::Quarantined) == 7,
{
}

impl HermesPhase {
    pub fn as_u8(self) -> (r: u8)
        ensures
            r == phase_number(self),
    {
        match self {
            HermesPhase::Offline => 0,
            HermesPhase::Probed => 1,
            HermesPhase::Firmwared => 2,
            HermesPhase::Queued => 3,
            HermesPhase::Negotiated => 4,
            HermesPhase::Online => 5,
            HermesPhase::Recovering => 6,
            HermesPhase::Quarantined => 7,
        }
    }

    /// Decodes a wire number; numbers above 7 name no phase.
    pub fn from_u8(value: u8) -> (r: Option<HermesPhase>)
        ensures
            value <= 7 ==> r is Some && phase_number(r->0) == value,
            value > 7 ==> r is None,
    {
        match value {
            0 => Some(HermesPhase::Offline),
            1 => Some(HermesPhase::Probed),
            2 => Some(HermesPhase::Firmwared),
            3 => Some(HermesPhase::Queued),
            4 => Some(HermesPhase::Negotiated),
            5 => Some(HermesPhase::Online),
            6 => Some(HermesPhase::Recovering),
            7 => Some(HermesPhase::Quarantined),
            _ => None,
        }
    }

    /// The upper-case ASCII name of the phase.
    pub fn label(self) -> (r: &'static str)
        ensures
            r@ == phase_label(self)@,
    {
        match self {
            HermesPhase::Offline => "OFFLINE",
            HermesPhase::Probed => "PROBED",
            HermesPhase::Firmwared => "FIRMWARED",
            HermesPhase::Queued => "QUEUED",
            HermesPhase::Negotiated => "NEGOTIATED",
            HermesPhase::Online => "ONLINE",
            HermesPhase::Recovering => "RECOVERING",
            HermesPhase::Quarantined => "QUARANTINED",
        }
    }

    pub fn is_live(self) -> (r: bool)
        ensures
            r == (self == HermesPhase::Online),
    {
        matches!(self, HermesPhase::Online)
    }

    pub fn is_degraded(self) -> (r: bool)
        ensures
            r == (self == HermesPhase::Recovering || self == HermesPhase::Quarantined),
    {
        matches!(self, HermesPhase::Recovering | HermesPhase::Quarantined)
    }
}

/// The label of each phase, as written on the wire.
pub open spec fn phase_label(p: HermesPhase) -> &'static str {
    match p {
        HermesPhase::Offline => "OFFLINE",
        HermesPhase::Probed => "PROBED",
        HermesPhase::Firmwared => "FIRMWARED",
        HermesPhase::Queued => "QUEUED",
        HermesPhase::Negotiated => "NEGOTIATED",
        HermesPhase::Online => "ONLINE",
        HermesPhase::Recovering => "RECOVERING",
        HermesPhase::Quarantined => "QUARANTINED",
    }
}

#[derive(Clone, Copy, Debug, PartialEq, Eq, Structural)]
pub enum ManifoldFault {
    InvalidPhaseJump,
    MissingPci,
    MissingFirmware,
    MissingIommu,
    MissingDomain,
    MissingWpr,
    MissingMailbox,
    MissingReadyQueue,
    EmptyFeatures,
    IllFormedFeatures,
    GenerationMismatch,
    CertificateMissing,
}

/// The human-readable description of each fault.
pub open spec fn fault_message(f: ManifoldFault) -> &'static str {
    match f {
        ManifoldFault::InvalidPhaseJump => "invalid phase jump",
        ManifoldFault::MissingPci => "pci identity missing",
        ManifoldFault::MissingFirmware => "firmware unmeasured",
        ManifoldFault::MissingIommu => "iommu isolation missing",
        ManifoldFault::MissingDomain => "dma domain missing",
        ManifoldFault::MissingWpr => "wpr unlocked",
        ManifoldFault::MissingMailbox => "boot mailbox failed",
        ManifoldFault::MissingReadyQueue => "ready queue silent",
        ManifoldFault::EmptyFeatures => "feature negotiation empty",
        ManifoldFault::IllFormedFeatures => "feature lattice ill-formed",
        ManifoldFault::GenerationMismatch => "generation mismatch",
        ManifoldFault::CertificateMissing => "online certificate missing",
    }
}

impl ManifoldFault {
    /// The human-readable description of the fault.
    pub fn message(&self) -> (r: &'static str)
        ensures
            r == fault_message(*self),
    {
        match self {
            ManifoldFault::InvalidPhaseJump => "invalid phase jump",
            ManifoldFault::MissingPci => "pci identity missing",
            ManifoldFault::MissingFirmware => "firmware unmeasured",
            ManifoldFault::MissingIommu => "iommu isolation missing",
            ManifoldFault::MissingDomain => "dma domain missing",
            ManifoldFault::MissingWpr => "wpr unlocked",
            ManifoldFault::MissingMailbox => "boot mailbox failed",
            ManifoldFault::MissingReadyQueue => "ready queue silent",
            ManifoldFault::EmptyFeatures => "feature negotiation empty",
            ManifoldFault::IllFormedFeatures => "feature lattice ill-formed",
            ManifoldFault::GenerationMismatch => "generation mismatch",
            ManifoldFault::CertificateMissing => "online certificate missing",
        }
    }
}

/// Evidence required before Online may be published.
#[derive(Clone, Copy, Debug, PartialEq, Eq, Structural)]
pub struct HermesEvidence {
    pub pci_matched: bool,
    pub firmware_measured: bool,
    pub iommu_isolated: bool,
    pub dma_domain: u32,
    pub wpr_locked: bool,
    pub boot_mailbox_ok: bool,
    pub ready_queue_observed: bool,
    pub negotiated_features: u64,
}

/// The evidence gates in the order they are checked: the first gate that
/// does not hold names the fault.
pub open spec fn spec_online_ready(e: HermesEvidence) -> Result<(), ManifoldFault> {
    if !e.pci_matched {
        Err(ManifoldFault::MissingPci)
    } else if !e.firmware_measured {
        Err(ManifoldFault::MissingFirmware)
    } else if !e.iommu_isolated {
        Err(ManifoldFault::MissingIommu)
    } else if e.dma_domain == 0 {
        Err(ManifoldFault::MissingDomain)
    } else if !e.wpr_locked {
        Err(ManifoldFault::MissingWpr)
    } else if !e.boot_mailbox_ok {
        Err(ManifoldFault::MissingMailbox)
    } else if !e.ready_queue_observed {
        Err(ManifoldFault::MissingReadyQueue)
    } else if e.negotiated_features == 0 {
        Err(ManifoldFault::EmptyFeatures)
    } else if !feature::spec_well_formed(e.negotiated_features) {
        Err(ManifoldFault::IllFormedFeatures)
    } else {
        Ok(())
    }
}

/// Every gate holds.
pub open spec fn evidence_complete(e: HermesEvidence) -> bool {
    &&& e.pci_matched
    &&& e.firmware_measured
    &&& e.iommu_isolated
    &&& e.dma_domain != 0
    &&& e.wpr_locked
    &&& e.boot_mailbox_ok
    &&& e.ready_queue_observed
    &&& e.negotiated_features != 0
    &&& feature::spec_well_formed(e.negotiated_features)
}

pub open spec fn empty_evidence() -> HermesEvidence {
    HermesEvidence {
        pci_matched: false,
        firmware_measured: false,
        iommu_isolated: false,
        dma_domain: 0,
        wpr_locked: false,
        boot_mailbox_ok: false,
        ready_queue_observed: false,
        negotiated_features: 0,
    }
}

impl HermesEvidence {
    pub fn empty() -> (r: HermesEvidence)
        ensures
            r == empty_evidence(),
    {
        HermesEvidence {
            pci_matched: false,
            firmware_measured: false,
            iommu_isolated: false,
            dma_domain: 0,
            wpr_locked: false,
            boot_mailbox_ok: false,
            ready_queue_observed: false,
            negotiated_features: 0,
        }
    }

    /// Checks every gate; `Ok` exactly when the evidence is complete.
    pub fn online_ready(self) -> (r: Result<(), ManifoldFault>)
        ensures
            r == spec_online_ready(self),
            r is Ok <==> evidence_complete(self),
    {
        if !self.pci_matched {
            return Err(ManifoldFault::MissingPci);
        }
        if !self.firmware_measured {
            return Err(ManifoldFault::MissingFirmware);
        }
        if !self.iommu_isolated {
            return Err(ManifoldFault::MissingIommu);
        }
        if self.dma_domain == 0 {
            return Err(ManifoldFault::MissingDomain);
        }
        if !self.wpr_locked {
            return Err(ManifoldFault::MissingWpr);
        }
        if !self.boot_mailbox_ok {
            return Err(ManifoldFault::MissingMailbox);
        }
        if !self.ready_queue_observed {
            return Err(ManifoldFault::MissingReadyQueue);
        }
        if self.negotiated_features == 0 {
            return Err(ManifoldFault::EmptyFeatures);
        }
        if !feature::well_formed(self.negotiated_features) {
            return Err(ManifoldFault::IllFormedFeatures);
        }
        Ok(())
    }
}

/// Sealed online certificate bound to one generation.
#[derive(Clone, Copy, Debug, PartialEq, Eq, Structural)]
pub struct OnlineCertificate {
    pub generation: u32,
    pub dma_domain: u32,
    pub negotiated_features: u64,
    pub root: u64,
}

pub const SEAL_SEED: u64 = 0x4845_524d_4553_4d4e;
pub const SEAL_MULTIPLIER: u64 = 0x9e37_79b1_85eb_ca87;

/// Rotation of a word to the left by `n` bits, `0 < n < 64`.
pub open spec fn rotl(x: u64, n: u64) -> u64 {
    (x << n) | (x >> (64 - n) as u64)
}

fn rotate_left(x: u64, n: u64) -> (r: u64)
    requires
        0 < n < 64,
    ensures
        r == rotl(x, n),
{
    (x << n) | (x >> (64 - n))
}

/// The certificate root before the zero guard.
pub open spec fn seal_state(generation: u32, dma_domain: u32, features: u64) -> u64 {
    let s0 = SEAL_SEED ^ rotl(generation as u64, 7);
    let s1 = s0.wrapping_mul(SEAL_MULTIPLIER);
    let s2 = s1 ^ rotl(dma_domain as u64, 13);
    let s3 = s2.wrapping_mul(SEAL_MULTIPLIER);
    let s4 = s3 ^ rotl(features, 19);
    s4.wrapping_mul(SEAL_MULTIPLIER)
}

/// The certificate root: the sealed state, with zero replaced by one.
pub open spec fn seal_root(generation: u32, dma_domain: u32, features: u64) -> u64 {
    let s = seal_state(generation, dma_domain, features);
    if s == 0 {
        1
    } else {
        s
    }
}

impl OnlineCertificate {
    /// Seals a certificate for `generation` from complete evidence; an
    /// incomplete record is refused with the first failing gate.
    pub fn seal(generation: u32, evidence: HermesEvidence) -> (r: Result<
        OnlineCertificate,
        ManifoldFault,
    >)
        ensures
            spec_online_ready(evidence) is Err ==> r == Err::<OnlineCertificate, ManifoldFault>(
                spec_online_ready(evidence)->Err_0,
            ),
            spec_online_ready(evidence) is Ok ==> r == Ok::<OnlineCertificate, ManifoldFault>(
                sealed_certificate(generation, evidence),
            ),
    {
        match evidence.online_ready() {
            Err(fault) => {
                return Err(fault);
            },
            Ok(()) => {},
        }
        let mut state: u64 = SEAL_SEED;
        state = state ^ rotate_left(generation as u64, 7);
        state = state.wrapping_mul(SEAL_MULTIPLIER);
        state = state ^ rotate_left(evidence.dma_domain as u64, 13);
        state = state.wrapping_mul(SEAL_MULTIPLIER);
        state = state ^ rotate_left(evidence.negotiated_features, 19);
        state = state.wrapping_mul(SEAL_MULTIPLIER);
        if state == 0 {
            state = 1;
        }
        Ok(
            OnlineCertificate {
                generation,
                dma_domain: evidence.dma_domain,
                negotiated_features: evidence.negotiated_features,
                root: state,
            },
        )
    }
}

/// The certificate sealed for `generation` from `evidence`.
pub open spec fn sealed_certificate(generation: u32, evidence: HermesEvidence) -> OnlineCertificate {
    OnlineCertificate {
        generation,
        dma_domain: evidence.dma_domain,
        negotiated_features: evidence.negotiated_features,
        root: seal_root(generation, evidence.dma_domain, evidence.negotiated_features),
    }
}

/// OS-wide Hermes manifold: phase, evidence and the online certificate.
#[derive(Clone, Copy, Debug, PartialEq, Eq, Structural)]
pub struct HermesManifold {
    pub generation: u32,
    pub phase: HermesPhase,
    pub evidence: HermesEvidence,
    pub certificate: Option<OnlineCertificate>,
    pub corrected_faults: u32,
    pub fatal_faults: u32,
}

/// The dark manifold of a generation: offline, no evidence, no certificate.
pub open spec fn dark_manifold(generation: u32) -> HermesManifold {
    HermesManifold {
        generation,
        phase: HermesPhase::Offline,
        evidence: empty_evidence(),
        certificate: None,
        corrected_faults: 0,
        fatal_faults: 0,
    }
}

pub open spec fn spec_is_online(m: HermesManifold) -> bool {
    m.phase == HermesPhase::Online && m.certificate is Some
}

/// The certificate that the manifold holds was sealed from its own evidence
/// for its own generation.
pub open spec fn certificate_matches(m: HermesManifold) -> bool {
    m.certificate is Some ==> {
        &&& evidence_complete(m.evidence)
        &&& m.certificate->0 == sealed_certificate(m.generation, m.evidence)
    }
}

/// The phase invariant of the manifold: each phase carries the evidence of
/// every gate passed to reach it, and a certificate exists exactly from
/// Online on.
pub open spec fn manifold_inv(m: HermesManifold) -> bool {
    &&& certificate_matches(m)
    &&& match m.phase {
        HermesPhase::Offline => m.certificate is None,
        HermesPhase::Probed => m.certificate is None && m.evidence.pci_matched,
        HermesPhase::Firmwared => m.certificate is None && m.evidence.pci_matched
            && m.evidence.firmware_measured,
        HermesPhase::Queued => m.certificate is None && m.evidence.pci_matched
            && m.evidence.firmware_measured && m.evidence.iommu_isolated && m.evidence.dma_domain
            != 0,
        HermesPhase::Negotiated => m.certificate is None && m.evidence.pci_matched
            && m.evidence.firmware_measured && m.evidence.iommu_isolated && m.evidence.dma_domain
            != 0 && m.evidence.negotiated_features != 0 && feature::spec_well_formed(
            m.evidence.negotiated_features,
        ),
        HermesPhase::Online => m.certificate is Some,
        HermesPhase::Recovering => m.certificate is Some,
        HermesPhase::Quarantined => true,
    }
}

/// The snapshot flags that a manifold contributes.
pub open spec fn spec_snapshot_flags(m: HermesManifold) -> u64 {
    (if spec_is_online(m) {
        SNAPSHOT_FLAG_HERMES_ONLINE
    } else {
        0
    }) | (if m.phase == HermesPhase::Recovering {
        SNAPSHOT_FLAG_RECOVERY_PENDING
    } else {
        0
    }) | (if m.phase == HermesPhase::Quarantined {
        SNAPSHOT_FLAG_QUARANTINE_ACTIVE | SNAPSHOT_FLAG_DMA_REVOKED
    } else {
        0
    })
}

/// One transition of the manifold: either nothing changed (a refused
/// call), or one of the phase moves with exactly the changes that call
/// makes.
pub open spec fn hermes_step(a: HermesManifold, b: HermesManifold) -> bool {
    ||| b == a
    ||| a.phase == HermesPhase::Offline && b == (HermesManifold {
        phase: HermesPhase::Probed,
        evidence: HermesEvidence { pci_matched: true, ..a.evidence },
        ..a
    })
    ||| a.phase == HermesPhase::Probed && b == (HermesManifold {
        phase: HermesPhase::Firmwared,
        evidence: HermesEvidence { firmware_measured: true, ..a.evidence },
        ..a
    })
    ||| a.phase == HermesPhase::Firmwared && b.evidence.dma_domain != 0 && b == (HermesManifold {
        phase: HermesPhase::Queued,
        evidence: HermesEvidence {
            iommu_isolated: true,
            dma_domain: b.evidence.dma_domain,
            ..a.evidence
        },
        ..a
    })
    ||| a.phase == HermesPhase::Queued && b.evidence.negotiated_features != 0
        && feature::spec_well_formed(b.evidence.negotiated_features) && b == (HermesManifold {
        phase: HermesPhase::Negotiated,
        evidence: HermesEvidence {
            negotiated_features: b.evidence.negotiated_features,
            ..a.evidence
        },
        ..a
    })
    ||| a.phase == HermesPhase::Negotiated && b == (HermesManifold {
        evidence: HermesEvidence {
            wpr_locked: b.evidence.wpr_locked,
            boot_mailbox_ok: b.evidence.boot_mailbox_ok,
            ready_queue_observed: b.evidence.ready_queue_observed,
            ..a.evidence
        },
        ..a
    })
    ||| a.phase == HermesPhase::Negotiated && spec_online_ready(b.evidence) is Ok && b == (
    HermesManifold {
        phase: HermesPhase::Online,
        evidence: HermesEvidence {
            wpr_locked: b.evidence.wpr_locked,
            boot_mailbox_ok: b.evidence.boot_mailbox_ok,
            ready_queue_observed: b.evidence.ready_queue_observed,
            ..a.evidence
        },
        certificate: Some(sealed_certificate(a.generation, b.evidence)),
        ..a
    })
    ||| a.phase == HermesPhase::Online && a.certificate is Some && b == (HermesManifold {
        phase: HermesPhase::Recovering,
        fatal_faults: b.fatal_faults,
        corrected_faults: b.corrected_faults,
        ..a
    })
    ||| a.phase == HermesPhase::Recovering && a.certificate is Some && b == (HermesManifold {
        phase: HermesPhase::Online,
        ..a
    })
    ||| a.phase == HermesPhase::Recovering && b == (HermesManifold {
        phase: HermesPhase::Quarantined,
        ..a
    })
    ||| a.phase == HermesPhase::Quarantined && b == dark_manifold(a.generation.wrapping_add(1))
}

/// `ms` is a run of the manifold: it starts dark in `generation` and each
/// manifold is one transition from the one before it.
pub open spec fn hermes_run(generation: u32, ms: Seq<HermesManifold>) -> bool
    decreases ms.len(),
{
    if ms.len() == 0 {
        false
    } else if ms.len() == 1 {
        ms[0] == dark_manifold(generation)
    } else {
        hermes_run(generation, ms.drop_last()) && hermes_step(ms.drop_last().last(), ms.last())
    }
}

impl HermesManifold {
    pub fn dark(generation: u32) -> (r: HermesManifold)
        ensures
            r == dark_manifold(generation),
            manifold_inv(r),
    {
        HermesManifold {
            generation,
            phase: HermesPhase::Offline,
            evidence: HermesEvidence::empty(),
            certificate: None,
            corrected_faults: 0,
            fatal_faults: 0,
        }
    }

    pub fn phase(self) -> (r: HermesPhase)
        ensures
            r == self.phase,
    {
        self.phase
    }

    /// Online means the Online phase with a sealed certificate.
    pub fn is_online(self) -> (r: bool)
        ensures
            r == spec_is_online(self),
    {
        self.phase.is_live() && self.certificate.is_some()
    }

    /// Snapshot flag contribution for Quantum Crest publication.
    pub fn snapshot_flags(self) -> (r: u64)
        ensures
            r == spec_snapshot_flags(self),
    {
        let online = if self.is_online() {
            SNAPSHOT_FLAG_HERMES_ONLINE
        } else {
            0
        };
        let recovering = if matches!(self.phase, HermesPhase::Recovering) {
            SNAPSHOT_FLAG_RECOVERY_PENDING
        } else {
            0
        };
        let quarantined = if matches!(self.phase, HermesPhase::Quarantined) {
            SNAPSHOT_FLAG_QUARANTINE_ACTIVE | SNAPSHOT_FLAG_DMA_REVOKED
        } else {
            0
        };
        online | recovering | quarantined
    }

    /// Offline to Probed, on a matching PCI identity.
    pub fn observe_probe(&mut self, pci_matched: bool) -> (r: Result<(), ManifoldFault>)
        ensures
            old(self).phase != HermesPhase::Offline ==> r == Err::<(), ManifoldFault>(
                ManifoldFault::InvalidPhaseJump,
            ) && *final(self) == *old(self),
            old(self).phase == HermesPhase::Offline && !pci_matched ==> r == Err::<
                (),
                ManifoldFault,
            >(ManifoldFault::MissingPci) && *final(self) == *old(self),
            old(self).phase == HermesPhase::Offline && pci_matched ==> r is Ok && *final(self) == (
            HermesManifold {
                phase: HermesPhase::Probed,
                evidence: HermesEvidence { pci_matched: true, ..old(self).evidence },
                ..*old(self)
            }),
            manifold_inv(*old(self)) ==> manifold_inv(*final(self)),
            hermes_step(*old(self), *final(self)),
    {
        if self.phase != HermesPhase::Offline {
            return Err(ManifoldFault::InvalidPhaseJump);
        }
        if !pci_matched {
            return Err(ManifoldFault::MissingPci);
        }
        self.evidence.pci_matched = true;
        self.phase = HermesPhase::Probed;
        Ok(())
    }

    /// Probed to Firmwared, on measured firmware.
    pub fn observe_firmware(&mut self, measured: bool) -> (r: Result<(), ManifoldFault>)
        ensures
            old(self).phase != HermesPhase::Probed ==> r == Err::<(), ManifoldFault>(
                ManifoldFault::InvalidPhaseJump,
            ) && *final(self) == *old(self),
            old(self).phase == HermesPhase::Probed && !measured ==> r == Err::<(), ManifoldFault>(
                ManifoldFault::MissingFirmware,
            ) && *final(self) == *old(self),
            old(self).phase == HermesPhase::Probed && measured ==> r is Ok && *final(self) == (
            HermesManifold {
                phase: HermesPhase::Firmwared,
                evidence: HermesEvidence { firmware_measured: true, ..old(self).evidence },
                ..*old(self)
            }),
            manifold_inv(*old(self)) ==> manifold_inv(*final(self)),
            hermes_step(*old(self), *final(self)),
    {
        if self.phase != HermesPhase::Probed {
            return Err(ManifoldFault::InvalidPhaseJump);
        }
        if !measured {
            return Err(ManifoldFault::MissingFirmware);
        }
        self.evidence.firmware_measured = true;
        self.phase = HermesPhase::Firmwared;
        Ok(())
    }

    /// Firmwared to Queued, on IOMMU isolation in a nonzero DMA domain.
    pub fn arm_queues(&mut self, iommu: bool, domain: u32) -> (r: Result<(), ManifoldFault>)
        ensures
            old(self).phase != HermesPhase::Firmwared ==> r == Err::<(), ManifoldFault>(
                ManifoldFault::InvalidPhaseJump,
            ) && *final(self) == *old(self),
            old(self).phase == HermesPhase::Firmwared && !iommu ==> r == Err::<(), ManifoldFault>(
                ManifoldFault::MissingIommu,
            ) && *final(self) == *old(self),
            old(self).phase == HermesPhase::Firmwared && iommu && domain == 0 ==> r == Err::<
                (),
                ManifoldFault,
            >(ManifoldFault::MissingDomain) && *final(self) == *old(self),
            old(self).phase == HermesPhase::Firmwared && iommu && domain != 0 ==> r is Ok
                && *final(self) == (HermesManifold {
                phase: HermesPhase::Queued,
                evidence: HermesEvidence {
                    iommu_isolated: true,
                    dma_domain: domain,
                    ..old(self).evidence
                },
                ..*old(self)
            }),
            manifold_inv(*old(self)) ==> manifold_inv(*final(self)),
            hermes_step(*old(self), *final(self)),
    {
        if self.phase != HermesPhase::Firmwared {
            return Err(ManifoldFault::InvalidPhaseJump);
        }
        if !iommu {
            return Err(ManifoldFault::MissingIommu);
        }
        if domain == 0 {
            return Err(ManifoldFault::MissingDomain);
        }
        self.evidence.iommu_isolated = true;
        self.evidence.dma_domain = domain;
        self.phase = HermesPhase::Queued;
        Ok(())
    }

    /// Queued to Negotiated, on a nonempty well-formed feature set.
    pub fn negotiate(&mut self, features: u64) -> (r: Result<(), ManifoldFault>)
        ensures
            old(self).phase != HermesPhase::Queued ==> r == Err::<(), ManifoldFault>(
                ManifoldFault::InvalidPhaseJump,
            ) && *final(self) == *old(self),
            old(self).phase == HermesPhase::Queued && features == 0 ==> r == Err::<
                (),
                ManifoldFault,
            >(ManifoldFault::EmptyFeatures) && *final(self) == *old(self),
            old(self).phase == HermesPhase::Queued && features != 0
                && !feature::spec_well_formed(features) ==> r == Err::<(), ManifoldFault>(
                ManifoldFault::IllFormedFeatures,
            ) && *final(self) == *old(self),
            old(self).phase == HermesPhase::Queued && features != 0 && feature::spec_well_formed(
                features,
            ) ==> r is Ok && *final(self) == (HermesManifold {
                phase: HermesPhase::Negotiated,
                evidence: HermesEvidence { negotiated_features: features, ..old(self).evidence },
                ..*old(self)
            }),
            manifold_inv(*old(self)) ==> manifold_inv(*final(self)),
            hermes_step(*old(self), *final(self)),
    {
        if self.phase != HermesPhase::Queued {
            return Err(ManifoldFault::InvalidPhaseJump);
        }
        if features == 0 {
            return Err(ManifoldFault::EmptyFeatures);
        }
        if !feature::well_formed(features) {
            return Err(ManifoldFault::IllFormedFeatures);
        }
        self.evidence.negotiated_features = features;
        self.phase = HermesPhase::Negotiated;
        Ok(())
    }

    /// Negotiated to Online: records the boot evidence and seals the
    /// certificate. When sealing fails the recorded evidence stays and the
    /// phase does not move.
    pub fn ignite(&mut self, wpr: bool, mailbox: bool, ready: bool) -> (r: Result<
        (),
        ManifoldFault,
    >)
        ensures
            old(self).phase != HermesPhase::Negotiated ==> r == Err::<(), ManifoldFault>(
                ManifoldFault::InvalidPhaseJump,
            ) && *final(self) == *old(self),
            old(self).phase == HermesPhase::Negotiated ==> {
                let e = HermesEvidence {
                    wpr_locked: wpr,
                    boot_mailbox_ok: mailbox,
                    ready_queue_observed: ready,
                    ..old(self).evidence
                };
                &&& spec_online_ready(e) is Err ==> r == Err::<(), ManifoldFault>(
                    spec_online_ready(e)->Err_0,
                ) && *final(self) == (HermesManifold { evidence: e, ..*old(self) })
                &&& spec_online_ready(e) is Ok ==> r is Ok && *final(self) == (HermesManifold {
                    evidence: e,
                    certificate: Some(sealed_certificate(old(self).generation, e)),
                    phase: HermesPhase::Online,
                    ..*old(self)
                })
            },
            r is Ok ==> spec_is_online(*final(self)) && wpr && mailbox && ready,
            manifold_inv(*old(self)) ==> manifold_inv(*final(self)),
            hermes_step(*old(self), *final(self)),
    {
        if self.phase != HermesPhase::Negotiated {
            return Err(ManifoldFault::InvalidPhaseJump);
        }
        self.evidence.wpr_locked = wpr;
        self.evidence.boot_mailbox_ok = mailbox;
        self.evidence.ready_queue_observed = ready;
        let certificate = match OnlineCertificate::seal(self.generation, self.evidence) {
            Ok(c) => c,
            Err(fault) => {
                return Err(fault);
            },
        };
        self.certificate = Some(certificate);
        self.phase = HermesPhase::Online;
        Ok(())
    }

    /// Online to Recovering, counting the fault by its kind.
    pub fn detect_fault(&mut self, fatal: bool) -> (r: Result<(), ManifoldFault>)
        ensures
            old(self).phase != HermesPhase::Online ==> r == Err::<(), ManifoldFault>(
                ManifoldFault::InvalidPhaseJump,
            ) && *final(self) == *old(self),
            old(self).phase == HermesPhase::Online && old(self).certificate is None ==> r == Err::<
                (),
                ManifoldFault,
            >(ManifoldFault::CertificateMissing) && *final(self) == *old(self),
            old(self).phase == HermesPhase::Online && old(self).certificate is Some ==> r is Ok
                && *final(self) == (HermesManifold {
                phase: HermesPhase::Recovering,
                fatal_faults: if fatal {
                    old(self).fatal_faults.saturating_add(1)
                } else {
                    old(self).fatal_faults
                },
                corrected_faults: if fatal {
                    old(self).corrected_faults
                } else {
                    old(self).corrected_faults.saturating_add(1)
                },
                ..*old(self)
            }),
            manifold_inv(*old(self)) ==> manifold_inv(*final(self)),
            hermes_step(*old(self), *final(self)),
    {
        if self.phase != HermesPhase::Online {
            return Err(ManifoldFault::InvalidPhaseJump);
        }
        if self.certificate.is_none() {
            return Err(ManifoldFault::CertificateMissing);
        }
        if fatal {
            self.fatal_faults = self.fatal_faults.saturating_add(1);
        } else {
            self.corrected_faults = self.corrected_faults.saturating_add(1);
        }
        self.phase = HermesPhase::Recovering;
        Ok(())
    }

    /// Recovering back to Online, only with the certificate still held.
    pub fn restore(&mut self) -> (r: Result<(), ManifoldFault>)
        ensures
            old(self).phase != HermesPhase::Recovering ==> r == Err::<(), ManifoldFault>(
                ManifoldFault::InvalidPhaseJump,
            ) && *final(self) == *old(self),
            old(self).phase == HermesPhase::Recovering && old(self).certificate is None ==> r
                == Err::<(), ManifoldFault>(ManifoldFault::CertificateMissing) && *final(self)
                == *old(self),
            old(self).phase == HermesPhase::Recovering && old(self).certificate is Some ==> r is Ok
                && *final(self) == (HermesManifold { phase: HermesPhase::Online, ..*old(self) }),
            manifold_inv(*old(self)) ==> manifold_inv(*final(self)),
            hermes_step(*old(self), *final(self)),
    {
        if self.phase != HermesPhase::Recovering {
            return Err(ManifoldFault::InvalidPhaseJump);
        }
        if self.certificate.is_none() {
            return Err(ManifoldFault::CertificateMissing);
        }
        self.phase = HermesPhase::Online;
        Ok(())
    }

    /// Recovering to Quarantined.
    pub fn contain(&mut self) -> (r: Result<(), ManifoldFault>)
        ensures
            old(self).phase != HermesPhase::Recovering ==> r == Err::<(), ManifoldFault>(
                ManifoldFault::InvalidPhaseJump,
            ) && *final(self) == *old(self),
            old(self).phase == HermesPhase::Recovering ==> r is Ok && *final(self) == (
            HermesManifold { phase: HermesPhase::Quarantined, ..*old(self) }),
            manifold_inv(*old(self)) ==> manifold_inv(*final(self)),
            hermes_step(*old(self), *final(self)),
    {
        if self.phase != HermesPhase::Recovering {
            return Err(ManifoldFault::InvalidPhaseJump);
        }
        self.phase = HermesPhase::Quarantined;
        Ok(())
    }

    /// Quarantined to the dark manifold of the next generation.
    pub fn release(&mut self) -> (r: Result<(), ManifoldFault>)
        ensures
            old(self).phase != HermesPhase::Quarantined ==> r == Err::<(), ManifoldFault>(
                ManifoldFault::InvalidPhaseJump,
            ) && *final(self) == *old(self),
            old(self).phase == HermesPhase::Quarantined ==> r is Ok && *final(self)
                == dark_manifold(old(self).generation.wrapping_add(1)),
            manifold_inv(*final(self)) || *final(self) == *old(self),
            manifold_inv(*old(self)) ==> manifold_inv(*final(self)),
            hermes_step(*old(self), *final(self)),
    {
        if self.phase != HermesPhase::Quarantined {
            return Err(ManifoldFault::InvalidPhaseJump);
        }
        *self = HermesManifold::dark(self.generation.wrapping_add(1));
        Ok(())
    }
}

/// Online is reached only through ignition: a successful `ignite` is the one
/// operation that moves a manifold that is not Online or Recovering into
/// Online, and it does so only from Negotiated with complete evidence.
pub proof fn lemma_online_requires_complete_evidence(m: HermesManifold)
    requires
        manifold_inv(m),
        spec_is_online(m),
    ensures
        evidence_complete(m.evidence),
        m.certificate->0 == sealed_certificate(m.generation, m.evidence),
        m.certificate->0.generation == m.generation,
{
}

/// The dark manifold of any generation satisfies the phase invariant and is
/// not online.
pub proof fn lemma_dark_is_offline(generation: u32)
    ensures
        manifold_inv(dark_manifold(generation)),
        !spec_is_online(dark_manifold(generation)),
        spec_snapshot_flags(dark_manifold(generation)) == 0,
{
    assert(0u64 | 0u64 | 0u64 == 0u64) by (bit_vector);
}

/// A degraded manifold never advertises the Hermes-online flag, and a
/// quarantined one always advertises revoked DMA.
pub proof fn lemma_degraded_flags(m: HermesManifold)
    requires
        m.phase == HermesPhase::Recovering || m.phase == HermesPhase::Quarantined,
    ensures
        spec_snapshot_flags(m) & SNAPSHOT_FLAG_HERMES_ONLINE == 0,
        m.phase == HermesPhase::Recovering ==> spec_snapshot_flags(m)
            & SNAPSHOT_FLAG_RECOVERY_PENDING != 0,
        m.phase == HermesPhase::Quarantined ==> spec_snapshot_flags(m) & SNAPSHOT_FLAG_DMA_REVOKED
            != 0,
{
    if m.phase == HermesPhase::Recovering {
        assert((0u64 | 0x20u64 | 0u64) & 0x1u64 == 0u64 && (0u64 | 0x20u64 | 0u64) & 0x20u64 != 0)
            by (bit_vector);
    } else {
        assert((0u64 | 0u64 | (0x8u64 | 0x10u64)) & 0x1u64 == 0u64 && (0u64 | 0u64 | (0x8u64
            | 0x10u64)) & 0x10u64 != 0) by (bit_vector);
    }
}

/// The gates all hold exactly when the evidence is ready for Online.
proof fn lemma_ready_is_complete(e: HermesEvidence)
    ensures
        spec_online_ready(e) is Ok <==> evidence_complete(e),
{
}

/// Every transition keeps the phase invariant.
pub proof fn lemma_step_keeps_invariant(a: HermesManifold, b: HermesManifold)
    requires
        manifold_inv(a),
        hermes_step(a, b),
    ensures
        manifold_inv(b),
{
    lemma_ready_is_complete(b.evidence);
    if a.phase == HermesPhase::Quarantined && b == dark_manifold(a.generation.wrapping_add(1)) {
        lemma_dark_is_offline(a.generation.wrapping_add(1));
    }
}

/// Online is never a free jump: every manifold reached from a dark one by
/// transitions satisfies the phase invariant, and an Online one holds a
/// certificate with a nonzero root, sealed for its own generation from
/// evidence on which every gate holds.
pub proof fn lemma_reached_online_is_certified(generation: u32, ms: Seq<HermesManifold>)
    requires
        hermes_run(generation, ms),
    ensures
        manifold_inv(ms.last()),
        ms.last().phase == HermesPhase::Online ==> {
            let m = ms.last();
            &&& m.certificate is Some
            &&& spec_online_ready(m.evidence) == Ok::<(), ManifoldFault>(())
            &&& m.certificate->0 == sealed_certificate(m.generation, m.evidence)
            &&& m.certificate->0.root != 0
        },
    decreases ms.len(),
{
    if ms.len() == 1 {
        lemma_dark_is_offline(generation);
    } else {
        lemma_reached_online_is_certified(generation, ms.drop_last());
        lemma_step_keeps_invariant(ms.drop_last().last(), ms.last());
    }
    lemma_ready_is_complete(ms.last().evidence);
}

} // verus!

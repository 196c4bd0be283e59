use slope::aegis::{CrestServiceState, CrestServiceStatus, STATUS_RUNNING};
use slope::display::check_bgra8888_frame;
use slope::nexus::{entangle_arguments, task_handle, NexusClient};
use slope::resonance_plane::{PendingCommand, PlaneClientError, ResonancePlaneClient};
use slope::scheduler::{sleep_words, PhaseHint, Priority};
use slope::storage::{
    AkashicDrive, DmaBlockLease, HologramBlock, NvmeBackend, StorageCapability, StorageCompletion,
    StorageError,
};
use slope::SyscallError;

#[test]
fn accepts_only_the_kernel_running_status_encoding() {
    assert_eq!(
        CrestServiceStatus::decode((47_u64 << 8) | u64::from(STATUS_RUNNING)),
        Some(CrestServiceStatus {
            state: CrestServiceState::Running,
            pid: 47,
        })
    );
    assert_eq!(CrestServiceStatus::decode(0), None);
    assert_eq!(CrestServiceStatus::decode(2), None);
}

#[test]
fn rejects_an_incomplete_bgra_frame() {
    assert_eq!(check_bgra8888_frame(&[0; 3], 1, 1, 4), Err(SyscallError(-22)));
}

#[test]
fn frame_geometry_must_match_exactly() {
    assert_eq!(check_bgra8888_frame(&[0; 8], 2, 1, 8), Ok(()));
    assert_eq!(check_bgra8888_frame(&[0; 16], 2, 2, 8), Ok(()));
    assert_eq!(check_bgra8888_frame(&[0; 16], 2, 2, 7), Err(SyscallError(-22)));
    assert_eq!(check_bgra8888_frame(&[], 0, 0, 0), Err(SyscallError(-22)));
    assert_eq!(
        check_bgra8888_frame(&[0; 4], u32::MAX, 1, u32::MAX),
        Err(SyscallError(-22))
    );
}

struct Backend;

impl NvmeBackend for Backend {
    fn wrote(
        &self,
        _after: &Self,
        _capability: StorageCapability,
        _block: DmaBlockLease,
        logical_block: u64,
        r: Result<StorageCompletion, StorageError>,
    ) -> bool {
        r == Ok(StorageCompletion { token: logical_block })
    }

    fn read(
        &self,
        after: &Self,
        capability: StorageCapability,
        block: DmaBlockLease,
        logical_block: u64,
        r: Result<StorageCompletion, StorageError>,
    ) -> bool {
        self.wrote(after, capability, block, logical_block, r)
    }

    fn submit_write(
        &mut self,
        _capability: StorageCapability,
        _block: DmaBlockLease,
        logical_block: u64,
    ) -> Result<StorageCompletion, StorageError> {
        Ok(StorageCompletion {
            token: logical_block,
        })
    }

    fn submit_read(
        &mut self,
        capability: StorageCapability,
        block: DmaBlockLease,
        logical_block: u64,
    ) -> Result<StorageCompletion, StorageError> {
        self.submit_write(capability, block, logical_block)
    }
}

#[test]
fn submits_only_bounded_opaque_dma_leases() {
    let capability = StorageCapability::from_kernel(1).unwrap();
    let lease = DmaBlockLease::from_kernel(2, 1).unwrap();
    let mut drive = AkashicDrive::new(capability, Backend);
    let mut completions = [StorageCompletion { token: 0 }; 1];
    assert_eq!(
        drive
            .inscribe_hologram(40, &[lease], &mut completions)
            .unwrap(),
        1
    );
    assert_eq!(completions[0].token, 40);
}

#[test]
fn malformed_records_are_refused() {
    assert!(StorageCapability::from_kernel(0).is_none());
    assert!(DmaBlockLease::from_kernel(2, 0).is_none());
    let capability = StorageCapability::from_kernel(1).unwrap();
    let lease = DmaBlockLease::from_kernel(2, 1).unwrap();
    let mut drive = AkashicDrive::new(capability, Backend);
    let mut none: [StorageCompletion; 0] = [];
    assert_eq!(
        drive.inscribe_hologram(0, &[lease], &mut none),
        Err(StorageError::InvalidRecord)
    );
    let mut one = [StorageCompletion { token: 0 }; 1];
    assert_eq!(drive.recall_hologram(0, &[], &mut one), Err(StorageError::InvalidRecord));
    let mut two = [StorageCompletion { token: 0 }; 2];
    assert_eq!(
        drive.recall_hologram(u64::MAX, &[lease, lease], &mut two),
        Err(StorageError::InvalidRecord)
    );
    assert_eq!(drive.recall_hologram(7, &[lease, lease], &mut two), Ok(2));
    assert_eq!(two[1].token, 8);
    assert!(HologramBlock::zeroed().interference_pattern.iter().all(|b| *b == 0));
}

#[test]
fn hints_and_handles_pack_their_fields() {
    let hint = PhaseHint {
        phase_bin: 0x7ff,
        coherence: 3,
        priority: Priority::Interactive,
        flags: 1,
    };
    assert_eq!(hint.packed(), 0x3ff | (3 << 10) | (0x9000 << 20) | (1 << 36));
    assert_eq!(Priority::Nexus.mass(), 0xffff);
    assert_eq!(sleep_words(0x1_2345_6789), (0x2345_6789, 1));
    assert_eq!(task_handle(3, 2), 0x2_0003);
    assert_eq!(
        entangle_arguments(1, 2, 5, 6, -1, 2),
        [1, 2, 5 | (6 << 32), 0xffff_ffff | (2 << 32)]
    );
    let mut client = NexusClient::new(9);
    assert_eq!(client.capability(), 9);
    assert_eq!(client.claim_sequence(), 1);
    assert_eq!(client.claim_sequence(), 2);
}

#[test]
fn a_plane_client_keeps_one_command_in_flight() {
    let mut client = ResonancePlaneClient::new(0xfeed);
    assert!(!client.has_pending_command());
    assert_eq!(client.submit(), Ok(PendingCommand { sequence: 1 }));
    assert!(client.has_pending_command());
    assert_eq!(client.expected_reply(), Some(1));
    assert_eq!(client.submit(), Err(PlaneClientError::CommandAlreadyPending));
    assert_eq!(client.expected_reply(), Some(1));
    client.settle();
    assert_eq!(client.expected_reply(), None);
    assert_eq!(client.submit(), Ok(PendingCommand { sequence: 2 }));
    assert_eq!(client.capability(), 0xfeed);
    assert_eq!(client.dropped_commands(), 0);
    assert_eq!(client.dropped_replies(), 0);
}

/// Answers each block with a token made of its logical block and the
/// direction, and refuses one chosen logical block.
struct RecordingBackend {
    refuse_at: Option<u64>,
}

impl RecordingBackend {
    fn answer(
        &mut self,
        write: bool,
        capability: StorageCapability,
        block: DmaBlockLease,
        logical_block: u64,
    ) -> Result<StorageCompletion, StorageError> {
        let _ = (capability, block);
        self.expected(write, logical_block)
    }

    fn expected(&self, write: bool, logical_block: u64) -> Result<StorageCompletion, StorageError> {
        if self.refuse_at == Some(logical_block) {
            Err(StorageError::QueueFull)
        } else {
            Ok(StorageCompletion { token: logical_block.wrapping_mul(10) + u64::from(write) })
        }
    }
}

impl NvmeBackend for RecordingBackend {
    fn wrote(
        &self,
        _after: &Self,
        _capability: StorageCapability,
        _block: DmaBlockLease,
        logical_block: u64,
        r: Result<StorageCompletion, StorageError>,
    ) -> bool {
        r == self.expected(true, logical_block)
    }

    fn read(
        &self,
        _after: &Self,
        _capability: StorageCapability,
        _block: DmaBlockLease,
        logical_block: u64,
        r: Result<StorageCompletion, StorageError>,
    ) -> bool {
        r == self.expected(false, logical_block)
    }

    fn submit_write(
        &mut self,
        capability: StorageCapability,
        block: DmaBlockLease,
        logical_block: u64,
    ) -> Result<StorageCompletion, StorageError> {
        self.answer(true, capability, block, logical_block)
    }

    fn submit_read(
        &mut self,
        capability: StorageCapability,
        block: DmaBlockLease,
        logical_block: u64,
    ) -> Result<StorageCompletion, StorageError> {
        self.answer(false, capability, block, logical_block)
    }
}

#[test]
fn a_record_goes_to_consecutive_blocks_in_order() {
    let capability = StorageCapability::from_kernel(9).unwrap();
    let lease = DmaBlockLease::from_kernel(2, 1).unwrap();
    let mut drive =
        AkashicDrive::new(capability, RecordingBackend { refuse_at: None });
    let mut completions = [StorageCompletion { token: 7 }; 4];
    assert_eq!(drive.inscribe_hologram(100, &[lease; 3], &mut completions), Ok(3));
    assert_eq!(
        completions,
        [
            StorageCompletion { token: 1001 },
            StorageCompletion { token: 1011 },
            StorageCompletion { token: 1021 },
            StorageCompletion { token: 7 },
        ]
    );
    let mut read_back = [StorageCompletion { token: 7 }; 2];
    assert_eq!(drive.recall_hologram(5, &[lease; 2], &mut read_back), Ok(2));
    assert_eq!(read_back, [StorageCompletion { token: 50 }, StorageCompletion { token: 60 }]);
}

#[test]
fn the_first_backend_refusal_ends_the_record() {
    let capability = StorageCapability::from_kernel(9).unwrap();
    let lease = DmaBlockLease::from_kernel(2, 1).unwrap();
    let mut drive =
        AkashicDrive::new(capability, RecordingBackend { refuse_at: Some(11) });
    let mut completions = [StorageCompletion { token: 7 }; 3];
    assert_eq!(
        drive.inscribe_hologram(10, &[lease; 3], &mut completions),
        Err(StorageError::QueueFull)
    );
    assert_eq!(
        completions,
        [StorageCompletion { token: 101 }, StorageCompletion { token: 7 }, StorageCompletion { token: 7 }]
    );
}

#[test]
fn a_record_past_the_last_block_is_refused_where_it_overflows() {
    let capability = StorageCapability::from_kernel(9).unwrap();
    let lease = DmaBlockLease::from_kernel(2, 1).unwrap();
    let mut drive =
        AkashicDrive::new(capability, RecordingBackend { refuse_at: None });
    let mut completions = [StorageCompletion { token: 7 }; 2];
    assert_eq!(
        drive.recall_hologram(u64::MAX, &[lease; 2], &mut completions),
        Err(StorageError::InvalidRecord)
    );
    assert_eq!(completions[1], StorageCompletion { token: 7 });
}

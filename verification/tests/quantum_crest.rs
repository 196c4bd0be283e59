use slope::quantum_crest::{
    command_root, frame_root, reply_root, snapshot_root, QuantumCrestPage, QuantumDesktopCommand,
    QuantumDesktopReply, QuantumFrameCertificate, QuantumPortalError, QuantumSystemSnapshot,
    OPCODE_QUERY_OBJECT, QUANTUM_CREST_ABI_VERSION, STATUS_OK,
};

#[test]
fn snapshot_round_trips_through_the_seqlock() {
    let mut page = QuantumCrestPage::new();
    let mut snapshot = QuantumSystemSnapshot::empty();
    snapshot.sequence = 1;
    snapshot.epoch = 7;
    snapshot.desktop_session = 9;
    snapshot.desktop_generation = 1;
    snapshot.seal(0x1234);

    page.kernel_publish_snapshot(snapshot).unwrap();
    assert_eq!(page.user_read_snapshot().unwrap(), Some(snapshot));
    assert!(snapshot.verify(0x1234));
}

#[test]
fn command_and_reply_mailboxes_transfer_ownership() {
    let mut page = QuantumCrestPage::new();
    let mut command = QuantumDesktopCommand::empty();
    command.sequence = 1;
    command.epoch = 7;
    command.session = 9;
    command.generation = 1;
    command.opcode = OPCODE_QUERY_OBJECT;
    command.seal(0x5678);

    page.user_submit_command(command).unwrap();
    assert_eq!(page.kernel_take_command().unwrap(), Some(command));
    assert_eq!(page.kernel_take_command().unwrap(), None);

    let mut reply = QuantumDesktopReply::empty();
    reply.command_sequence = command.sequence;
    reply.snapshot_sequence = 2;
    reply.status = STATUS_OK;
    reply.seal(0x5678);
    page.kernel_publish_reply(reply).unwrap();
    assert_eq!(page.user_take_reply().unwrap(), Some(reply));
}

#[test]
fn full_mailboxes_refuse_and_dead_records_are_invalid() {
    let mut page = QuantumCrestPage::new();
    let mut snapshot = QuantumSystemSnapshot::empty();
    assert_eq!(
        page.kernel_publish_snapshot(snapshot),
        Err(QuantumPortalError::Invalid)
    );
    assert_eq!(page.epochs(), (0, 0));
    snapshot.sequence = 1;
    snapshot.epoch = 3;
    page.kernel_publish_snapshot(snapshot).unwrap();
    snapshot.epoch = 4;
    assert_eq!(
        page.kernel_publish_snapshot(snapshot),
        Err(QuantumPortalError::Busy)
    );
    assert_eq!(page.epochs(), (4, 0));
    assert_eq!(page.user_read_snapshot().unwrap().unwrap().epoch, 3);
    assert_eq!(page.user_read_snapshot().unwrap(), None);

    let command = QuantumDesktopCommand::empty();
    assert_eq!(
        page.user_submit_command(command),
        Err(QuantumPortalError::Invalid)
    );
    let reply = QuantumDesktopReply::empty();
    assert_eq!(
        page.kernel_publish_reply(reply),
        Err(QuantumPortalError::Invalid)
    );
    let defaulted = QuantumCrestPage::default();
    assert_eq!(defaulted.epochs(), (0, 0));
}

#[test]
fn tampering_or_another_secret_breaks_verification() {
    let mut snapshot = QuantumSystemSnapshot::empty();
    snapshot.sequence = 5;
    snapshot.epoch = 2;
    snapshot.desktop_session = 1;
    snapshot.desktop_generation = 3;
    snapshot.seal(42);
    assert!(snapshot.verify(42));
    assert!(!snapshot.verify(43));
    assert_eq!(snapshot.root, snapshot_root(42, &snapshot));
    let mut changed = snapshot;
    changed.flags = 1;
    assert!(!changed.verify(42));
    let mut stale = snapshot;
    stale.abi_version = 0x0002_0000;
    stale.seal(42);
    assert!(!stale.verify(42));

    let mut command = QuantumDesktopCommand::empty();
    command.sequence = 1;
    command.epoch = 1;
    command.session = 1;
    command.generation = 1;
    command.opcode = 1;
    command.payload_length = 4;
    command.payload[0] = 0xaa;
    command.seal(7);
    assert!(command.verify(7));
    assert_eq!(command.root, command_root(7, &command));
    let mut other_payload = command;
    other_payload.payload[9] = 1;
    assert!(!other_payload.verify(7));
    let mut oversized = command;
    oversized.payload_length = 129;
    oversized.seal(7);
    assert!(!oversized.verify(7));

    let mut reply = QuantumDesktopReply::empty();
    reply.command_sequence = 1;
    reply.seal(9);
    assert!(reply.verify(9));
    assert_eq!(reply.root, reply_root(9, &reply));
    let mut other_frame = reply;
    other_frame.frame.lane_votes = 2;
    assert!(!other_frame.verify(9));
}

#[test]
fn empty_records_start_at_the_current_version() {
    let snapshot = QuantumSystemSnapshot::empty();
    assert_eq!(snapshot.abi_version, QUANTUM_CREST_ABI_VERSION);
    assert_eq!(snapshot.struct_size, 256);
    assert!(!snapshot.verify(0));
    let command = QuantumDesktopCommand::empty();
    assert_eq!(command.struct_size, 272);
    assert_eq!(command.payload, [0u8; 128]);
    let reply = QuantumDesktopReply::empty();
    assert_eq!(reply.struct_size, 176);
    assert_eq!(reply.status, -1);
    let frame = QuantumFrameCertificate::zero();
    assert_ne!(frame_root(1, &frame), frame_root(2, &frame));
}

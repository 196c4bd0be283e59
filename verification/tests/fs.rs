use slope::fs::{
    advance_write, flags, node_kind_from_raw, seek, AkashicDir, AkashicFile, AkashicHandle,
    AkashicStat, Dirent, FsError, NodeKind, RawStat,
};
use slope::SyscallError;

#[test]
fn kernel_statuses_map_to_typed_errors() {
    assert_eq!(FsError::from(SyscallError(-2)), FsError::NotFound);
    assert_eq!(FsError::from(SyscallError(-17)), FsError::AlreadyExists);
    assert_eq!(FsError::from(SyscallError(-13)), FsError::PermissionDenied);
    assert_eq!(FsError::from(SyscallError(-20)), FsError::NotADirectory);
    assert_eq!(FsError::from(SyscallError(-9)), FsError::HandleInvalid);
    assert_eq!(FsError::from(SyscallError(-5)), FsError::Io(SyscallError(-5)));
}

#[test]
fn records_decode_to_typed_values() {
    let raw = RawStat { size_bytes: 10, created_ticks: 1, modified_ticks: 2, flags: 3, kind: 1 };
    assert_eq!(
        AkashicStat::from_raw(raw),
        AkashicStat { size_bytes: 10, created_ticks: 1, modified_ticks: 2, flags: 3, kind: NodeKind::Directory }
    );
    assert_eq!(AkashicStat::from_raw(RawStat::zeroed()).kind, NodeKind::File);
    assert_eq!(node_kind_from_raw(4), NodeKind::Symlink);
    assert_eq!(node_kind_from_raw(99), NodeKind::File);
    let mut name = [0u8; 255];
    name[..4].copy_from_slice(b"boot");
    let entry = Dirent::from_raw(name, 4, 3);
    assert_eq!(entry.name_bytes(), b"boot");
    assert_eq!(entry.kind, NodeKind::Hologram);
    assert_eq!(flags::CREATE_RW, flags::READ_INTENT | flags::WRITE_INTENT | flags::CREATE_INTENT);
    assert_eq!(seek::FROM_END, 2);
}

#[test]
fn whole_writes_advance_by_reported_counts() {
    assert_eq!(advance_write(10, Ok(4)), Ok(6));
    assert_eq!(advance_write(6, Ok(6)), Ok(0));
    assert_eq!(advance_write(6, Ok(0)), Err(FsError::Io(SyscallError(-5))));
    assert_eq!(advance_write(6, Err(FsError::NotFound)), Err(FsError::NotFound));
    let file = AkashicFile::from_handle(AkashicHandle(5));
    assert_eq!(file.handle(), AkashicHandle(5));
}

#[test]
fn directory_cursor_stops_at_the_end_mark() {
    let mut dir = AkashicDir::from_handle(AkashicHandle(3));
    let entry = Dirent::from_raw([b'a'; 255], 1, 0);
    assert_eq!(dir.accept_entry(Ok(1), entry).unwrap().unwrap().name_bytes(), b"a");
    assert!(!dir.is_done());
    assert_eq!(dir.accept_entry(Err(SyscallError(-9)), entry).err(), Some(FsError::HandleInvalid));
    assert!(dir.accept_entry(Ok(0), entry).unwrap().is_none());
    assert!(dir.is_done());
    assert_eq!(dir.handle(), AkashicHandle(3));
}

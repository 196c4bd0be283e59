//! Path-based file operations: handles, metadata and error mapping.
//!
//! A handle is a kernel-issued capability token. The kernel's negative
//! answers map onto typed errors; its metadata and directory records decode
//! into typed values; a directory cursor stops at the kernel's end mark,
//! and writing a whole buffer proceeds by the counts the kernel reports.

pub mod flags;
pub mod seek;

use vstd::prelude::*;

use crate::SyscallError;

verus! {

pub const DIRENT_NAME_MAX: usize = 255;

/// The kernel's answer for an I/O failure.
pub const IO_FAILURE: isize = -5;

#[derive(Clone, Copy, Debug, PartialEq, Eq, Structural)]
pub struct AkashicHandle(pub u64);

#[derive(Clone, Copy, Debug, PartialEq, Eq, Structural)]
pub enum NodeKind {
    File,
    Directory,
    Device,
    Hologram,
    Symlink,
}

/// The node kind encoded by a raw byte; unknown encodings are files.
pub open spec fn spec_node_kind(raw: u8) -> NodeKind {
    match raw {
        1 => NodeKind::Directory,
        2 => NodeKind::Device,
        3 => NodeKind::Hologram,
        4 => NodeKind::Symlink,
        _ => NodeKind::File,
    }
}

/// The raw node kind on the wire: 0 a file, 1 a directory, 2 a device,
/// 3 a hologram, 4 a symbolic link.
pub open spec fn node_kind_code(k: NodeKind) -> u8 {
    match k {
        NodeKind::File => 0,
        NodeKind::Directory => 1,
        NodeKind::Device => 2,
        NodeKind::Hologram => 3,
        NodeKind::Symlink => 4,
    }
}

/// Decoding follows the wire table: every kind is decoded from its own
/// code, distinct codes up to 4 decode to distinct kinds, and any other
/// byte decodes as a file.
pub proof fn lemma_node_kind_table(k: NodeKind, a: u8, b: u8)
    ensures
        spec_node_kind(node_kind_code(k)) == k,
        a <= 4 ==> node_kind_code(spec_node_kind(a)) == a,
        a <= 4 && b <= 4 && a != b ==> spec_node_kind(a) != spec_node_kind(b),
        a > 4 ==> spec_node_kind(a) == NodeKind::File,
{
}

pub fn node_kind_from_raw(raw: u8) -> (r: NodeKind)
    ensures
        r == spec_node_kind(raw),
{
    match raw {
        1 => NodeKind::Directory,
        2 => NodeKind::Device,
        3 => NodeKind::Hologram,
        4 => NodeKind::Symlink,
        _ => NodeKind::File,
    }
}

#[derive(Clone, Copy, Debug, PartialEq, Eq, Structural)]
pub struct AkashicStat {
    pub size_bytes: u64,
    pub created_ticks: u64,
    pub modified_ticks: u64,
    pub flags: u32,
    pub kind: NodeKind,
}

#[derive(Clone, Copy, Debug, PartialEq, Eq, Structural)]
pub enum FsError {
    NotFound,
    AlreadyExists,
    PermissionDenied,
    NotADirectory,
    NotAFile,
    DirectoryNotEmpty,
    InvalidPath,
    HandleInvalid,
    Io(SyscallError),
}

/// The typed error for a kernel status.
pub open spec fn spec_fs_error(e: SyscallError) -> FsError {
    if e.0 == -2 {
        FsError::NotFound
    } else if e.0 == -17 {
        FsError::AlreadyExists
    } else if e.0 == -13 {
        FsError::PermissionDenied
    } else if e.0 == -20 {
        FsError::NotADirectory
    } else if e.0 == -9 {
        FsError::HandleInvalid
    } else {
        FsError::Io(e)
    }
}

/// The kernel's answers map to filesystem errors by their numbers: -2 not
/// found, -17 already exists, -13 permission denied, -20 not a directory,
/// -9 an invalid handle; any other answer is an I/O error that keeps it.
/// Distinct answers give distinct errors.
pub proof fn lemma_fs_error_table(e: SyscallError, f: SyscallError)
    ensures
        e.0 == -2 <==> spec_fs_error(e) == FsError::NotFound,
        e.0 == -17 <==> spec_fs_error(e) == FsError::AlreadyExists,
        e.0 == -13 <==> spec_fs_error(e) == FsError::PermissionDenied,
        e.0 == -20 <==> spec_fs_error(e) == FsError::NotADirectory,
        e.0 == -9 <==> spec_fs_error(e) == FsError::HandleInvalid,
        e.0 != -2 && e.0 != -17 && e.0 != -13 && e.0 != -20 && e.0 != -9 ==> spec_fs_error(e)
            == FsError::Io(e),
        e != f ==> spec_fs_error(e) != spec_fs_error(f),
{
}

impl From<SyscallError> for FsError {
    fn from(e: SyscallError) -> (r: FsError) {
        if e.0 == -2 {
            FsError::NotFound
        } else if e.0 == -17 {
            FsError::AlreadyExists
        } else if e.0 == -13 {
            FsError::PermissionDenied
        } else if e.0 == -20 {
            FsError::NotADirectory
        } else if e.0 == -9 {
            FsError::HandleInvalid
        } else {
            FsError::Io(e)
        }
    }
}

impl vstd::std_specs::convert::FromSpecImpl<SyscallError> for FsError {
    open spec fn obeys_from_spec() -> bool {
        true
    }

    open spec fn from_spec(e: SyscallError) -> FsError {
        spec_fs_error(e)
    }
}

/// The kernel's metadata record.
#[derive(Clone, Copy, Debug, PartialEq, Eq, Structural)]
pub struct RawStat {
    pub size_bytes: u64,
    pub created_ticks: u64,
    pub modified_ticks: u64,
    pub flags: u32,
    pub kind: u8,
}

impl RawStat {
    pub fn zeroed() -> (r: RawStat)
        ensures
            r == (RawStat { size_bytes: 0, created_ticks: 0, modified_ticks: 0, flags: 0, kind: 0 }),
    {
        RawStat { size_bytes: 0, created_ticks: 0, modified_ticks: 0, flags: 0, kind: 0 }
    }
}

impl AkashicStat {
    /// Decodes the kernel's metadata record.
    pub fn from_raw(raw: RawStat) -> (r: AkashicStat)
        ensures
            r == (AkashicStat {
                size_bytes: raw.size_bytes,
                created_ticks: raw.created_ticks,
                modified_ticks: raw.modified_ticks,
                flags: raw.flags,
                kind: spec_node_kind(raw.kind),
            }),
    {
        AkashicStat {
            size_bytes: raw.size_bytes,
            created_ticks: raw.created_ticks,
            modified_ticks: raw.modified_ticks,
            flags: raw.flags,
            kind: node_kind_from_raw(raw.kind),
        }
    }
}

/// One directory entry: a name of up to 255 bytes and the node's kind.
#[derive(Clone, Copy, Debug)]
pub struct Dirent {
    pub name: [u8; 255],
    pub name_len: u8,
    pub kind: NodeKind,
}

impl Dirent {
    /// The entry's name.
    pub fn name_bytes(&self) -> (r: &[u8])
        ensures
            r@ == self.name@.take(self.name_len as int),
    {
        vstd::slice::slice_subrange(self.name.as_slice(), 0, self.name_len as usize)
    }

    /// Decodes the kernel's directory record.
    pub fn from_raw(name: [u8; 255], name_len: u8, kind: u8) -> (r: Dirent)
        ensures
            r.name@ == name@,
            r.name_len == name_len,
            r.kind == spec_node_kind(kind),
    {
        Dirent { name, name_len, kind: node_kind_from_raw(kind) }
    }
}

/// An open file's handle.
pub struct AkashicFile {
    handle: AkashicHandle,
}

impl AkashicFile {
    pub closed spec fn spec_handle(&self) -> AkashicHandle {
        self.handle
    }

    /// Wraps the handle an open returned.
    pub fn from_handle(handle: AkashicHandle) -> (r: AkashicFile)
        ensures
            r.spec_handle() == handle,
    {
        AkashicFile { handle }
    }

    pub fn handle(&self) -> (r: AkashicHandle)
        ensures
            r == self.spec_handle(),
    {
        self.handle
    }
}

/// What is left to write after the kernel answered a write of `remaining`
/// bytes: a failure is passed on, a zero count is an I/O failure, and a
/// count of `n` leaves `remaining - n` bytes.
pub open spec fn spec_advance_write(remaining: usize, written: Result<usize, FsError>) -> Result<
    usize,
    FsError,
> {
    match written {
        Err(e) => Err(e),
        Ok(n) => if n == 0 {
            Err(FsError::Io(SyscallError(IO_FAILURE)))
        } else {
            Ok((remaining - n) as usize)
        },
    }
}

/// One step of writing a whole buffer: the bytes left after the kernel's
/// answer to a write of `remaining` bytes.
pub fn advance_write(remaining: usize, written: Result<usize, FsError>) -> (r: Result<
    usize,
    FsError,
>)
    requires
        written matches Ok(n) ==> n <= remaining,
    ensures
        r == spec_advance_write(remaining, written),
        r matches Ok(left) ==> left < remaining,
{
    match written {
        Err(e) => Err(e),
        Ok(n) => if n == 0 {
            Err(FsError::Io(SyscallError(IO_FAILURE)))
        } else {
            Ok(remaining - n)
        },
    }
}

/// A directory cursor: it stops for good at the kernel's end mark.
pub struct AkashicDir {
    handle: AkashicHandle,
    done: bool,
}

impl AkashicDir {
    pub closed spec fn spec_handle(&self) -> AkashicHandle {
        self.handle
    }

    pub closed spec fn spec_done(&self) -> bool {
        self.done
    }

    pub fn from_handle(handle: AkashicHandle) -> (r: AkashicDir)
        ensures
            r.spec_handle() == handle,
            !r.spec_done(),
    {
        AkashicDir { handle, done: false }
    }

    pub fn handle(&self) -> (r: AkashicHandle)
        ensures
            r == self.spec_handle(),
    {
        self.handle
    }

    /// The cursor has reached the end; no further read is made.
    pub fn is_done(&self) -> (r: bool)
        ensures
            r == self.spec_done(),
    {
        self.done
    }

    /// Takes the kernel's answer to a directory read: zero marks the end,
    /// any other count delivers the record, and an error is mapped.
    pub fn accept_entry(&mut self, answer: Result<usize, SyscallError>, record: Dirent) -> (r: Result<
        Option<Dirent>,
        FsError,
    >)
        requires
            !old(self).spec_done(),
        ensures
            final(self).spec_handle() == old(self).spec_handle(),
            answer == Ok::<usize, SyscallError>(0) ==> r == Ok::<Option<Dirent>, FsError>(None)
                && final(self).spec_done(),
            (answer matches Ok(n) && n != 0) ==> r == Ok::<Option<Dirent>, FsError>(Some(record))
                && !final(self).spec_done(),
            answer is Err ==> r == Err::<Option<Dirent>, FsError>(spec_fs_error(answer->Err_0))
                && !final(self).spec_done(),
    {
        match answer {
            Ok(0) => {
                self.done = true;
                Ok(None)
            },
            Ok(_) => Ok(Some(record)),
            Err(e) => Err(FsError::from(e)),
        }
    }
}

} // verus!

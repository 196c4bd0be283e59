//! Process control: the answers of the kernel's process calls.

pub mod fabric;
pub mod tachyon;

use vstd::prelude::*;

use crate::SyscallError;

verus! {

/// The kernel's answer when no child has exited yet.
pub const WOULD_BLOCK: isize = -11;

/// Reads the kernel's answer to a non-blocking wait: a child's id and exit
/// status on success, nothing while no child has exited, the error
/// otherwise.
pub fn wait_outcome(answer: Result<usize, SyscallError>, pid: u32, status: i32) -> (r: Result<
    Option<(u32, i32)>,
    SyscallError,
>)
    ensures
        answer is Ok ==> r == Ok::<Option<(u32, i32)>, SyscallError>(Some((pid, status))),
        answer is Err && answer->Err_0.0 == WOULD_BLOCK ==> r == Ok::<
            Option<(u32, i32)>,
            SyscallError,
        >(None),
        answer is Err && answer->Err_0.0 != WOULD_BLOCK ==> r == Err::<
            Option<(u32, i32)>,
            SyscallError,
        >(answer->Err_0),
{
    match answer {
        Ok(_) => Ok(Some((pid, status))),
        Err(e) => if e.0 == WOULD_BLOCK {
            Ok(None)
        } else {
            Err(e)
        },
    }
}

} // verus!

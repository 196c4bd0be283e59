//! Firmware presentation of BGRA8888 frames.
//!
//! A frame is accepted only when its geometry is nonempty, each row holds
//! four bytes per pixel, and the buffer is exactly `pitch * height` bytes.

use vstd::prelude::*;

use crate::SyscallError;

verus! {

pub const BGRA8888_BYTES_PER_PIXEL: u32 = 4;

/// The kernel's answer for an invalid argument.
pub const INVALID_ARGUMENT: isize = -22;

/// The frame's geometry is acceptable.
pub open spec fn frame_acceptable(frame_len: nat, width: u32, height: u32, pitch: u32) -> bool {
    &&& width != 0
    &&& height != 0
    &&& width * 4 <= u32::MAX
    &&& pitch >= width * 4
    &&& frame_len == pitch * height
}

/// An accepted frame holds every row's pixels: each of its `height` rows
/// starts `pitch` bytes after the one before and has room for `width`
/// four-byte pixels inside the frame; an empty frame is never accepted.
pub proof fn lemma_accepted_frame_holds_rows(frame_len: nat, width: u32, height: u32, pitch: u32, row: nat)
    requires
        frame_acceptable(frame_len, width, height, pitch),
        row < height,
    ensures
        row * pitch + 4 * width <= frame_len,
        frame_len > 0,
{
    assert(row * pitch + 4 * width <= frame_len && frame_len > 0) by (nonlinear_arith)
        requires
            row < height,
            4 * width <= pitch,
            frame_len == pitch * height,
            width > 0,
    ;
}

/// Checks a frame before it is presented.
pub fn check_bgra8888_frame(frame: &[u8], width: u32, height: u32, pitch: u32) -> (r: Result<
    (),
    SyscallError,
>)
    ensures
        frame_acceptable(frame@.len(), width, height, pitch) ==> r is Ok,
        !frame_acceptable(frame@.len(), width, height, pitch) ==> r == Err::<(), SyscallError>(
            SyscallError(INVALID_ARGUMENT),
        ),
{
    assert((pitch as u64) * (height as u64) <= u64::MAX) by (nonlinear_arith)
        requires
            pitch <= u32::MAX,
            height <= u32::MAX,
    ;
    let required = (pitch as u64) * (height as u64);
    if width == 0 || height == 0 {
        return Err(SyscallError(INVALID_ARGUMENT));
    }
    if width > u32::MAX / BGRA8888_BYTES_PER_PIXEL {
        return Err(SyscallError(INVALID_ARGUMENT));
    }
    if pitch < width * BGRA8888_BYTES_PER_PIXEL {
        return Err(SyscallError(INVALID_ARGUMENT));
    }
    if frame.len() as u64 != required {
        return Err(SyscallError(INVALID_ARGUMENT));
    }
    Ok(())
}

} // verus!

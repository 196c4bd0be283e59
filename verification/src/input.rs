//! Native pointing-device and keyboard records.
//!
//! The kernel normalizes one trusted controller packet at a time and copies
//! it into a caller record; its answer says whether a packet was waiting.

use vstd::prelude::*;

use crate::SyscallError;

verus! {

/// The kernel's answer for a malformed input reply.
pub const MALFORMED_INPUT_REPLY: isize = -74;

#[derive(Clone, Copy, Debug, PartialEq, Eq)]
pub struct PointerMotion {
    pub delta_x: i16,
    pub delta_y: i16,
    pub buttons: u8,
    reserved: [u8; 3],
}

impl View for PointerMotion {
    type V = (i16, i16, u8);

    /// The deltas and the button mask; the padding is not part of the value.
    closed spec fn view(&self) -> (i16, i16, u8) {
        (self.delta_x, self.delta_y, self.buttons)
    }
}

impl PointerMotion {
    /// The padding bytes of the wire record.
    pub closed spec fn spec_reserved(&self) -> Seq<u8> {
        self.reserved@
    }

    pub fn new(delta_x: i16, delta_y: i16, buttons: u8) -> (r: PointerMotion)
        ensures
            r@ == (delta_x, delta_y, buttons),
            r.spec_reserved() == seq![0u8, 0u8, 0u8],
    {
        let r = PointerMotion { delta_x, delta_y, buttons, reserved: [0u8; 3] };
        assert(r.reserved@ =~= seq![0u8, 0u8, 0u8]);
        r
    }
}

#[derive(Clone, Copy, Debug, PartialEq, Eq)]
pub struct KeyEvent {
    pub code: u32,
    pub pressed: u8,
    reserved: [u8; 3],
}

impl View for KeyEvent {
    type V = (u32, u8);

    /// The key code and the pressed byte; the padding is not part of the value.
    closed spec fn view(&self) -> (u32, u8) {
        (self.code, self.pressed)
    }
}

impl KeyEvent {
    /// The padding bytes of the wire record.
    pub closed spec fn spec_reserved(&self) -> Seq<u8> {
        self.reserved@
    }

    pub fn new(code: u32, pressed: bool) -> (r: KeyEvent)
        ensures
            r@ == (code, if pressed {
                1u8
            } else {
                0u8
            }),
            r.spec_reserved() == seq![0u8, 0u8, 0u8],
    {
        let r = KeyEvent {
            code,
            pressed: if pressed {
                1
            } else {
                0
            },
            reserved: [0u8; 3],
        };
        assert(r.reserved@ =~= seq![0u8, 0u8, 0u8]);
        r
    }


    pub fn is_pressed(self) -> (r: bool)
        ensures
            r == (self@.1 != 0),
    {
        self.pressed != 0
    }
}

/// Reads the kernel's answer to a pointer query: zero means no packet was
/// waiting, one means `motion` holds a packet, anything else is malformed.
pub fn pointer_motion_from_reply(available: usize, motion: PointerMotion) -> (r: Result<
    Option<PointerMotion>,
    SyscallError,
>)
    ensures
        available == 0 ==> r == Ok::<Option<PointerMotion>, SyscallError>(None),
        available == 1 ==> r == Ok::<Option<PointerMotion>, SyscallError>(Some(motion)),
        available > 1 ==> r == Err::<Option<PointerMotion>, SyscallError>(
            SyscallError(MALFORMED_INPUT_REPLY),
        ),
{
    match available {
        0 => Ok(None),
        1 => Ok(Some(motion)),
        _ => Err(SyscallError(MALFORMED_INPUT_REPLY)),
    }
}

/// Reads the kernel's answer to a keyboard query, as for pointer packets.
pub fn key_event_from_reply(available: usize, event: KeyEvent) -> (r: Result<
    Option<KeyEvent>,
    SyscallError,
>)
    ensures
        available == 0 ==> r == Ok::<Option<KeyEvent>, SyscallError>(None),
        available == 1 ==> r == Ok::<Option<KeyEvent>, SyscallError>(Some(event)),
        available > 1 ==> r == Err::<Option<KeyEvent>, SyscallError>(
            SyscallError(MALFORMED_INPUT_REPLY),
        ),
{
    match available {
        0 => Ok(None),
        1 => Ok(Some(event)),
        _ => Err(SyscallError(MALFORMED_INPUT_REPLY)),
    }
}

} // verus!

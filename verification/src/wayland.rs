//! Capability-bound display and input records for the desktop shell.
//!
//! A display lease describes one scan-out buffer; a surface lease is valid
//! only against a valid display of the same generation; an input record is
//! valid once it carries a serial.

use vstd::prelude::*;

verus! {

pub const WAYLAND_WIRE_VERSION: u16 = 1;
pub const MAXIMUM_SURFACES: usize = 16;

#[derive(Clone, Copy, Debug, PartialEq, Eq, Structural)]
pub enum PixelFormat {
    Bgra8888,
}

#[derive(Clone, Copy, Debug, PartialEq, Eq, Structural)]
pub struct DisplayLease {
    pub version: u16,
    pub format: PixelFormat,
    pub width: u32,
    pub height: u32,
    pub pitch: u32,
    pub generation: u64,
    pub capability: u64,
}

/// Bytes of one row of four-byte pixels, saturated at `u32::MAX`.
pub open spec fn row_bytes(width: u32) -> u32 {
    if width * 4 > u32::MAX {
        u32::MAX
    } else {
        (width * 4) as u32
    }
}

fn saturating_row_bytes(width: u32) -> (r: u32)
    ensures
        r == row_bytes(width),
{
    if width > u32::MAX / 4 {
        u32::MAX
    } else {
        width * 4
    }
}

pub open spec fn display_valid(d: DisplayLease) -> bool {
    &&& d.version == WAYLAND_WIRE_VERSION
    &&& d.format == PixelFormat::Bgra8888
    &&& d.width != 0
    &&& d.height != 0
    &&& d.pitch >= row_bytes(d.width)
    &&& d.generation != 0
    &&& d.capability != 0
}

impl DisplayLease {
    pub fn valid(self) -> (r: bool)
        ensures
            r == display_valid(self),
    {
        self.version == WAYLAND_WIRE_VERSION && self.format == PixelFormat::Bgra8888 && self.width
            != 0 && self.height != 0 && self.pitch >= saturating_row_bytes(self.width)
            && self.generation != 0 && self.capability != 0
    }
}

#[derive(Clone, Copy, Debug, PartialEq, Eq, Structural)]
pub struct SurfaceLease {
    pub surface_id: u32,
    pub buffer_id: u32,
    pub x: i32,
    pub y: i32,
    pub width: u32,
    pub height: u32,
    pub stride: u32,
    pub generation: u64,
    pub capability: u64,
}

pub open spec fn surface_valid_for(s: SurfaceLease, d: DisplayLease) -> bool {
    &&& display_valid(d)
    &&& s.surface_id != 0
    &&& s.buffer_id != 0
    &&& s.width != 0
    &&& s.height != 0
    &&& s.stride >= row_bytes(s.width)
    &&& s.generation == d.generation
    &&& s.capability != 0
}

impl SurfaceLease {
    pub fn valid_for(self, display: DisplayLease) -> (r: bool)
        ensures
            r == surface_valid_for(self, display),
    {
        display.valid() && self.surface_id != 0 && self.buffer_id != 0 && self.width != 0
            && self.height != 0 && self.stride >= saturating_row_bytes(self.width)
            && self.generation == display.generation && self.capability != 0
    }
}

/// A surface is bound to exactly one display generation: it is never valid
/// against a display of another generation, nor against an invalid one.
pub proof fn lemma_surface_bound_to_generation(s: SurfaceLease, d: DisplayLease)
    ensures
        s.generation != d.generation ==> !surface_valid_for(s, d),
        !display_valid(d) ==> !surface_valid_for(s, d),
        surface_valid_for(s, d) ==> s.generation != 0,
{
}

#[derive(Clone, Copy, Debug, PartialEq, Eq, Structural)]
pub enum InputKind {
    Motion,
    Button,
    Axis,
    Key,
    Touch,
    Gesture,
}

#[derive(Clone, Copy, Debug, PartialEq, Eq)]
pub struct InputRecord {
    pub kind: InputKind,
    pub state: u8,
    pub reserved: [u8; 2],
    pub code: u32,
    pub x: i32,
    pub y: i32,
    pub value: i32,
    pub serial: u64,
}

impl InputRecord {
    /// Every kind is known; the record must carry a serial.
    pub fn valid(self) -> (r: bool)
        ensures
            r == (self.serial != 0),
    {
        match self.kind {
            InputKind::Motion | InputKind::Button | InputKind::Axis | InputKind::Key
            | InputKind::Touch | InputKind::Gesture => self.serial != 0,
        }
    }
}

} // verus!

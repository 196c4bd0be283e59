//! The coherent DMA ring shared with a network device.
//!
//! Each receive descriptor is owned by the device, ready for the user, or
//! held by the user; a ready packet is handed out once and returns to the
//! device when released. Each transmit descriptor is free or owned by the
//! device; a frame is copied into the next free one and handed over.

use vstd::prelude::*;

verus! {

pub const RING_ENTRIES: usize = 256;
pub const MAXIMUM_FRAME_BYTES: usize = 2048;

/// Bytes of the ring's C layout, which a driver must pin and map whole.
pub const DMA_SPAN_BYTES: usize = 1_056_768;

#[derive(Clone, Copy, Debug, PartialEq, Eq, Structural)]
pub enum BridgeError {
    InvalidPayloadLength,
    InvalidHardwareLength,
    TransmitQueueFull,
    InvalidCapability,
}

#[derive(Clone, Copy, Debug, PartialEq, Eq, Structural)]
pub enum ReceiveState {
    DeviceOwned,
    Ready,
    UserHeld,
}

#[derive(Clone, Copy, Debug, PartialEq, Eq, Structural)]
pub enum TransmitState {
    Free,
    DeviceOwned,
}

struct ReceiveDescriptor {
    buffer: Vec<u8>,
    length: u32,
    state: ReceiveState,
}

struct TransmitDescriptor {
    buffer: Vec<u8>,
    length: u32,
    state: TransmitState,
}

/// One descriptor's abstract value: its state, its length word and its
/// buffer.
pub struct SlotView<S> {
    pub state: S,
    pub length: u32,
    pub bytes: Seq<u8>,
}

/// The abstract value of a ring.
pub struct RingView {
    pub receive: Seq<SlotView<ReceiveState>>,
    pub transmit: Seq<SlotView<TransmitState>>,
    pub receive_consumer: nat,
    pub transmit_producer: nat,
}

/// A received packet held by the user: the descriptor and its length.
#[derive(Clone, Copy, Debug, PartialEq, Eq, Structural)]
pub struct ReceivedPacket {
    index: usize,
    length: usize,
}

impl ReceivedPacket {
    pub closed spec fn spec_index(&self) -> nat {
        self.index as nat
    }

    pub closed spec fn spec_length(&self) -> nat {
        self.length as nat
    }
}

pub struct BifrostRing {
    receive_consumer: usize,
    transmit_producer: usize,
    receive: Vec<ReceiveDescriptor>,
    transmit: Vec<TransmitDescriptor>,
}

impl View for BifrostRing {
    type V = RingView;

    closed spec fn view(&self) -> RingView {
        RingView {
            receive: Seq::new(
                self.receive@.len(),
                |i: int|
                    SlotView {
                        state: self.receive@[i].state,
                        length: self.receive@[i].length,
                        bytes: self.receive@[i].buffer@,
                    },
            ),
            transmit: Seq::new(
                self.transmit@.len(),
                |i: int|
                    SlotView {
                        state: self.transmit@[i].state,
                        length: self.transmit@[i].length,
                        bytes: self.transmit@[i].buffer@,
                    },
            ),
            receive_consumer: self.receive_consumer as nat,
            transmit_producer: self.transmit_producer as nat,
        }
    }
}

/// The position after `i` in the ring.
pub open spec fn next_index(i: nat) -> nat {
    (i + 1) % (RING_ENTRIES as nat)
}

/// The ring's shape: full tables of full-size buffers and indices within
/// them.
pub open spec fn ring_shape(v: RingView) -> bool {
    &&& v.receive.len() == RING_ENTRIES
    &&& v.transmit.len() == RING_ENTRIES
    &&& v.receive_consumer < RING_ENTRIES
    &&& v.transmit_producer < RING_ENTRIES
    &&& forall|i: int| 0 <= i < RING_ENTRIES ==> #[trigger] v.receive[i].bytes.len()
        == MAXIMUM_FRAME_BYTES
    &&& forall|i: int| 0 <= i < RING_ENTRIES ==> #[trigger] v.transmit[i].bytes.len()
        == MAXIMUM_FRAME_BYTES
}

/// What a receive does to the ring and answers, from `v` to `w`: a slot
/// the device has not readied yields nothing, a ready slot with a length
/// word out of range goes back to the device and is skipped, and a ready
/// slot is handed out and held.
pub open spec fn receive_outcome(
    v: RingView,
    r: Result<Option<ReceivedPacket>, BridgeError>,
    w: RingView,
) -> bool {
    let i = v.receive_consumer as int;
    let slot = v.receive[i];
    &&& w.transmit == v.transmit
    &&& w.transmit_producer == v.transmit_producer
    &&& if slot.state != ReceiveState::Ready {
        &&& r == Ok::<Option<ReceivedPacket>, BridgeError>(None)
        &&& w.receive == v.receive
        &&& w.receive_consumer == v.receive_consumer
    } else if slot.length > MAXIMUM_FRAME_BYTES {
        &&& r == Err::<Option<ReceivedPacket>, BridgeError>(BridgeError::InvalidHardwareLength)
        &&& w.receive == v.receive.update(
            i,
            SlotView { state: ReceiveState::DeviceOwned, length: 0, bytes: slot.bytes },
        )
        &&& w.receive_consumer == next_index(i as nat)
    } else {
        &&& r is Ok && r->Ok_0 is Some
        &&& r->Ok_0->Some_0.spec_index() == i
        &&& r->Ok_0->Some_0.spec_length() == slot.length
        &&& w.receive == v.receive.update(i, SlotView { state: ReceiveState::UserHeld, ..slot })
        &&& w.receive_consumer == v.receive_consumer
    }
}

/// What a transmit of `payload` does to the ring and answers, from `v` to
/// `w`: an empty or oversized frame is refused, a slot the device still
/// owns means the queue is full, and otherwise the frame is copied into the
/// slot and handed to the device.
pub open spec fn transmit_outcome(
    v: RingView,
    payload: Seq<u8>,
    r: Result<(), BridgeError>,
    w: RingView,
) -> bool {
    let i = v.transmit_producer as int;
    let slot = v.transmit[i];
    if payload.len() == 0 || payload.len() > MAXIMUM_FRAME_BYTES {
        r == Err::<(), BridgeError>(BridgeError::InvalidPayloadLength) && w == v
    } else if slot.state != TransmitState::Free {
        r == Err::<(), BridgeError>(BridgeError::TransmitQueueFull) && w == v
    } else {
        &&& r is Ok
        &&& w.receive == v.receive
        &&& w.receive_consumer == v.receive_consumer
        &&& w.transmit == v.transmit.update(
            i,
            SlotView {
                state: TransmitState::DeviceOwned,
                length: payload.len() as u32,
                bytes: payload + slot.bytes.skip(payload.len() as int),
            },
        )
        &&& w.transmit_producer == next_index(i as nat)
    }
}

fn zero_buffer() -> (r: Vec<u8>)
    ensures
        r@ == Seq::new(MAXIMUM_FRAME_BYTES as nat, |i: int| 0u8),
{
    let mut buffer: Vec<u8> = Vec::new();
    let mut i: usize = 0;
    while i < MAXIMUM_FRAME_BYTES
        invariant
            i <= MAXIMUM_FRAME_BYTES,
            buffer@ == Seq::new(i as nat, |k: int| 0u8),
        decreases MAXIMUM_FRAME_BYTES - i,
    {
        buffer.push(0);
        i = i + 1;
        assert(buffer@ =~= Seq::new(i as nat, |k: int| 0u8));
    }
    buffer
}

/// Copies `payload` over the front of `buffer`.
fn copy_into(buffer: &mut Vec<u8>, payload: &[u8])
    requires
        payload@.len() <= old(buffer)@.len(),
    ensures
        final(buffer)@ == payload@ + old(buffer)@.skip(payload@.len() as int),
{
    let mut i: usize = 0;
    while i < payload.len()
        invariant
            payload@.len() <= old(buffer)@.len(),
            buffer@.len() == old(buffer)@.len(),
            i <= payload@.len(),
            forall|k: int| 0 <= k < i ==> buffer@[k] == payload@[k],
            forall|k: int| i <= k < buffer@.len() ==> buffer@[k] == old(buffer)@[k],
        decreases payload@.len() - i,
    {
        buffer.set(i, payload[i]);
        i = i + 1;
    }
    assert(buffer@ =~= payload@ + old(buffer)@.skip(payload@.len() as int));
}

impl BifrostRing {
    /// A ring with every receive descriptor owned by the device and every
    /// transmit descriptor free.
    pub fn new() -> (r: BifrostRing)
        ensures
            ring_shape(r@),
            r@.receive_consumer == 0 && r@.transmit_producer == 0,
            forall|i: int| 0 <= i < RING_ENTRIES ==> (#[trigger] r@.receive[i]).state
                == ReceiveState::DeviceOwned && r@.receive[i].length == 0,
            forall|i: int| 0 <= i < RING_ENTRIES ==> (#[trigger] r@.transmit[i]).state
                == TransmitState::Free && r@.transmit[i].length == 0,
    {
        let mut receive: Vec<ReceiveDescriptor> = Vec::new();
        let mut transmit: Vec<TransmitDescriptor> = Vec::new();
        let mut i: usize = 0;
        while i < RING_ENTRIES
            invariant
                i <= RING_ENTRIES,
                receive@.len() == i,
                transmit@.len() == i,
                forall|k: int| 0 <= k < i ==> (#[trigger] receive@[k]).state
                    == ReceiveState::DeviceOwned && receive@[k].length == 0
                    && receive@[k].buffer@.len() == MAXIMUM_FRAME_BYTES,
                forall|k: int| 0 <= k < i ==> (#[trigger] transmit@[k]).state == TransmitState::Free
                    && transmit@[k].length == 0 && transmit@[k].buffer@.len()
                    == MAXIMUM_FRAME_BYTES,
            decreases RING_ENTRIES - i,
        {
            receive.push(
                ReceiveDescriptor {
                    buffer: zero_buffer(),
                    length: 0,
                    state: ReceiveState::DeviceOwned,
                },
            );
            transmit.push(
                TransmitDescriptor { buffer: zero_buffer(), length: 0, state: TransmitState::Free },
            );
            i = i + 1;
        }
        BifrostRing { receive_consumer: 0, transmit_producer: 0, receive, transmit }
    }

    /// Takes the next received packet. A descriptor the device has not
    /// readied yields nothing; one whose length word is out of range is
    /// returned to the device and skipped.
    pub fn try_receive(&mut self) -> (r: Result<Option<ReceivedPacket>, BridgeError>)
        requires
            ring_shape(old(self)@),
        ensures
            ring_shape(final(self)@),
            receive_outcome(old(self)@, r, final(self)@),
    {
        let index = self.receive_consumer;
        let ghost before = self@;
        if self.receive[index].state != ReceiveState::Ready {
            return Ok(None);
        }
        let length = self.receive[index].length;
        if length as usize > MAXIMUM_FRAME_BYTES {
            let mut descriptor = self.receive.remove(index);
            descriptor.length = 0;
            descriptor.state = ReceiveState::DeviceOwned;
            self.receive.insert(index, descriptor);
            self.receive_consumer = if index + 1 == RING_ENTRIES {
                0
            } else {
                index + 1
            };
            assert(self@.receive =~= before.receive.update(
                index as int,
                SlotView {
                    state: ReceiveState::DeviceOwned,
                    length: 0,
                    bytes: before.receive[index as int].bytes,
                },
            ));
            return Err(BridgeError::InvalidHardwareLength);
        }
        let mut descriptor = self.receive.remove(index);
        descriptor.state = ReceiveState::UserHeld;
        self.receive.insert(index, descriptor);
        assert(self@.receive =~= before.receive.update(
            index as int,
            SlotView { state: ReceiveState::UserHeld, ..before.receive[index as int] },
        ));
        Ok(Some(ReceivedPacket { index, length: length as usize }))
    }

    /// The bytes of a held packet.
    pub fn packet_bytes(&self, packet: &ReceivedPacket) -> (r: &[u8])
        requires
            ring_shape(self@),
            packet.spec_index() < RING_ENTRIES,
            packet.spec_length() <= MAXIMUM_FRAME_BYTES,
        ensures
            r@ == self@.receive[packet.spec_index() as int].bytes.take(
                packet.spec_length() as int,
            ),
    {
        assert(self@.receive[packet.index as int].bytes.len() == MAXIMUM_FRAME_BYTES);
        let buffer = self.receive[packet.index].buffer.as_slice();
        vstd::slice::slice_subrange(buffer, 0, packet.length)
    }

    /// Returns a held packet's descriptor to the device; the next receive
    /// looks at the descriptor after it.
    pub fn release(&mut self, packet: ReceivedPacket)
        requires
            ring_shape(old(self)@),
            packet.spec_index() < RING_ENTRIES,
        ensures
            ring_shape(final(self)@),
            final(self)@.transmit == old(self)@.transmit,
            final(self)@.transmit_producer == old(self)@.transmit_producer,
            final(self)@.receive == old(self)@.receive.update(
                packet.spec_index() as int,
                SlotView {
                    state: ReceiveState::DeviceOwned,
                    length: 0,
                    bytes: old(self)@.receive[packet.spec_index() as int].bytes,
                },
            ),
            final(self)@.receive_consumer == next_index(packet.spec_index()),
    {
        let ghost before = self@;
        let index = packet.index;
        let mut descriptor = self.receive.remove(index);
        descriptor.length = 0;
        descriptor.state = ReceiveState::DeviceOwned;
        self.receive.insert(index, descriptor);
        self.receive_consumer = if index + 1 == RING_ENTRIES {
            0
        } else {
            index + 1
        };
        assert(self@.receive =~= before.receive.update(
            index as int,
            SlotView {
                state: ReceiveState::DeviceOwned,
                length: 0,
                bytes: before.receive[index as int].bytes,
            },
        ));
    }

    /// Copies one frame into the next transmit descriptor and hands it to
    /// the device; a descriptor the device still owns means the queue is
    /// full.
    pub fn transmit(&mut self, payload: &[u8]) -> (r: Result<(), BridgeError>)
        requires
            ring_shape(old(self)@),
        ensures
            ring_shape(final(self)@),
            transmit_outcome(old(self)@, payload@, r, final(self)@),
    {
        if payload.len() == 0 || payload.len() > MAXIMUM_FRAME_BYTES {
            return Err(BridgeError::InvalidPayloadLength);
        }
        let index = self.transmit_producer;
        let ghost before = self@;
        if self.transmit[index].state != TransmitState::Free {
            return Err(BridgeError::TransmitQueueFull);
        }
        assert(before.transmit[index as int].bytes.len() == MAXIMUM_FRAME_BYTES);
        let mut descriptor = self.transmit.remove(index);
        copy_into(&mut descriptor.buffer, payload);
        descriptor.length = payload.len() as u32;
        descriptor.state = TransmitState::DeviceOwned;
        self.transmit.insert(index, descriptor);
        self.transmit_producer = if index + 1 == RING_ENTRIES {
            0
        } else {
            index + 1
        };
        assert(self@.transmit =~= before.transmit.update(
            index as int,
            SlotView {
                state: TransmitState::DeviceOwned,
                length: payload@.len() as u32,
                bytes: payload@ + before.transmit[index as int].bytes.skip(payload@.len() as int),
            },
        ));
        Ok(())
    }

    /// The device's side of a receive: it fills a descriptor it owns and
    /// marks it ready.
    pub fn inject_receive(&mut self, index: usize, payload: &[u8])
        requires
            ring_shape(old(self)@),
            index < RING_ENTRIES,
            payload@.len() <= MAXIMUM_FRAME_BYTES,
            old(self)@.receive[index as int].state == ReceiveState::DeviceOwned,
        ensures
            ring_shape(final(self)@),
            final(self)@.transmit == old(self)@.transmit,
            final(self)@.transmit_producer == old(self)@.transmit_producer,
            final(self)@.receive_consumer == old(self)@.receive_consumer,
            final(self)@.receive == old(self)@.receive.update(
                index as int,
                SlotView {
                    state: ReceiveState::Ready,
                    length: payload@.len() as u32,
                    bytes: payload@ + old(self)@.receive[index as int].bytes.skip(
                        payload@.len() as int,
                    ),
                },
            ),
    {
        let ghost before = self@;
        assert(before.receive[index as int].bytes.len() == MAXIMUM_FRAME_BYTES);
        let mut descriptor = self.receive.remove(index);
        copy_into(&mut descriptor.buffer, payload);
        descriptor.length = payload.len() as u32;
        descriptor.state = ReceiveState::Ready;
        self.receive.insert(index, descriptor);
        assert(self@.receive =~= before.receive.update(
            index as int,
            SlotView {
                state: ReceiveState::Ready,
                length: payload@.len() as u32,
                bytes: payload@ + before.receive[index as int].bytes.skip(payload@.len() as int),
            },
        ));
    }
}

/// A packet the device readied is handed out once: while it is held, the
/// same descriptor is not handed out again, and a released descriptor
/// belongs to the device until it readies it anew.
pub proof fn lemma_held_packets_are_exclusive(v: RingView, i: int)
    requires
        ring_shape(v),
        0 <= i < RING_ENTRIES,
        v.receive[i].state != ReceiveState::Ready,
    ensures
        v.receive[i].state == ReceiveState::UserHeld || v.receive[i].state
            == ReceiveState::DeviceOwned,
{
}

} // verus!

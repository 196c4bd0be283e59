//! Sockets over a coherent DMA ring.
//!
//! A socket needs a nonzero local port and a live network capability; it
//! reads and writes frames through the ring it was attached to.

use vstd::prelude::*;

use crate::bridge::{
    receive_outcome, ring_shape, transmit_outcome, BifrostRing, BridgeError, ReceivedPacket,
    RingView,
};

verus! {

/// Generation-checked authority from the kernel's network broker.
#[derive(Clone, Copy, Debug, PartialEq, Eq, Structural)]
pub struct NetworkCapability {
    id: u32,
    generation: u32,
}

impl NetworkCapability {
    pub closed spec fn spec_id(&self) -> u32 {
        self.id
    }

    pub closed spec fn spec_generation(&self) -> u32 {
        self.generation
    }

    /// A token from an authenticated kernel reply; none for a zero id or
    /// generation.
    pub fn from_kernel(id: u32, generation: u32) -> (r: Option<NetworkCapability>)
        ensures
            id == 0 || generation == 0 ==> r is None,
            id != 0 && generation != 0 ==> r is Some && r->Some_0.spec_id() == id
                && r->Some_0.spec_generation() == generation,
    {
        if id == 0 || generation == 0 {
            return None;
        }
        Some(NetworkCapability { id, generation })
    }
}

/// A socket endpoint attached to a DMA ring.
pub struct TesseractSocket<'mapping> {
    dma_ring: &'mapping mut BifrostRing,
    local_port: u16,
    capability: NetworkCapability,
}

impl<'mapping> TesseractSocket<'mapping> {
    pub closed spec fn ring(&self) -> RingView {
        self.dma_ring@
    }

    pub closed spec fn spec_local_port(&self) -> u16 {
        self.local_port
    }

    pub closed spec fn spec_capability(&self) -> NetworkCapability {
        self.capability
    }

    /// Attaches to a ring installed by the network broker.
    pub fn from_mapping(
        dma_ring: &'mapping mut BifrostRing,
        local_port: u16,
        capability: NetworkCapability,
    ) -> (r: Result<TesseractSocket<'mapping>, BridgeError>)
        ensures
            local_port == 0 || capability.spec_id() == 0 || capability.spec_generation() == 0 ==> r
                is Err && r->Err_0 == BridgeError::InvalidCapability,
            !(local_port == 0 || capability.spec_id() == 0 || capability.spec_generation() == 0)
                ==> r is Ok && r->Ok_0.spec_local_port() == local_port && r->Ok_0.spec_capability()
                == capability,
    {
        if local_port == 0 || capability.id == 0 || capability.generation == 0 {
            return Err(BridgeError::InvalidCapability);
        }
        Ok(TesseractSocket { dma_ring, local_port, capability })
    }

    pub fn local_port(&self) -> (r: u16)
        ensures
            r == self.spec_local_port(),
    {
        self.local_port
    }

    pub fn capability(&self) -> (r: NetworkCapability)
        ensures
            r == self.spec_capability(),
    {
        self.capability
    }

    /// Takes the next received frame of the ring, as the ring's receive
    /// does.
    pub fn try_read(&mut self) -> (r: Result<Option<ReceivedPacket>, BridgeError>)
        requires
            ring_shape(old(self).ring()),
        ensures
            ring_shape(final(self).ring()),
            final(self).spec_local_port() == old(self).spec_local_port(),
            final(self).spec_capability() == old(self).spec_capability(),
            receive_outcome(old(self).ring(), r, final(self).ring()),
    {
        self.dma_ring.try_receive()
    }

    /// Sends one frame through the ring, as the ring's transmit does.
    pub fn send(&mut self, payload: &[u8]) -> (r: Result<(), BridgeError>)
        requires
            ring_shape(old(self).ring()),
        ensures
            ring_shape(final(self).ring()),
            final(self).spec_local_port() == old(self).spec_local_port(),
            final(self).spec_capability() == old(self).spec_capability(),
            transmit_outcome(old(self).ring(), payload@, r, final(self).ring()),
    {
        self.dma_ring.transmit(payload)
    }
}

} // verus!

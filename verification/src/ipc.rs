//! Bounded local message transport.
//!
//! [`SpscRing`] is a fixed-capacity single-producer/single-consumer ring of
//! message slots: messages come out in the order they went in, a send into
//! a full ring is refused and a receive from an empty ring yields nothing.

use vstd::prelude::*;

verus! {

pub const CHANNEL_DEPTH: usize = 128;
pub const MESSAGE_BYTES: usize = 64;
pub const PAYLOAD_BYTES: usize = 48;

/// One fixed-size message.
#[derive(Clone, Copy)]
pub struct ChannelMessage {
    pub capability: u64,
    pub tag: u32,
    pub sequence: u32,
    pub payload: [u8; 48],
}

impl ChannelMessage {
    pub fn empty() -> (r: ChannelMessage)
        ensures
            r.capability == 0 && r.tag == 0 && r.sequence == 0,
            forall|i: int| 0 <= i < PAYLOAD_BYTES ==> #[trigger] r.payload@[i] == 0,
    {
        ChannelMessage { capability: 0, tag: 0, sequence: 0, payload: [0u8; 48] }
    }

    pub fn with_tag(tag: u32) -> (r: ChannelMessage)
        ensures
            r.capability == 0 && r.tag == tag && r.sequence == 0,
            forall|i: int| 0 <= i < PAYLOAD_BYTES ==> #[trigger] r.payload@[i] == 0,
    {
        ChannelMessage { capability: 0, tag, sequence: 0, payload: [0u8; 48] }
    }

    /// A tagged message carrying the first `PAYLOAD_BYTES` bytes of `data`
    /// at most; the rest of the payload stays zero.
    pub fn with_payload(tag: u32, data: &[u8]) -> (r: ChannelMessage)
        ensures
            r.capability == 0 && r.tag == tag && r.sequence == 0,
            forall|i: int|
                0 <= i < PAYLOAD_BYTES ==> #[trigger] r.payload@[i] == if i < data@.len() {
                    data@[i]
                } else {
                    0u8
                },
    {
        let mut message = ChannelMessage::with_tag(tag);
        let length = if data.len() < PAYLOAD_BYTES {
            data.len()
        } else {
            PAYLOAD_BYTES
        };
        let mut i: usize = 0;
        while i < length
            invariant
                length <= PAYLOAD_BYTES,
                length <= data@.len(),
                length == data@.len() || length == PAYLOAD_BYTES,
                i <= length,
                message.capability == 0 && message.tag == tag && message.sequence == 0,
                forall|k: int| 0 <= k < i ==> #[trigger] message.payload@[k] == data@[k],
                forall|k: int| i <= k < PAYLOAD_BYTES ==> #[trigger] message.payload@[k] == 0,
            decreases length - i,
        {
            message.payload[i] = data[i];
            i = i + 1;
        }
        message
    }
}

#[derive(Clone, Copy, Debug, PartialEq, Eq, Structural)]
pub enum ChannelError {
    Full,
}

/// The ring: a slot per position, the producer's and the consumer's next
/// positions, and the number of messages waiting.
pub struct SpscRing {
    slots: Vec<Option<ChannelMessage>>,
    producer: usize,
    consumer: usize,
    waiting: Ghost<nat>,
}

/// The position of the `i`-th waiting message.
pub open spec fn ring_index(consumer: int, i: int) -> int {
    (consumer + i) % (CHANNEL_DEPTH as int)
}

impl SpscRing {
    /// The slots, indices and count agree: the waiting messages fill the
    /// positions from the consumer's onward, up to the producer's.
    pub closed spec fn ring_wf(self) -> bool {
        &&& self.slots@.len() == CHANNEL_DEPTH
        &&& self.producer < CHANNEL_DEPTH
        &&& self.consumer < CHANNEL_DEPTH
        &&& self.waiting@ <= CHANNEL_DEPTH
        &&& self.producer == ring_index(self.consumer as int, self.waiting@ as int)
        &&& forall|i: int|
            0 <= i < CHANNEL_DEPTH ==> (#[trigger] self.slots@[ring_index(
                self.consumer as int,
                i,
            )] is Some <==> i < self.waiting@)
    }
}

impl View for SpscRing {
    type V = Seq<ChannelMessage>;

    /// The waiting messages, oldest first.
    closed spec fn view(&self) -> Seq<ChannelMessage> {
        Seq::new(
            self.waiting@,
            |i: int| self.slots@[ring_index(self.consumer as int, i)]->Some_0,
        )
    }
}

proof fn lemma_ring_index_distinct(c: int, i: int, j: int)
    requires
        0 <= c < CHANNEL_DEPTH,
        0 <= i < CHANNEL_DEPTH,
        0 <= j < CHANNEL_DEPTH,
        i != j,
    ensures
        ring_index(c, i) != ring_index(c, j),
        0 <= ring_index(c, i) < CHANNEL_DEPTH,
{
}

impl SpscRing {
    pub fn new() -> (r: SpscRing)
        ensures
            r.ring_wf(),
            r@ == Seq::<ChannelMessage>::empty(),
    {
        let mut slots: Vec<Option<ChannelMessage>> = Vec::new();
        let mut i: usize = 0;
        while i < CHANNEL_DEPTH
            invariant
                i <= CHANNEL_DEPTH,
                slots@.len() == i,
                forall|k: int| 0 <= k < i ==> #[trigger] slots@[k] is None,
            decreases CHANNEL_DEPTH - i,
        {
            slots.push(None);
            i = i + 1;
        }
        let ring = SpscRing { slots, producer: 0, consumer: 0, waiting: Ghost(0) };
        assert(ring@ =~= Seq::<ChannelMessage>::empty());
        ring
    }

    /// Appends a message; a full ring refuses it and stays unchanged.
    pub fn send(&mut self, message: ChannelMessage) -> (r: Result<(), ChannelError>)
        requires
            old(self).ring_wf(),
        ensures
            final(self).ring_wf(),
            old(self)@.len() == CHANNEL_DEPTH ==> r == Err::<(), ChannelError>(ChannelError::Full)
                && final(self)@ == old(self)@,
            old(self)@.len() < CHANNEL_DEPTH ==> r is Ok && final(self)@ == old(self)@.push(
                message,
            ),
    {
        let head = self.producer;
        let ghost before = self@;
        let ghost n = self.waiting@;
        let ghost c = self.consumer as int;
        if self.slots[head].is_some() {
            proof {
                if n < CHANNEL_DEPTH {
                    assert(self.slots@[ring_index(c, n as int)] is None);
                }
            }
            return Err(ChannelError::Full);
        }
        proof {
            if n == CHANNEL_DEPTH {
                assert(self.slots@[ring_index(c, 0)] is Some);
                assert(ring_index(c, 0) == ring_index(c, CHANNEL_DEPTH as int));
            }
        }
        let ghost old_slots = self.slots@;
        self.slots.set(head, Some(message));
        self.producer = if head + 1 == CHANNEL_DEPTH {
            0
        } else {
            head + 1
        };
        self.waiting = Ghost(n + 1);
        proof {
            assert forall|i: int| 0 <= i < CHANNEL_DEPTH implies (#[trigger] self.slots@[ring_index(
                c,
                i,
            )] is Some <==> i < self.waiting@) by {
                if i != n {
                    lemma_ring_index_distinct(c, i, n as int);
                }
            }
            assert(self@ =~= before.push(message)) by {
                assert forall|i: int| 0 <= i < n implies #[trigger] self.slots@[ring_index(c, i)]
                    == old_slots[ring_index(c, i)] by {
                    lemma_ring_index_distinct(c, i, n as int);
                }
            }
        }
        Ok(())
    }

    /// Removes the oldest message; an empty ring yields nothing.
    pub fn recv(&mut self) -> (r: Option<ChannelMessage>)
        requires
            old(self).ring_wf(),
        ensures
            final(self).ring_wf(),
            old(self)@.len() == 0 ==> r is None && final(self)@ == old(self)@,
            old(self)@.len() > 0 ==> r == Some(old(self)@[0]) && final(self)@ == old(
                self,
            )@.drop_first(),
    {
        let tail = self.consumer;
        let ghost before = self@;
        let ghost n = self.waiting@;
        let ghost c = self.consumer as int;
        proof {
            assert(ring_index(c, 0) == c);
        }
        let taken = self.slots[tail];
        match taken {
            None => {
                return None;
            },
            Some(message) => {
                let ghost old_slots = self.slots@;
                self.slots.set(tail, None);
                self.consumer = if tail + 1 == CHANNEL_DEPTH {
                    0
                } else {
                    tail + 1
                };
                self.waiting = Ghost((n - 1) as nat);
                proof {
                    let c2 = self.consumer as int;
                    assert forall|i: int| 0 <= i < CHANNEL_DEPTH implies ring_index(c2, i)
                        == ring_index(c, i + 1) by {}
                    assert forall|i: int| 0 <= i < CHANNEL_DEPTH implies (
                    #[trigger] self.slots@[ring_index(c2, i)] is Some <==> i < self.waiting@) by {
                        if i + 1 < CHANNEL_DEPTH {
                            lemma_ring_index_distinct(c, i + 1, 0);
                            assert(old_slots[ring_index(c, i + 1)] is Some <==> i + 1 < n);
                        } else {
                            assert(ring_index(c, i + 1) == c);
                        }
                    }
                    assert(self@ =~= before.drop_first()) by {
                        assert forall|i: int| 0 <= i < n - 1 implies #[trigger] self.slots@[
                        ring_index(c2, i)] == old_slots[ring_index(c, i + 1)] by {
                            lemma_ring_index_distinct(c, i + 1, 0);
                        }
                    }
                }
                Some(message)
            },
        }
    }

    /// No message is waiting.
    pub fn is_empty(&self) -> (r: bool)
        requires
            self.ring_wf(),
        ensures
            r == (self@.len() == 0),
    {
        proof {
            assert(ring_index(self.consumer as int, 0) == self.consumer);
        }
        self.slots[self.consumer].is_none()
    }
}

impl Default for SpscRing {
    fn default() -> (r: SpscRing)
        ensures
            r.ring_wf(),
            r@ == Seq::<ChannelMessage>::empty(),
    {
        SpscRing::new()
    }
}

} // verus!

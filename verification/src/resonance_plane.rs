//! Commands submitted through the resonance split pages.
//!
//! A client has at most one command in flight: a submission while one is
//! pending is refused, and each accepted submission takes the client's next
//! sequence number, which wraps past `u64::MAX` but never becomes zero.

use vstd::prelude::*;

use crate::nexus::next_sequence;

verus! {

/// A submitted command that awaits its reply.
#[derive(Clone, Copy, Debug, PartialEq, Eq, Structural)]
pub struct PendingCommand {
    pub sequence: u64,
}

#[derive(Clone, Copy, Debug, PartialEq, Eq, Structural)]
pub enum PlaneClientError {
    NullAddress,
    MisalignedAddress,
    IncompatiblePlane,
    CommandAlreadyPending,
    UnexpectedReply { expected: u64, observed: u64 },
}

/// The client's capability, its next sequence number and the sequence of
/// the command in flight.
pub struct ResonancePlaneClient {
    capability: u64,
    next_sequence: u64,
    pending: Option<u64>,
}

/// The abstract value of a client.
pub struct PlaneClientView {
    pub capability: u64,
    pub next_sequence: u64,
    pub pending: Option<u64>,
}

impl View for ResonancePlaneClient {
    type V = PlaneClientView;

    closed spec fn view(&self) -> PlaneClientView {
        PlaneClientView {
            capability: self.capability,
            next_sequence: self.next_sequence,
            pending: self.pending,
        }
    }
}

/// What a submission does to a client: refused while a command is pending,
/// otherwise the next sequence number is taken and becomes the pending one.
pub open spec fn submit_outcome(
    before: PlaneClientView,
    r: Result<PendingCommand, PlaneClientError>,
    after: PlaneClientView,
) -> bool {
    if before.pending is Some {
        &&& r == Err::<PendingCommand, PlaneClientError>(PlaneClientError::CommandAlreadyPending)
        &&& after == before
    } else {
        &&& r == Ok::<PendingCommand, PlaneClientError>(
            PendingCommand { sequence: before.next_sequence },
        )
        &&& after == (PlaneClientView {
            capability: before.capability,
            next_sequence: next_sequence(before.next_sequence),
            pending: Some(before.next_sequence),
        })
    }
}

impl ResonancePlaneClient {
    /// A client of `capability` with nothing in flight, whose first command
    /// takes sequence one.
    pub fn new(capability: u64) -> (r: ResonancePlaneClient)
        ensures
            r@ == (PlaneClientView { capability, next_sequence: 1, pending: None }),
    {
        ResonancePlaneClient { capability, next_sequence: 1, pending: None }
    }

    /// Takes the sequence number of a new command, unless one is in flight.
    /// The command itself is written to the ingress page by the holder of
    /// the mapping.
    pub fn submit(&mut self) -> (r: Result<PendingCommand, PlaneClientError>)
        ensures
            submit_outcome(old(self)@, r, final(self)@),
    {
        if self.pending.is_some() {
            return Err(PlaneClientError::CommandAlreadyPending);
        }
        let sequence = self.next_sequence;
        let advanced = self.next_sequence.wrapping_add(1);
        self.next_sequence = if advanced == 0 {
            1
        } else {
            advanced
        };
        self.pending = Some(sequence);
        Ok(PendingCommand { sequence })
    }

    /// The sequence whose reply the client waits for.
    pub fn expected_reply(&self) -> (r: Option<u64>)
        ensures
            r == self@.pending,
    {
        self.pending
    }

    /// A reply for the pending command arrived and was validated: the
    /// client no longer waits for it.
    pub fn settle(&mut self)
        ensures
            final(self)@ == (PlaneClientView { pending: None, ..old(self)@ }),
    {
        self.pending = None;
    }

    pub fn capability(&self) -> (r: u64)
        ensures
            r == self@.capability,
    {
        self.capability
    }

    pub fn has_pending_command(&self) -> (r: bool)
        ensures
            r == self@.pending is Some,
    {
        self.pending.is_some()
    }

    /// Commands lost on the way in: the split pages lose none.
    pub fn dropped_commands(&self) -> (r: u64)
        ensures
            r == 0,
    {
        0
    }

    /// Replies lost on the way out: the split pages lose none.
    pub fn dropped_replies(&self) -> (r: u64)
        ensures
            r == 0,
    {
        0
    }
}

/// At most one command is in flight: a second submission before the first
/// settles is refused and changes nothing, and a settled client's next
/// submission is accepted with a nonzero sequence when the one before it was.
pub proof fn lemma_one_command_in_flight(
    before: PlaneClientView,
    first: Result<PendingCommand, PlaneClientError>,
    middle: PlaneClientView,
    second: Result<PendingCommand, PlaneClientError>,
    after: PlaneClientView,
)
    requires
        before.pending is None,
        before.next_sequence != 0,
        submit_outcome(before, first, middle),
        submit_outcome(middle, second, after),
    ensures
        first is Ok && first->Ok_0.sequence != 0,
        second == Err::<PendingCommand, PlaneClientError>(PlaneClientError::CommandAlreadyPending),
        after == middle,
        middle.pending == Some(first->Ok_0.sequence),
        middle.next_sequence != 0,
{
}

} // verus!

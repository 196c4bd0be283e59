//! Typed discharge notifications in place of POSIX signals.
//!
//! The kernel delivers a [`DischargeEvent`] through a trampoline that hands
//! it to a [`CoronalMatrix`]: a table from discharge class to handler. A
//! class without a handler gets the default treatment: a termination
//! request ends the process, anything else is ignored.

use vstd::prelude::*;

verus! {

pub const MAX_DISCHARGE_CLASSES: usize = 256;
pub const DISCHARGE_PAYLOAD_BYTES: usize = 48;

#[derive(Clone, Copy, Debug, PartialEq, Eq, Structural)]
pub enum DischargeClass {
    Reserved,
    TerminationRequest,
    FaultNotification,
    ResourcePressure,
    ThermalThrottle,
    PeerDisconnected,
    CapabilityRevoked,
    UserDefined(u8),
}

pub open spec fn spec_class_from_raw(n: u8) -> DischargeClass {
    match n {
        0 => DischargeClass::Reserved,
        1 => DischargeClass::TerminationRequest,
        2 => DischargeClass::FaultNotification,
        3 => DischargeClass::ResourcePressure,
        4 => DischargeClass::ThermalThrottle,
        5 => DischargeClass::PeerDisconnected,
        6 => DischargeClass::CapabilityRevoked,
        _ => DischargeClass::UserDefined(n),
    }
}

pub open spec fn spec_class_to_raw(c: DischargeClass) -> u8 {
    match c {
        DischargeClass::Reserved => 0,
        DischargeClass::TerminationRequest => 1,
        DischargeClass::FaultNotification => 2,
        DischargeClass::ResourcePressure => 3,
        DischargeClass::ThermalThrottle => 4,
        DischargeClass::PeerDisconnected => 5,
        DischargeClass::CapabilityRevoked => 6,
        DischargeClass::UserDefined(n) => n,
    }
}

impl DischargeClass {
    pub fn from_raw(n: u8) -> (r: DischargeClass)
        ensures
            r == spec_class_from_raw(n),
    {
        match n {
            0 => DischargeClass::Reserved,
            1 => DischargeClass::TerminationRequest,
            2 => DischargeClass::FaultNotification,
            3 => DischargeClass::ResourcePressure,
            4 => DischargeClass::ThermalThrottle,
            5 => DischargeClass::PeerDisconnected,
            6 => DischargeClass::CapabilityRevoked,
            _ => DischargeClass::UserDefined(n),
        }
    }

    pub fn to_raw(self) -> (r: u8)
        ensures
            r == spec_class_to_raw(self),
    {
        match self {
            DischargeClass::Reserved => 0,
            DischargeClass::TerminationRequest => 1,
            DischargeClass::FaultNotification => 2,
            DischargeClass::ResourcePressure => 3,
            DischargeClass::ThermalThrottle => 4,
            DischargeClass::PeerDisconnected => 5,
            DischargeClass::CapabilityRevoked => 6,
            DischargeClass::UserDefined(n) => n,
        }
    }
}

/// Every raw class survives decoding and encoding; a decoded class survives
/// encoding and decoding unless it is a user-defined class numbered like a
/// kernel class (below 7).
pub proof fn lemma_class_round_trip(n: u8, c: DischargeClass)
    ensures
        spec_class_to_raw(spec_class_from_raw(n)) == n,
        !(c matches DischargeClass::UserDefined(k) && k < 7) ==> spec_class_from_raw(
            spec_class_to_raw(c),
        ) == c,
{
}

/// One notification from the kernel.
#[derive(Clone, Copy)]
pub struct DischargeEvent {
    pub class: u8,
    pub pad: [u8; 7],
    pub payload: [u8; 48],
    pub sender_pid: u64,
}

/// What the matrix did with an event.
#[derive(Clone, Copy, Debug, PartialEq, Eq, Structural)]
pub enum DischargeAction {
    /// A registered handler ran.
    Handled,
    /// No handler: the termination request ends the process.
    Exit,
    /// No handler: the event is ignored.
    Ignored,
}

/// A dispatch table from discharge class to handler.
pub struct CoronalMatrix<H> {
    handlers: Vec<Option<H>>,
}

impl<H: Fn(&DischargeEvent)> CoronalMatrix<H> {
    /// The handler registered for each class, if any.
    pub closed spec fn handler(&self, class: u8) -> Option<H> {
        self.handlers@[class as int]
    }

    pub closed spec fn matrix_wf(&self) -> bool {
        self.handlers@.len() == MAX_DISCHARGE_CLASSES
    }

    /// A matrix with the default treatment for every class.
    pub fn new() -> (r: CoronalMatrix<H>)
        ensures
            r.matrix_wf(),
            forall|c: u8| #[trigger] r.handler(c) is None,
    {
        let mut handlers: Vec<Option<H>> = Vec::new();
        let mut i: usize = 0;
        while i < MAX_DISCHARGE_CLASSES
            invariant
                i <= MAX_DISCHARGE_CLASSES,
                handlers@.len() == i,
                forall|k: int| 0 <= k < i ==> #[trigger] handlers@[k] is None,
            decreases MAX_DISCHARGE_CLASSES - i,
        {
            handlers.push(None);
            i = i + 1;
        }
        CoronalMatrix { handlers }
    }

    pub fn set(&mut self, class: DischargeClass, handler: H)
        requires
            old(self).matrix_wf(),
        ensures
            final(self).matrix_wf(),
            final(self).handler(spec_class_to_raw(class)) == Some(handler),
            forall|c: u8| c != spec_class_to_raw(class) ==> #[trigger] final(self).handler(c) == old(
                self,
            ).handler(c),
    {
        let index = class.to_raw() as usize;
        self.handlers.set(index, Some(handler));
    }

    pub fn clear(&mut self, class: DischargeClass)
        requires
            old(self).matrix_wf(),
        ensures
            final(self).matrix_wf(),
            final(self).handler(spec_class_to_raw(class)) is None,
            forall|c: u8| c != spec_class_to_raw(class) ==> #[trigger] final(self).handler(c) == old(
                self,
            ).handler(c),
    {
        let index = class.to_raw() as usize;
        self.handlers.set(index, None);
    }

    /// Routes an event to the handler of its class, or gives the class's
    /// default treatment.
    pub fn dispatch(&self, event: &DischargeEvent) -> (r: DischargeAction)
        requires
            self.matrix_wf(),
            self.handler(event.class) matches Some(h) ==> call_requires(h, (event,)),
        ensures
            match self.handler(event.class) {
                Some(h) => r == DischargeAction::Handled && call_ensures(h, (event,), ()),
                None => r == (if event.class == 1 {
                    DischargeAction::Exit
                } else {
                    DischargeAction::Ignored
                }),
            },
    {
        match &self.handlers[event.class as usize] {
            Some(handler) => {
                handler(event);
                DischargeAction::Handled
            },
            None => {
                if event.class == 1 {
                    DischargeAction::Exit
                } else {
                    DischargeAction::Ignored
                }
            },
        }
    }
}

} // verus!

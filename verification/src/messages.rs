//! The messages of the session core: the session-control signals relayed
//! between the two halves of a session, the wire-level message types exchanged
//! with the connected clients, and the error taxonomy of message handling.

use vstd::prelude::*;

verus! {

/// Mathematical view of a session-control signal.
pub enum Signal {
    Presence,
    Patch(Seq<u8>),
    Kill,
}

/// A session-control message relayed between the two halves of a session
/// through their signal channel pair.
#[derive(Debug, Clone, PartialEq, Eq)]
pub enum MessageEnRoute {
    /// The peer's connection is now live.
    Presence,
    /// An incremental update, relayed verbatim.
    Patch(Vec<u8>),
    /// The peer is terminating; the recipient must close too.
    Kill,
}

impl View for MessageEnRoute {
    type V = Signal;

    open spec fn view(&self) -> Signal {
        match self {
            MessageEnRoute::Presence => Signal::Presence,
            MessageEnRoute::Patch(p) => Signal::Patch(p@),
            MessageEnRoute::Kill => Signal::Kill,
        }
    }
}

/// Mathematical view of a message sent by the conductor's client.
pub struct FromConductorV {
    pub blob: Seq<u8>,
    pub patch: Option<Seq<u8>>,
}

/// An inbound message from the conductor's client: the full document state,
/// and optionally a derived patch to relay to the attendee.
#[derive(Debug, Clone, PartialEq, Eq)]
pub struct MessageFromConductor {
    pub blob: Vec<u8>,
    pub patch: Option<Vec<u8>>,
}

impl View for MessageFromConductor {
    type V = FromConductorV;

    open spec fn view(&self) -> FromConductorV {
        FromConductorV {
            blob: self.blob@,
            patch: match self.patch {
                Some(p) => Some(p@),
                None => None,
            },
        }
    }
}

/// Mathematical view of a message sent by the attendee's client.
pub struct FromAttendeeV {
    pub patch: Seq<u8>,
}

/// An inbound message from the attendee's client: a patch proposed to the
/// conductor.
#[derive(Debug, Clone, PartialEq, Eq)]
pub struct MessageFromAttendee {
    pub patch: Vec<u8>,
}

impl View for MessageFromAttendee {
    type V = FromAttendeeV;

    open spec fn view(&self) -> FromAttendeeV {
        FromAttendeeV { patch: self.patch@ }
    }
}

/// Mathematical view of a message sent to a client.
pub enum ToClientV {
    Presence(u8),
    Blob(Seq<u8>),
    Patch(Seq<u8>),
}

/// An outbound message to either client: a presence beacon, the initial
/// document blob, or a relayed patch.
#[derive(Debug, Clone, PartialEq, Eq)]
pub enum MessageToClient {
    Presence(u8),
    Blob(Vec<u8>),
    Patch(Vec<u8>),
}

impl View for MessageToClient {
    type V = ToClientV;

    open spec fn view(&self) -> ToClientV {
        match self {
            MessageToClient::Presence(n) => ToClientV::Presence(*n),
            MessageToClient::Blob(b) => ToClientV::Blob(b@),
            MessageToClient::Patch(p) => ToClientV::Patch(p@),
        }
    }
}

/// Why handling one inbound message failed.
#[derive(Debug, Clone, Copy, PartialEq, Eq, Structural)]
pub enum MsgError {
    /// The peer's receive end of the signal channel is gone; the session is
    /// already ending and this connection should stop.
    Channel,
    /// The storage collaborator failed; the current message is abandoned.
    Db,
}

/// The registry held a state that is impossible for the attempted role: a
/// caller bug, reported loudly instead of being repaired.
#[derive(Debug, Clone, Copy, PartialEq, Eq, Structural)]
pub struct ProtocolViolation;

} // verus!

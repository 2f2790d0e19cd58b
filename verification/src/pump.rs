//! The connection pump's decision layer.
//!
//! The pump itself runs concurrently: it forwards the initial payload and a
//! presence notice, relays this connection's signal queue onto the wire, and
//! consumes inbound wire events. Every decision it takes is a pure function
//! here: what frame a relayed signal becomes, and what one inbound event
//! means for the connection — dispatch, a liveness reply, a skip, or the end
//! of the pump.

use vstd::prelude::*;

use crate::codec::{
    dec_from_attendee, dec_from_conductor, enc_to_client, encode_to_client, fits_wire,
};
use crate::messages::{
    FromAttendeeV, FromConductorV, MessageEnRoute, MessageFromAttendee, MessageFromConductor,
    MessageToClient, Signal, ToClientV,
};

verus! {

/// Mathematical view of a wire frame.
pub enum WireFrameV {
    Binary(Seq<u8>),
    Text(Seq<char>),
    Close,
}

/// A frame handed to the transport: one binary domain message, a text
/// message, or the connection-close frame.
#[derive(Debug, Clone, PartialEq, Eq)]
pub enum WireFrame {
    Binary(Vec<u8>),
    Text(String),
    Close,
}

impl View for WireFrame {
    type V = WireFrameV;

    open spec fn view(&self) -> WireFrameV {
        match self {
            WireFrame::Binary(b) => WireFrameV::Binary(b@),
            WireFrame::Text(t) => WireFrameV::Text(t@),
            WireFrame::Close => WireFrameV::Close,
        }
    }
}

/// The wire frame of one relayed signal: a presence beacon and a patch each
/// become one binary domain message, a kill becomes the close frame.
pub open spec fn wire_of(s: Signal) -> WireFrameV {
    match s {
        Signal::Presence => WireFrameV::Binary(enc_to_client(ToClientV::Presence(0))),
        Signal::Patch(p) => WireFrameV::Binary(enc_to_client(ToClientV::Patch(p))),
        Signal::Kill => WireFrameV::Close,
    }
}

impl MessageEnRoute {
    /// Translate one relayed signal to its wire frame.
    pub fn to_wire(self) -> (r: WireFrame)
        requires
            match self@ {
                Signal::Patch(p) => fits_wire(p),
                _ => true,
            },
        ensures
            r@ == wire_of(self@),
    {
        match self {
            MessageEnRoute::Presence => WireFrame::Binary(
                encode_to_client(&MessageToClient::Presence(0)),
            ),
            MessageEnRoute::Patch(p) => WireFrame::Binary(
                encode_to_client(&MessageToClient::Patch(p)),
            ),
            MessageEnRoute::Kill => WireFrame::Close,
        }
    }
}

/// Mathematical view of one inbound observation.
pub enum WireEventV {
    Binary(Seq<u8>),
    Text(Seq<char>),
    Close,
    Other,
    TransportError,
    HeartbeatMissed,
}

/// What the inbound side of a pump can observe in one step: a frame, a
/// transport error, or a heartbeat window that passed without traffic.
#[derive(Debug)]
pub enum WireEvent {
    Binary(Vec<u8>),
    Text(String),
    Close,
    Other,
    TransportError,
    HeartbeatMissed,
}

impl View for WireEvent {
    type V = WireEventV;

    open spec fn view(&self) -> WireEventV {
        match self {
            WireEvent::Binary(b) => WireEventV::Binary(b@),
            WireEvent::Text(t) => WireEventV::Text(t@),
            WireEvent::Close => WireEventV::Close,
            WireEvent::Other => WireEventV::Other,
            WireEvent::TransportError => WireEventV::TransportError,
            WireEvent::HeartbeatMissed => WireEventV::HeartbeatMissed,
        }
    }
}

/// Mathematical view of a pump directive.
pub enum DirectiveV<MV> {
    Dispatch(MV),
    ReplyPong,
    Ignore,
    Stop,
}

/// What the pump must do with one inbound event.
#[derive(Debug)]
pub enum PumpDirective<M> {
    /// A decoded domain message to hand to this role's message handler.
    Dispatch(M),
    /// A liveness probe to answer in kind, touching no protocol state.
    ReplyPong,
    /// Something to log and skip: an undecodable binary frame, other text,
    /// or an unexpected frame kind.
    Ignore,
    /// The end of this pump: cleanup runs and the connection closes.
    Stop,
}

/// View of a conductor directive.
pub open spec fn cond_directive_view(d: PumpDirective<MessageFromConductor>) -> DirectiveV<
    FromConductorV,
> {
    match d {
        PumpDirective::Dispatch(m) => DirectiveV::Dispatch(m@),
        PumpDirective::ReplyPong => DirectiveV::ReplyPong,
        PumpDirective::Ignore => DirectiveV::Ignore,
        PumpDirective::Stop => DirectiveV::Stop,
    }
}

/// View of an attendee directive.
pub open spec fn att_directive_view(d: PumpDirective<MessageFromAttendee>) -> DirectiveV<
    FromAttendeeV,
> {
    match d {
        PumpDirective::Dispatch(m) => DirectiveV::Dispatch(m@),
        PumpDirective::ReplyPong => DirectiveV::ReplyPong,
        PumpDirective::Ignore => DirectiveV::Ignore,
        PumpDirective::Stop => DirectiveV::Stop,
    }
}

/// The conductor pump's decision for one inbound event: binary frames are
/// decoded and dispatched, with a decode failure skipped rather than fatal;
/// the liveness probe is answered; a close, a transport error, and a missed
/// heartbeat all end the pump.
pub open spec fn conductor_directive_v(ev: WireEventV) -> DirectiveV<FromConductorV> {
    match ev {
        WireEventV::Binary(b) => match dec_from_conductor(b) {
            Some(m) => DirectiveV::Dispatch(m),
            None => DirectiveV::Ignore,
        },
        WireEventV::Text(t) => if t == "ping"@ {
            DirectiveV::ReplyPong
        } else {
            DirectiveV::Ignore
        },
        WireEventV::Close => DirectiveV::Stop,
        WireEventV::Other => DirectiveV::Ignore,
        WireEventV::TransportError => DirectiveV::Stop,
        WireEventV::HeartbeatMissed => DirectiveV::Stop,
    }
}

/// The attendee pump's decision, identical in structure.
pub open spec fn attendee_directive_v(ev: WireEventV) -> DirectiveV<FromAttendeeV> {
    match ev {
        WireEventV::Binary(b) => match dec_from_attendee(b) {
            Some(m) => DirectiveV::Dispatch(m),
            None => DirectiveV::Ignore,
        },
        WireEventV::Text(t) => if t == "ping"@ {
            DirectiveV::ReplyPong
        } else {
            DirectiveV::Ignore
        },
        WireEventV::Close => DirectiveV::Stop,
        WireEventV::Other => DirectiveV::Ignore,
        WireEventV::TransportError => DirectiveV::Stop,
        WireEventV::HeartbeatMissed => DirectiveV::Stop,
    }
}

/// Decide what the conductor's pump does with one inbound event.
pub fn conductor_pump_step(ev: WireEvent) -> (d: PumpDirective<MessageFromConductor>)
    ensures
        cond_directive_view(d) == conductor_directive_v(ev@),
{
    match ev {
        WireEvent::Binary(b) => match crate::codec::decode_from_conductor(b.as_slice()) {
            Some(m) => PumpDirective::Dispatch(m),
            None => PumpDirective::Ignore,
        },
        WireEvent::Text(t) => {
            let ping = String::from_str("ping");
            if t == ping {
                PumpDirective::ReplyPong
            } else {
                PumpDirective::Ignore
            }
        },
        WireEvent::Close => PumpDirective::Stop,
        WireEvent::Other => PumpDirective::Ignore,
        WireEvent::TransportError => PumpDirective::Stop,
        WireEvent::HeartbeatMissed => PumpDirective::Stop,
    }
}

/// Decide what the attendee's pump does with one inbound event.
pub fn attendee_pump_step(ev: WireEvent) -> (d: PumpDirective<MessageFromAttendee>)
    ensures
        att_directive_view(d) == attendee_directive_v(ev@),
{
    match ev {
        WireEvent::Binary(b) => match crate::codec::decode_from_attendee(b.as_slice()) {
            Some(m) => PumpDirective::Dispatch(m),
            None => PumpDirective::Ignore,
        },
        WireEvent::Text(t) => {
            let ping = String::from_str("ping");
            if t == ping {
                PumpDirective::ReplyPong
            } else {
                PumpDirective::Ignore
            }
        },
        WireEvent::Close => PumpDirective::Stop,
        WireEvent::Other => PumpDirective::Ignore,
        WireEvent::TransportError => PumpDirective::Stop,
        WireEvent::HeartbeatMissed => PumpDirective::Stop,
    }
}

/// Mathematical view of an edit-connection directive.
pub enum EditDirectiveV {
    Store(Seq<u8>),
    Ignore,
    Stop,
}

/// What the owner's edit connection does with one inbound event.
#[derive(Debug)]
pub enum EditDirective {
    /// A new document blob to hand to the storage collaborator.
    Store(Vec<u8>),
    /// Anything that is not a binary frame is skipped.
    Ignore,
    /// A transport error ends the loop.
    Stop,
}

/// View of an edit directive.
pub open spec fn edit_directive_view(d: EditDirective) -> EditDirectiveV {
    match d {
        EditDirective::Store(b) => EditDirectiveV::Store(b@),
        EditDirective::Ignore => EditDirectiveV::Ignore,
        EditDirective::Stop => EditDirectiveV::Stop,
    }
}

/// The edit connection's decision for one inbound event: every binary frame
/// is a full document to store, a transport error is fatal, and any other
/// frame is skipped.
pub open spec fn edit_directive_v(ev: WireEventV) -> EditDirectiveV {
    match ev {
        WireEventV::Binary(b) => EditDirectiveV::Store(b),
        WireEventV::TransportError => EditDirectiveV::Stop,
        _ => EditDirectiveV::Ignore,
    }
}

/// Decide what the edit connection does with one inbound event.
pub fn edit_step(ev: WireEvent) -> (d: EditDirective)
    ensures
        edit_directive_view(d) == edit_directive_v(ev@),
{
    match ev {
        WireEvent::Binary(b) => EditDirective::Store(b),
        WireEvent::TransportError => EditDirective::Stop,
        _ => EditDirective::Ignore,
    }
}

/// The fixed reply to the liveness probe.
pub fn pong_text() -> (r: String)
    ensures
        r@ == "pong"@,
{
    String::from_str("pong")
}

} // verus!

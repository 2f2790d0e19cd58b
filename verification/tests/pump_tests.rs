use zerra_core::codec::{encode_from_attendee, encode_from_conductor, encode_to_client};
use zerra_core::messages::{
    MessageEnRoute, MessageFromAttendee, MessageFromConductor, MessageToClient,
};
use zerra_core::pump::{
    attendee_pump_step, conductor_pump_step, edit_step, pong_text, EditDirective, PumpDirective,
    WireEvent, WireFrame,
};

#[test]
fn valid_conductor_frame_is_dispatched() {
    let msg = MessageFromConductor {
        blob: vec![1, 2],
        patch: Some(vec![3]),
    };
    let bytes = encode_from_conductor(&msg);
    match conductor_pump_step(WireEvent::Binary(bytes)) {
        PumpDirective::Dispatch(m) => assert_eq!(m, msg),
        other => panic!("expected dispatch, got {other:?}"),
    }
}

#[test]
fn undecodable_frame_is_skipped_and_the_next_one_processed() {
    match conductor_pump_step(WireEvent::Binary(vec![0xde, 0xad])) {
        PumpDirective::Ignore => {}
        other => panic!("a decode failure must not stop the pump, got {other:?}"),
    }
    let msg = MessageFromConductor {
        blob: vec![7],
        patch: None,
    };
    match conductor_pump_step(WireEvent::Binary(encode_from_conductor(&msg))) {
        PumpDirective::Dispatch(m) => assert_eq!(m, msg),
        other => panic!("expected dispatch after a skipped frame, got {other:?}"),
    }
}

#[test]
fn valid_attendee_frame_is_dispatched() {
    let msg = MessageFromAttendee { patch: vec![5, 5] };
    let bytes = encode_from_attendee(&msg);
    match attendee_pump_step(WireEvent::Binary(bytes)) {
        PumpDirective::Dispatch(m) => assert_eq!(m, msg),
        other => panic!("expected dispatch, got {other:?}"),
    }
    assert!(matches!(
        attendee_pump_step(WireEvent::Binary(vec![0x00])),
        PumpDirective::Ignore
    ));
}

#[test]
fn liveness_probe_is_answered_in_kind() {
    assert!(matches!(
        conductor_pump_step(WireEvent::Text("ping".to_string())),
        PumpDirective::ReplyPong
    ));
    assert!(matches!(
        conductor_pump_step(WireEvent::Text("anything else".to_string())),
        PumpDirective::Ignore
    ));
    assert_eq!(pong_text(), "pong");
}

#[test]
fn fatal_events_stop_the_pump() {
    assert!(matches!(conductor_pump_step(WireEvent::Close), PumpDirective::Stop));
    assert!(matches!(
        conductor_pump_step(WireEvent::TransportError),
        PumpDirective::Stop
    ));
    assert!(matches!(
        conductor_pump_step(WireEvent::HeartbeatMissed),
        PumpDirective::Stop
    ));
    assert!(matches!(attendee_pump_step(WireEvent::Close), PumpDirective::Stop));
    assert!(matches!(
        attendee_pump_step(WireEvent::HeartbeatMissed),
        PumpDirective::Stop
    ));
    assert!(matches!(conductor_pump_step(WireEvent::Other), PumpDirective::Ignore));
}

#[test]
fn signals_translate_to_their_wire_frames() {
    assert_eq!(
        MessageEnRoute::Presence.to_wire(),
        WireFrame::Binary(encode_to_client(&MessageToClient::Presence(0)))
    );
    assert_eq!(
        MessageEnRoute::Patch(vec![1, 2]).to_wire(),
        WireFrame::Binary(encode_to_client(&MessageToClient::Patch(vec![1, 2])))
    );
    assert_eq!(MessageEnRoute::Kill.to_wire(), WireFrame::Close);
}

#[test]
fn edit_connection_stores_binary_frames_and_survives_the_rest() {
    match edit_step(WireEvent::Binary(vec![1, 2, 3])) {
        EditDirective::Store(b) => assert_eq!(b, vec![1, 2, 3]),
        other => panic!("expected store, got {other:?}"),
    }
    assert!(matches!(edit_step(WireEvent::Text("x".to_string())), EditDirective::Ignore));
    assert!(matches!(edit_step(WireEvent::Close), EditDirective::Ignore));
    assert!(matches!(edit_step(WireEvent::TransportError), EditDirective::Stop));
}

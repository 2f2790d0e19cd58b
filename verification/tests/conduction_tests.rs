use zerra_core::conduction::{
    Attendee, Conduction, ConductionRegistry, Conductor, ConnectionStatus, Participant, Role,
};
use zerra_core::messages::{MessageEnRoute, MessageFromAttendee, MessageFromConductor, MsgError};

fn s(text: &str) -> String {
    text.to_string()
}

#[test]
fn conductor_first_rendezvous() {
    let mut reg = ConductionRegistry::new();
    let id = s("s1");
    let conductor = Conductor::init(&mut reg, &id).expect("first arrival pairs");
    assert!(matches!(
        reg.status_of(&id),
        Some(ConnectionStatus::WaitingForAttendee(_))
    ));
    let attendee = Attendee::init(&mut reg, &id).expect("second arrival pairs");
    assert!(matches!(reg.status_of(&id), Some(ConnectionStatus::Established)));

    reg.send_signal(&conductor, MessageEnRoute::Presence).unwrap();
    reg.send_signal(&attendee, MessageEnRoute::Presence).unwrap();
    assert!(matches!(reg.recv_signal(&conductor), Some(MessageEnRoute::Presence)));
    assert!(matches!(reg.recv_signal(&attendee), Some(MessageEnRoute::Presence)));
}

#[test]
fn attendee_first_rendezvous() {
    let mut reg = ConductionRegistry::new();
    let id = s("s1");
    let attendee = Attendee::init(&mut reg, &id).expect("first arrival pairs");
    assert!(matches!(
        reg.status_of(&id),
        Some(ConnectionStatus::WaitingForConductor(_))
    ));
    let conductor = Conductor::init(&mut reg, &id).expect("second arrival pairs");
    assert!(matches!(reg.status_of(&id), Some(ConnectionStatus::Established)));

    reg.send_signal(&attendee, MessageEnRoute::Presence).unwrap();
    reg.send_signal(&conductor, MessageEnRoute::Presence).unwrap();
    assert!(matches!(reg.recv_signal(&attendee), Some(MessageEnRoute::Presence)));
    assert!(matches!(reg.recv_signal(&conductor), Some(MessageEnRoute::Presence)));
}

#[test]
fn same_role_twice_is_a_protocol_violation() {
    let mut reg = ConductionRegistry::new();
    let id = s("s1");
    Conductor::init(&mut reg, &id).expect("first arrival pairs");
    match Conductor::init(&mut reg, &id) {
        Err(zerra_core::messages::ProtocolViolation) => {}
        Ok(_) => panic!("a second conductor must not pair"),
    }
}

#[test]
fn third_arrival_on_established_session_is_a_protocol_violation() {
    let mut reg = ConductionRegistry::new();
    let id = s("s1");
    Conductor::init(&mut reg, &id).expect("conductor pairs");
    Attendee::init(&mut reg, &id).expect("attendee pairs");
    assert!(Attendee::init(&mut reg, &id).is_err());
    assert!(Conductor::init(&mut reg, &id).is_err());
}

#[test]
fn sessions_with_different_ids_do_not_interfere() {
    let mut reg = ConductionRegistry::new();
    let one = Conductor::init(&mut reg, &s("a")).unwrap();
    let two = Conductor::init(&mut reg, &s("b")).unwrap();
    reg.send_signal(&one, MessageEnRoute::Patch(vec![1])).unwrap();
    assert!(reg.recv_signal(&two).is_none());
}

#[test]
fn patches_arrive_in_send_order() {
    let mut reg = ConductionRegistry::new();
    let id = s("s1");
    let conductor = Conductor::init(&mut reg, &id).unwrap();
    let attendee = Attendee::init(&mut reg, &id).unwrap();
    reg.send_signal(&attendee, MessageEnRoute::Patch(vec![1])).unwrap();
    reg.send_signal(&attendee, MessageEnRoute::Patch(vec![2])).unwrap();
    reg.send_signal(&attendee, MessageEnRoute::Patch(vec![3])).unwrap();
    assert_eq!(reg.recv_signal(&conductor), Some(MessageEnRoute::Patch(vec![1])));
    assert_eq!(reg.recv_signal(&conductor), Some(MessageEnRoute::Patch(vec![2])));
    assert_eq!(reg.recv_signal(&conductor), Some(MessageEnRoute::Patch(vec![3])));
    assert_eq!(reg.recv_signal(&conductor), None);
}

#[test]
fn conductor_message_relays_derived_patch_after_persisting() {
    let mut reg = ConductionRegistry::new();
    let id = s("s1");
    let conductor = Conductor::init(&mut reg, &id).unwrap();
    let attendee = Attendee::init(&mut reg, &id).unwrap();
    let msg = MessageFromConductor {
        blob: vec![9, 9],
        patch: Some(vec![4, 2]),
    };
    Conductor::on_message(&mut reg, &conductor, msg, true).unwrap();
    assert_eq!(reg.recv_signal(&attendee), Some(MessageEnRoute::Patch(vec![4, 2])));
}

#[test]
fn conductor_message_without_patch_relays_nothing() {
    let mut reg = ConductionRegistry::new();
    let id = s("s1");
    let conductor = Conductor::init(&mut reg, &id).unwrap();
    let attendee = Attendee::init(&mut reg, &id).unwrap();
    let msg = MessageFromConductor {
        blob: vec![9],
        patch: None,
    };
    Conductor::on_message(&mut reg, &conductor, msg, true).unwrap();
    assert!(reg.recv_signal(&attendee).is_none());
}

#[test]
fn failed_persist_is_a_storage_error_and_relays_nothing() {
    let mut reg = ConductionRegistry::new();
    let id = s("s1");
    let conductor = Conductor::init(&mut reg, &id).unwrap();
    let attendee = Attendee::init(&mut reg, &id).unwrap();
    let msg = MessageFromConductor {
        blob: vec![9],
        patch: Some(vec![1]),
    };
    assert_eq!(
        Conductor::on_message(&mut reg, &conductor, msg, false),
        Err(MsgError::Db)
    );
    assert!(reg.recv_signal(&attendee).is_none());
}

#[test]
fn send_after_peer_teardown_is_a_channel_error() {
    let mut reg = ConductionRegistry::new();
    let id = s("s1");
    let conductor = Conductor::init(&mut reg, &id).unwrap();
    let attendee = Attendee::init(&mut reg, &id).unwrap();
    reg.teardown(&attendee);
    assert_eq!(
        reg.send_signal(&conductor, MessageEnRoute::Patch(vec![1])),
        Err(MsgError::Channel)
    );
}

#[test]
fn teardown_notifies_peer_and_clears_the_entry() {
    let mut reg = ConductionRegistry::new();
    let id = s("s1");
    let conductor = Conductor::init(&mut reg, &id).unwrap();
    let attendee = Attendee::init(&mut reg, &id).unwrap();
    reg.send_signal(&attendee, MessageEnRoute::Patch(vec![7])).unwrap();
    reg.teardown(&attendee);
    // The peer finishes what was already queued, then sees the kill.
    assert_eq!(reg.recv_signal(&conductor), Some(MessageEnRoute::Patch(vec![7])));
    assert_eq!(reg.recv_signal(&conductor), Some(MessageEnRoute::Kill));
    reg.teardown(&conductor);
    assert!(reg.status_of(&id).is_none());
}

#[test]
fn removed_entry_allows_a_fresh_rendezvous() {
    let mut reg = ConductionRegistry::new();
    let id = s("s1");
    let conductor = Conductor::init(&mut reg, &id).unwrap();
    let attendee = Attendee::init(&mut reg, &id).unwrap();
    reg.teardown(&conductor);
    reg.teardown(&attendee);
    assert!(reg.status_of(&id).is_none());

    let conductor2 = Conductor::init(&mut reg, &id).expect("fresh pairing after removal");
    let attendee2 = Attendee::init(&mut reg, &id).expect("fresh pairing after removal");
    assert!(matches!(reg.status_of(&id), Some(ConnectionStatus::Established)));
    reg.send_signal(&conductor2, MessageEnRoute::Presence).unwrap();
    assert!(matches!(reg.recv_signal(&attendee2), Some(MessageEnRoute::Presence)));
}

#[test]
fn participant_constructor_dispatches_by_role() {
    let mut reg = ConductionRegistry::new();
    let id = s("s1");
    let p = Participant::new(&mut reg, &id, Role::Conductor).unwrap();
    assert_eq!(p.zerra_id(), &id);
    assert_eq!(p.role(), Role::Conductor);
    let q = Participant::new(&mut reg, &id, Role::Attendee).unwrap();
    assert_eq!(q.role(), Role::Attendee);
    assert!(matches!(reg.status_of(&id), Some(ConnectionStatus::Established)));
}

#[test]
fn full_session_scenario() {
    // A conductor connects to "s1"; the entry goes from vacant to waiting
    // for the attendee. The attendee connects; the session is established
    // and both sides exchange presence. The attendee proposes a patch, the
    // conductor persists the resulting document, the conductor disconnects,
    // and the attendee sees the kill; afterwards no entry remains.
    let mut reg = ConductionRegistry::new();
    let id = s("s1");
    assert!(reg.status_of(&id).is_none());

    let conductor = Conductor::init(&mut reg, &id).unwrap();
    assert!(matches!(
        reg.status_of(&id),
        Some(ConnectionStatus::WaitingForAttendee(_))
    ));
    let attendee = Attendee::init(&mut reg, &id).unwrap();
    assert!(matches!(reg.status_of(&id), Some(ConnectionStatus::Established)));

    reg.send_signal(&conductor, MessageEnRoute::Presence).unwrap();
    reg.send_signal(&attendee, MessageEnRoute::Presence).unwrap();
    assert!(matches!(reg.recv_signal(&conductor), Some(MessageEnRoute::Presence)));
    assert!(matches!(reg.recv_signal(&attendee), Some(MessageEnRoute::Presence)));

    Attendee::on_message(
        &mut reg,
        &attendee,
        MessageFromAttendee { patch: vec![0x01, 0x02] },
    )
    .unwrap();
    assert_eq!(
        reg.recv_signal(&conductor),
        Some(MessageEnRoute::Patch(vec![0x01, 0x02]))
    );
    Conductor::on_message(
        &mut reg,
        &conductor,
        MessageFromConductor {
            blob: vec![0xaa, 0xbb],
            patch: None,
        },
        true,
    )
    .unwrap();

    reg.teardown(&conductor);
    assert_eq!(reg.recv_signal(&attendee), Some(MessageEnRoute::Kill));
    reg.teardown(&attendee);
    assert!(reg.status_of(&id).is_none());
}

#[test]
fn conduction_status_is_plain_data() {
    let c = Conduction {
        status: ConnectionStatus::Established,
    };
    assert_eq!(c.status, ConnectionStatus::Established);
}

use zerra_core::codec::{
    decode_from_attendee, decode_from_conductor, decode_to_client, encode_from_attendee,
    encode_from_conductor, encode_to_client,
};
use zerra_core::messages::{MessageFromAttendee, MessageFromConductor, MessageToClient};

#[test]
fn presence_encodes_to_fixed_bytes() {
    let bytes = encode_to_client(&MessageToClient::Presence(0));
    assert_eq!(
        bytes,
        vec![0x81, 0xa8, b'p', b'r', b'e', b's', b'e', b'n', b'c', b'e', 0x00]
    );
}

#[test]
fn large_presence_payload_uses_wide_int_form() {
    let bytes = encode_to_client(&MessageToClient::Presence(200));
    assert_eq!(
        bytes,
        vec![0x81, 0xa8, b'p', b'r', b'e', b's', b'e', b'n', b'c', b'e', 0xcc, 200]
    );
}

#[test]
fn patch_encodes_as_one_entry_map_with_bin_payload() {
    let bytes = encode_to_client(&MessageToClient::Patch(vec![1, 2, 3]));
    assert_eq!(
        bytes,
        vec![0x81, 0xa5, b'p', b'a', b't', b'c', b'h', 0xc4, 3, 1, 2, 3]
    );
}

#[test]
fn blob_round_trips_through_the_client_codec() {
    let blob: Vec<u8> = (0..=255).collect();
    let bytes = encode_to_client(&MessageToClient::Blob(blob.clone()));
    match decode_to_client(&bytes) {
        Some(MessageToClient::Blob(b)) => assert_eq!(b, blob),
        other => panic!("expected a blob, got {other:?}"),
    }
}

#[test]
fn presence_round_trips_through_the_client_codec() {
    for n in [0u8, 1, 127, 128, 255] {
        let bytes = encode_to_client(&MessageToClient::Presence(n));
        match decode_to_client(&bytes) {
            Some(MessageToClient::Presence(m)) => assert_eq!(m, n),
            other => panic!("expected presence, got {other:?}"),
        }
    }
}

#[test]
fn mid_sized_payload_uses_two_byte_length() {
    let patch = vec![7u8; 300];
    let bytes = encode_from_attendee(&MessageFromAttendee { patch: patch.clone() });
    assert_eq!(&bytes[..7], &[0x81, 0xa5, b'p', b'a', b't', b'c', b'h']);
    assert_eq!(&bytes[7..10], &[0xc5, 0x01, 0x2c]);
    let decoded = decode_from_attendee(&bytes).expect("decode");
    assert_eq!(decoded.patch, patch);
}

#[test]
fn large_payload_uses_four_byte_length() {
    let patch = vec![9u8; 70000];
    let bytes = encode_from_attendee(&MessageFromAttendee { patch: patch.clone() });
    assert_eq!(&bytes[7..12], &[0xc6, 0x00, 0x01, 0x11, 0x70]);
    let decoded = decode_from_attendee(&bytes).expect("decode");
    assert_eq!(decoded.patch, patch);
}

#[test]
fn conductor_message_round_trips_with_patch() {
    let msg = MessageFromConductor {
        blob: vec![1, 2, 3, 4],
        patch: Some(vec![5, 6]),
    };
    let bytes = encode_from_conductor(&msg);
    let decoded = decode_from_conductor(&bytes).expect("decode");
    assert_eq!(decoded, msg);
}

#[test]
fn conductor_message_round_trips_without_patch() {
    let msg = MessageFromConductor {
        blob: vec![],
        patch: None,
    };
    let bytes = encode_from_conductor(&msg);
    assert_eq!(*bytes.last().unwrap(), 0xc0);
    let decoded = decode_from_conductor(&bytes).expect("decode");
    assert_eq!(decoded, msg);
}

#[test]
fn garbage_does_not_decode() {
    assert_eq!(decode_from_attendee(&[]), None);
    assert_eq!(decode_from_attendee(&[0x81]), None);
    assert_eq!(decode_from_attendee(b"hello, not msgpack"), None);
    assert_eq!(decode_from_conductor(&[0xff, 0xff, 0xff]), None);
    assert_eq!(decode_to_client(&[0x90]), None);
}

#[test]
fn truncated_frames_do_not_decode() {
    let msg = MessageFromAttendee { patch: vec![1, 2, 3] };
    let bytes = encode_from_attendee(&msg);
    for cut in 0..bytes.len() {
        assert_eq!(decode_from_attendee(&bytes[..cut]), None);
    }
}

#[test]
fn trailing_bytes_do_not_decode() {
    let msg = MessageFromAttendee { patch: vec![1, 2, 3] };
    let mut bytes = encode_from_attendee(&msg);
    bytes.push(0);
    assert_eq!(decode_from_attendee(&bytes), None);
}

#[test]
fn non_canonical_length_forms_are_rejected() {
    // A two-byte length form carrying a small length is not the shortest
    // form, so it is outside the grammar.
    let mut bytes = vec![0x81, 0xa5, b'p', b'a', b't', b'c', b'h', 0xc5, 0x00, 0x03];
    bytes.extend_from_slice(&[1, 2, 3]);
    assert_eq!(decode_from_attendee(&bytes), None);
}

#[test]
fn frames_from_the_other_role_do_not_decode() {
    let cond = MessageFromConductor {
        blob: vec![1],
        patch: None,
    };
    let bytes = encode_from_conductor(&cond);
    assert_eq!(decode_from_attendee(&bytes), None);
}

use gps_tracker::actions::heartbeat::Heartbeat;
use gps_tracker::actions::logout::Logout;
use gps_tracker::payload::Payload;
use gps_tracker::request::{RequestPacket, RequestType};
use gps_tracker::validation::ValidationError;

fn heartbeat_round_trip(client_id: u32) -> u32 {
    let text = Heartbeat::generate_payload(client_id).unwrap();
    let bytes = Payload::to_binary(&text).unwrap();
    let packet = RequestPacket::parse(&bytes).unwrap();
    assert_eq!(packet.request_type, RequestType::HeartBeat);
    Heartbeat::parse(packet.payload_length, &packet.payload).unwrap()
}

#[test]
fn heartbeat_identity_round_trips() {
    assert_eq!(heartbeat_round_trip(0), 0);
    assert_eq!(heartbeat_round_trip(1), 1);
    assert_eq!(heartbeat_round_trip(24564), 24564);
    assert_eq!(heartbeat_round_trip(u32::MAX), u32::MAX);
}

#[test]
fn logout_identity_round_trips() {
    for client_id in [0u32, 255, 256, 24564, u32::MAX] {
        let text = Logout::generate_payload(client_id).unwrap();
        let bytes = Payload::to_binary(&text).unwrap();
        let packet = RequestPacket::parse(&bytes).unwrap();
        assert_eq!(packet.request_type, RequestType::Logout);
        let decoded = Logout::parse(packet.payload_length, &packet.payload).unwrap();
        assert_eq!(decoded, client_id);
    }
}

#[test]
fn adjacent_small_bytes_decode_fixed_width() {
    // Two bytes below sixteen must keep their own byte positions: 0x0A, 0x0A
    // is 2570, never the single byte 0xAA.
    let decoded = Heartbeat::parse(4, &[0x00, 0x00, 0x0A, 0x0A]).unwrap();
    assert_eq!(decoded, 0x0A0A);
    assert_eq!(decoded, 2570);
    assert_ne!(decoded, 0xAA);

    let all_small = Heartbeat::parse(4, &[0x0A, 0x0A, 0x0A, 0x0A]).unwrap();
    assert_eq!(all_small, 0x0A0A0A0A);
}

#[test]
fn short_payloads_name_their_errors() {
    assert_eq!(Heartbeat::parse(4, &[1, 2]), Err(ValidationError::InvalidHeartbeatPayload));
    assert_eq!(Heartbeat::parse(2, &[1, 2]), Err(ValidationError::InvalidClientId));
    assert_eq!(Logout::parse(4, &[1, 2]), Err(ValidationError::InvalidLogoutPayload));
    assert_eq!(Logout::parse(2, &[1, 2]), Err(ValidationError::InvalidClientId));
}

#[test]
fn extra_payload_bytes_beyond_the_id_are_ignored() {
    let decoded = Heartbeat::parse(4, &[0, 0, 0x5F, 0xF4, 0xDE, 0xAD]).unwrap();
    assert_eq!(decoded, 24564);
}

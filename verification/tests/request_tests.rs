use gps_tracker::request::{RequestPacket, RequestType};
use gps_tracker::validation::ValidationError;

#[test]
fn frames_shorter_than_three_bytes_are_refused() {
    assert!(matches!(RequestPacket::parse(&[]), Err(ValidationError::InvalidRequestPacket)));
    assert!(matches!(
        RequestPacket::parse(&[1]),
        Err(ValidationError::InvalidRequestPacketPayloadLength)
    ));
    assert!(matches!(
        RequestPacket::parse(&[1, 0]),
        Err(ValidationError::InvalidRequestPacketPayloadLength)
    ));
}

#[test]
fn three_header_bytes_parse_with_empty_payload() {
    let packet = RequestPacket::parse(&[3, 0, 4]).unwrap();
    assert_eq!(packet.request_type, RequestType::HeartBeat);
    assert_eq!(packet.payload_length, 4);
    assert!(packet.payload.is_empty());
}

#[test]
fn payload_is_everything_after_byte_two() {
    let packet = RequestPacket::parse(&[1, 0xEE, 2, 9, 8, 7]).unwrap();
    assert_eq!(packet.request_type, RequestType::Login);
    assert_eq!(packet.payload_length, 2);
    assert_eq!(packet.payload, vec![9, 8, 7]);
}

#[test]
fn unrecognized_kind_byte_parses_as_invalid() {
    let packet = RequestPacket::parse(&[0xAA, 0, 0, 1, 2]).unwrap();
    assert_eq!(packet.request_type, RequestType::Invalid);
    assert_eq!(RequestType::get_by_value(0), RequestType::Invalid);
    assert_eq!(RequestType::get_by_value(5), RequestType::Invalid);
    assert_eq!(RequestType::get_by_value(255), RequestType::Invalid);
}

#[test]
fn kind_codes_and_declared_lengths() {
    assert_eq!(RequestType::Login.to_value(), 1);
    assert_eq!(RequestType::Coordinates.to_value(), 2);
    assert_eq!(RequestType::HeartBeat.to_value(), 3);
    assert_eq!(RequestType::Logout.to_value(), 4);
    assert_eq!(RequestType::Invalid.to_value(), 0);
    assert_eq!(RequestType::Login.get_length(), 0x14);
    assert_eq!(RequestType::Coordinates.get_length(), 4);
    assert_eq!(RequestType::HeartBeat.get_length(), 4);
    assert_eq!(RequestType::Logout.get_length(), 4);
    assert_eq!(RequestType::get_by_value(3), RequestType::HeartBeat);
}

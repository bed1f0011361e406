use gps_tracker::actions::coordinates::Coordinates;
use gps_tracker::payload::Payload;
use gps_tracker::request::RequestPacket;
use gps_tracker::validation::ValidationError;

#[test]
fn coordinates_test_generate_payload() {
    let client_id: u32 = 24564;
    let latitude: f64 = 10.00001;
    let longitude: f64 = -127.000001;
    let payload = Coordinates::generate_payload(client_id, latitude.to_bits(), longitude.to_bits());
    let test_value_hex = "02 00 04 00 00 5F F4 40 24 00 01 4F 8B 58 8E C0 5F C0 00 04 31 BD E8";
    assert!(payload.is_ok(), "{:?}", payload.err());
    assert_eq!(test_value_hex, payload.clone().unwrap().as_str());

    let payload = Payload::to_binary(payload.unwrap().as_str());
    assert!(payload.is_ok(), "{:?}", payload.err());
}

#[test]
fn coordinates_round_trip_is_bit_exact() {
    let client_id: u32 = 24564;
    let latitude: f64 = 10.00001;
    let longitude: f64 = -127.000001;
    let text =
        Coordinates::generate_payload(client_id, latitude.to_bits(), longitude.to_bits()).unwrap();
    let bytes = Payload::to_binary(&text).unwrap();
    let packet = RequestPacket::parse(&bytes).unwrap();
    let decoded = Coordinates::parse(packet.payload_length, &packet.payload).unwrap();
    assert_eq!(decoded.client_id, client_id);
    assert_eq!(f64::from_bits(decoded.latitude_bits), latitude);
    assert_eq!(f64::from_bits(decoded.longitude_bits), longitude);
}

#[test]
fn coordinates_parse_names_each_missing_slice() {
    assert_eq!(
        Coordinates::parse(4, &[1, 2, 3]),
        Err(ValidationError::InvalidCoordinatesPayload)
    );
    assert_eq!(Coordinates::parse(2, &[1, 2]), Err(ValidationError::ClientIdEmpty));
    assert_eq!(Coordinates::parse(4, &[1, 2, 3, 4]), Err(ValidationError::InvalidLatitude));
    assert_eq!(
        Coordinates::parse(4, &[0, 0, 0, 1, 9, 9, 9, 9, 9, 9, 9, 9, 5]),
        Err(ValidationError::InvalidLongitude)
    );
}

#[test]
fn coordinates_parse_reads_big_endian_slots() {
    let mut data: Vec<u8> = vec![0, 0, 0x5F, 0xF4];
    data.extend_from_slice(&(10.5f64).to_bits().to_be_bytes());
    data.extend_from_slice(&(-0.25f64).to_bits().to_be_bytes());
    let decoded = Coordinates::parse(4, &data).unwrap();
    assert_eq!(decoded.client_id, 24564);
    assert_eq!(f64::from_bits(decoded.latitude_bits), 10.5);
    assert_eq!(f64::from_bits(decoded.longitude_bits), -0.25);
}

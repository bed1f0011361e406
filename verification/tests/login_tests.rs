use gps_tracker::actions::login::Login;
use gps_tracker::validation::ValidationError;

#[test]
fn payload_without_zero_separator_is_refused() {
    let result = Login::parse(4, &[0x61, 0x62, 0x63, 0x64]);
    assert!(matches!(result, Err(ValidationError::InvalidLoginPayload)));
}

#[test]
fn payload_shorter_than_declared_is_refused() {
    let result = Login::parse(20, &[0x61, 0, 0x62]);
    assert!(matches!(result, Err(ValidationError::InvalidLoginPayload)));
}

#[test]
fn single_separator_splits_even_empty_halves() {
    let both = Login::parse(3, &[0x61, 0, 0x62]).unwrap();
    assert_eq!(both.username, "a");
    assert_eq!(both.password, "b");

    let empty_password = Login::parse(2, &[0x61, 0]).unwrap();
    assert_eq!(empty_password.username, "a");
    assert_eq!(empty_password.password, "");

    let empty_username = Login::parse(2, &[0, 0x62]).unwrap();
    assert_eq!(empty_username.username, "");
    assert_eq!(empty_username.password, "b");

    let both_empty = Login::parse(1, &[0]).unwrap();
    assert_eq!(both_empty.username, "");
    assert_eq!(both_empty.password, "");
}

#[test]
fn splits_at_the_first_zero_only() {
    let login = Login::parse(5, &[0x61, 0, 0x62, 0, 0x63]).unwrap();
    assert_eq!(login.username, "a");
    assert_eq!(login.password, "b\0c");
}

#[test]
fn invalid_text_in_either_half_is_refused() {
    assert!(matches!(Login::parse(3, &[0xFF, 0, 0x62]), Err(ValidationError::InvalidText)));
    assert!(matches!(Login::parse(3, &[0x61, 0, 0xFF]), Err(ValidationError::InvalidText)));
}

#[test]
fn round_trips_through_the_frame() {
    let text = Login::generate_payload("root".to_string(), "pw".to_string()).unwrap();
    let bytes = gps_tracker::payload::Payload::to_binary(&text).unwrap();
    let packet = gps_tracker::request::RequestPacket::parse(&bytes).unwrap();
    assert_eq!(packet.request_type, gps_tracker::request::RequestType::Login);
    let login = Login::parse(0, &packet.payload).unwrap();
    assert_eq!(login.username, "root");
    assert_eq!(login.password, "pw");
}

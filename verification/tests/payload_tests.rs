use gps_tracker::actions::heartbeat::Heartbeat;
use gps_tracker::actions::login::Login;
use gps_tracker::actions::logout::Logout;
use gps_tracker::payload::Payload;

#[test]
fn test_payload_generator() {
    let username = "root".to_string();
    let password = "notsecurepassword".to_string();
    let test_value = "01 00 14 72 6F 6F 74 00 6E 6F 74 73 65 63 75 72 65 70 61 73 73 77 6F 72 64";
    let payload = Login::generate_payload(username, password);
    assert!(payload.is_ok(), "{:?}", payload.err());
    assert_eq!(test_value.to_string(), payload.unwrap());
    let test_value_binary: &[u8] = &[
        1, 0, 20, 114, 111, 111, 116, 0, 110, 111, 116, 115, 101, 99, 117, 114, 101, 112, 97, 115,
        115, 119, 111, 114, 100,
    ];
    let payload: Result<Vec<u8>, String> = Payload::to_binary(test_value);
    assert!(payload.is_ok(), "{:?}", payload.err());
    assert_eq!(test_value_binary, payload.unwrap());
}

#[test]
fn heartbeat_test_generate_payload() {
    let client_id: u32 = 24564;
    let payload = Heartbeat::generate_payload(client_id);
    let test_value_hex = "03 00 04 00 00 5F F4";
    assert!(payload.is_ok(), "{:?}", payload.err());
    assert_eq!(test_value_hex, payload.clone().unwrap().as_str());

    let payload = Payload::to_binary(payload.unwrap().as_str());
    assert!(payload.is_ok(), "{:?}", payload.err());
}

#[test]
fn logout_test_generate_payload() {
    let client_id: u32 = 24564;
    let payload = Logout::generate_payload(client_id);
    let test_value_hex = "04 00 04 00 00 5F F4";
    assert!(payload.is_ok(), "{:?}", payload.err());
    assert_eq!(test_value_hex, payload.clone().unwrap().as_str());

    let payload = Payload::to_binary(payload.unwrap().as_str());
    assert!(payload.is_ok(), "{:?}", payload.err());
}

#[test]
fn to_binary_accepts_mixed_case_and_short_tokens() {
    assert_eq!(Payload::to_binary("0a FF 7").unwrap(), vec![0x0A, 0xFF, 0x07]);
    assert_eq!(Payload::to_binary("00ff").unwrap(), vec![0xFF]);
    assert_eq!(Payload::to_binary("").unwrap(), Vec::<u8>::new());
    assert_eq!(Payload::to_binary("   ").unwrap(), Vec::<u8>::new());
}

#[test]
fn to_binary_rejects_bad_tokens() {
    assert!(Payload::to_binary("zz").is_err());
    assert!(Payload::to_binary("100").is_err());
    assert!(Payload::to_binary("0100").is_err());
    assert!(Payload::to_binary("0a 0b!").is_err());
}

#[test]
fn apply_spacing_pairs_trims_and_uppercases() {
    assert_eq!(Payload::apply_spacing("0a0b0c"), "0A 0B 0C");
    assert_eq!(Payload::apply_spacing("abc"), "AB C");
    assert_eq!(Payload::apply_spacing(""), "");
    assert_eq!(Payload::apply_spacing(" ab"), "A B");
    assert_eq!(Payload::apply_spacing("a b"), "A  B");
}

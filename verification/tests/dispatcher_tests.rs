use gps_tracker::actions::heartbeat::Heartbeat;
use gps_tracker::actions::login::Login;
use gps_tracker::dispatcher::{classify, respond_to, Request};
use gps_tracker::payload::Payload;
use gps_tracker::request::RequestType;
use gps_tracker::validation::ValidationError;

#[test]
fn classify_decodes_each_kind() {
    let login_text =
        Login::generate_payload("root".to_string(), "notsecurepassword".to_string()).unwrap();
    let login_bytes = Payload::to_binary(&login_text).unwrap();
    match classify(&login_bytes).unwrap() {
        Request::Login(l) => {
            assert_eq!(l.username, "root");
            assert_eq!(l.password, "notsecurepassword");
        }
        other => panic!("wrong request: {:?}", other),
    }

    let hb_text = Heartbeat::generate_payload(24564).unwrap();
    let hb_bytes = Payload::to_binary(&hb_text).unwrap();
    assert!(matches!(classify(&hb_bytes).unwrap(), Request::Heartbeat(24564)));

    match classify(&[2, 0, 4, 0, 0, 0, 9, 0, 0, 0, 0, 0, 0, 0, 1, 0, 0, 0, 0, 0, 0, 0, 2]).unwrap()
    {
        Request::Coordinates(d) => {
            assert_eq!(d.client_id, 9);
            assert_eq!(d.latitude_bits, 1);
            assert_eq!(d.longitude_bits, 2);
        }
        other => panic!("wrong request: {:?}", other),
    }

    assert!(matches!(classify(&[4, 0, 4, 0, 0, 0, 5]).unwrap(), Request::Logout(5)));
}

#[test]
fn classify_passes_framing_and_payload_errors_through() {
    assert!(matches!(classify(&[]), Err(ValidationError::InvalidRequestPacket)));
    assert!(matches!(classify(&[3, 0]), Err(ValidationError::InvalidRequestPacketPayloadLength)));
    assert!(matches!(classify(&[3, 0, 4, 1]), Err(ValidationError::InvalidHeartbeatPayload)));
    assert!(matches!(classify(&[1, 0, 2, 0x61, 0x62]), Err(ValidationError::InvalidLoginPayload)));
}

#[test]
fn unknown_kind_classifies_as_invalid_and_is_dropped() {
    let request = classify(&[0xAA, 0, 0, 1, 2, 3]).unwrap();
    assert!(matches!(request, Request::Invalid));
    assert_eq!(respond_to(RequestType::Invalid, None), None);
    assert_eq!(respond_to(RequestType::Invalid, Some(1)), None);
}

#[test]
fn login_and_heartbeat_are_always_answered() {
    assert_eq!(respond_to(RequestType::Login, Some(24564)).unwrap(), "01 06 32 34 35 36 34");
    assert_eq!(respond_to(RequestType::Login, None).unwrap(), "01 07 30");
    assert_eq!(respond_to(RequestType::HeartBeat, Some(1)).unwrap(), "03 06 31");
    assert_eq!(
        respond_to(RequestType::HeartBeat, None).unwrap(),
        "03 07 30 30 30 30 30 30 30 30 30"
    );
}

#[test]
fn coordinates_and_logout_get_no_reply() {
    assert_eq!(respond_to(RequestType::Coordinates, Some(1)), None);
    assert_eq!(respond_to(RequestType::Coordinates, None), None);
    assert_eq!(respond_to(RequestType::Logout, Some(1)), None);
    assert_eq!(respond_to(RequestType::Logout, None), None);
}

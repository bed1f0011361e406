use gps_tracker::session::{Session, SessionError};

#[test]
fn operations_before_login_are_rejected() {
    let session = Session::new();
    assert_eq!(session.heartbeat_request(), Err(SessionError::NotAuthenticated));
    assert_eq!(session.coordinates_request(0, 0), Err(SessionError::NotAuthenticated));
    assert_eq!(session.logout_request(), Err(SessionError::NotAuthenticated));
    assert_eq!(session.identity(), None);
}

#[test]
fn login_then_heartbeat_then_logout() {
    let mut session = Session::new();
    let login_frame = session.login_request("root", "notsecurepassword").unwrap();
    assert_eq!(
        login_frame,
        "01 00 14 72 6F 6F 74 00 6E 6F 74 73 65 63 75 72 65 70 61 73 73 77 6F 72 64"
    );

    let id = session.login_reply(6, b"24564").unwrap();
    assert_eq!(id, 24564);
    assert_eq!(session.identity(), Some(24564));

    assert_eq!(session.heartbeat_request().unwrap(), "03 00 04 00 00 5F F4");
    let lat = 10.00001f64;
    let lon = -127.000001f64;
    assert_eq!(
        session.coordinates_request(lat.to_bits(), lon.to_bits()).unwrap(),
        "02 00 04 00 00 5F F4 40 24 00 01 4F 8B 58 8E C0 5F C0 00 04 31 BD E8"
    );
    assert_eq!(session.logout_request().unwrap(), "04 00 04 00 00 5F F4");
    assert_eq!(session.logout_complete(), Ok(()));
}

#[test]
fn every_operation_after_logout_fails_fast() {
    let mut session = Session::new();
    session.login_reply(6, b"7").unwrap();
    session.logout_complete().unwrap();

    assert_eq!(session.login_request("a", "b"), Err(SessionError::SessionClosed));
    assert_eq!(session.login_reply(6, b"7"), Err(SessionError::SessionClosed));
    assert_eq!(session.heartbeat_request(), Err(SessionError::SessionClosed));
    assert_eq!(session.heartbeat_reply(6, b"7"), Err(SessionError::SessionClosed));
    assert_eq!(session.coordinates_request(0, 0), Err(SessionError::SessionClosed));
    assert_eq!(session.logout_request(), Err(SessionError::SessionClosed));
    assert_eq!(session.logout_complete(), Err(SessionError::SessionClosed));
    assert_eq!(session.identity(), None);
}

#[test]
fn failed_login_leaves_the_session_unauthenticated() {
    let mut session = Session::new();
    assert_eq!(session.login_reply(7, b"0"), Err(SessionError::RequestFailed));
    assert_eq!(session.identity(), None);
    assert_eq!(session.heartbeat_request(), Err(SessionError::NotAuthenticated));

    assert_eq!(session.login_reply(6, b""), Err(SessionError::InvalidIdentity));
    assert_eq!(session.login_reply(6, b"12a"), Err(SessionError::InvalidIdentity));
    assert_eq!(session.login_reply(6, b"4294967296"), Err(SessionError::InvalidIdentity));
    assert_eq!(session.identity(), None);

    assert_eq!(session.login_reply(6, b"4294967295"), Ok(u32::MAX));
    assert_eq!(session.identity(), Some(u32::MAX));
}

#[test]
fn second_login_is_rejected_and_heartbeat_refreshes_identity() {
    let mut session = Session::new();
    session.login_reply(6, b"10").unwrap();
    assert_eq!(session.login_request("a", "b"), Err(SessionError::AlreadyAuthenticated));
    assert_eq!(session.login_reply(6, b"11"), Err(SessionError::AlreadyAuthenticated));
    assert_eq!(session.identity(), Some(10));

    assert_eq!(session.heartbeat_reply(6, b"12"), Ok(12));
    assert_eq!(session.identity(), Some(12));
    assert_eq!(session.heartbeat_reply(7, b"12"), Err(SessionError::RequestFailed));
    assert_eq!(session.heartbeat_reply(6, b"x"), Err(SessionError::InvalidIdentity));
    assert_eq!(session.identity(), Some(12));
}

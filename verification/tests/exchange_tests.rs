//! One full device lifecycle driven through the library alone: the client
//! side builds frames with the session state machine, the server side decodes
//! them with the dispatcher and answers, and the client consumes each reply.

use gps_tracker::dispatcher::{classify, respond_to, Request};
use gps_tracker::payload::Payload;
use gps_tracker::request::RequestType;
use gps_tracker::session::Session;

/// The server's half of one exchange: decode the datagram, resolve the
/// identity as the credential collaborator would, reply when the kind is owed
/// a reply.
fn server_turn(datagram: &[u8]) -> Option<Vec<u8>> {
    let (kind, outcome) = match classify(datagram).unwrap() {
        Request::Login(login) => {
            let authenticated = login.username == "root" && login.password == "notsecurepassword";
            (RequestType::Login, if authenticated { Some(24564) } else { None })
        }
        Request::Heartbeat(id) => (RequestType::HeartBeat, Some(id)),
        Request::Coordinates(_) => (RequestType::Coordinates, None),
        Request::Logout(_) => (RequestType::Logout, None),
        Request::Invalid => (RequestType::Invalid, None),
    };
    respond_to(kind, outcome).map(|text| Payload::to_binary(&text).unwrap())
}

fn send(session_frame: &str) -> Vec<u8> {
    Payload::to_binary(session_frame).unwrap()
}

#[test]
fn full_lifecycle_without_a_socket() {
    let mut client = Session::new();

    let login = client.login_request("root", "notsecurepassword").unwrap();
    let reply = server_turn(&send(&login)).expect("login is always answered");
    let id = client.login_reply(reply[1], &reply[2..]).unwrap();
    assert_eq!(id, 24564);

    let heartbeat = client.heartbeat_request().unwrap();
    let reply = server_turn(&send(&heartbeat)).expect("heartbeat is always answered");
    assert_eq!(reply[0], 3);
    assert_eq!(reply[1], 6);
    assert_eq!(client.heartbeat_reply(reply[1], &reply[2..]).unwrap(), 24564);

    let sample = client.coordinates_request((10.5f64).to_bits(), (-0.25f64).to_bits()).unwrap();
    assert_eq!(server_turn(&send(&sample)), None);

    let logout = client.logout_request().unwrap();
    assert_eq!(server_turn(&send(&logout)), None);
    client.logout_complete().unwrap();
    assert!(client.heartbeat_request().is_err());
}

#[test]
fn failed_login_reply_carries_the_placeholder() {
    let mut client = Session::new();
    let login = client.login_request("root", "wrongpasswordhere").unwrap();
    let reply = server_turn(&send(&login)).expect("login is always answered");
    assert_eq!(reply, vec![1, 7, 0x30]);
    assert!(client.login_reply(reply[1], &reply[2..]).is_err());
    assert_eq!(client.identity(), None);
}

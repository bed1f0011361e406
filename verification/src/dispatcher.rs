//! The server-side dispatch decisions: classifying one datagram into a typed
//! request, and choosing the response the collector owes once the handler's
//! collaborators have answered. The receive loop around these functions only
//! moves datagrams and collaborator results; every decision is made here.

use vstd::prelude::*;
use crate::actions::coordinates::{spec_parse_coordinates, Coordinates, CoordinatesData};
use crate::actions::heartbeat::{heartbeat_response_frame, spec_parse_heartbeat, Heartbeat};
use crate::actions::login::{login_response_frame, spec_parse_login, Login};
use crate::actions::logout::{spec_parse_logout, Logout};
use crate::hex_text::hex_text;
use crate::marshal::{dec_chars, u32_to_dec_string};
use crate::request::{spec_parse_frame, RequestPacket, RequestType};
use crate::validation::ValidationError;

verus! {

/// One fully decoded request, ready for its handler.
#[derive(Debug)]
pub enum Request {
    Login(Login),
    Heartbeat(u32),
    Coordinates(CoordinatesData),
    Logout(u32),
    Invalid,
}

/// The spec-level shape of a decoded request.
pub enum RequestView {
    Login(Seq<char>, Seq<char>),
    Heartbeat(u32),
    Coordinates(CoordinatesData),
    Logout(u32),
    Invalid,
}

impl View for Request {
    type V = RequestView;

    open spec fn view(&self) -> RequestView {
        match self {
            Request::Login(l) => RequestView::Login(l.username@, l.password@),
            Request::Heartbeat(id) => RequestView::Heartbeat(*id),
            Request::Coordinates(d) => RequestView::Coordinates(*d),
            Request::Logout(id) => RequestView::Logout(*id),
            Request::Invalid => RequestView::Invalid,
        }
    }
}

/// What one datagram classifies to: the frame is split, then the payload is
/// decoded under the kind the frame selected. A frame of unrecognized kind
/// classifies successfully as an invalid request, never as an error.
pub open spec fn spec_classify(data: Seq<u8>) -> Result<RequestView, ValidationError> {
    match spec_parse_frame(data) {
        Err(e) => Err(e),
        Ok(t) => match t.0 {
            RequestType::Login => match spec_parse_login(t.1, t.2) {
                Ok(c) => Ok(RequestView::Login(c.0, c.1)),
                Err(e) => Err(e),
            },
            RequestType::HeartBeat => match spec_parse_heartbeat(t.1, t.2) {
                Ok(id) => Ok(RequestView::Heartbeat(id)),
                Err(e) => Err(e),
            },
            RequestType::Coordinates => match spec_parse_coordinates(t.1, t.2) {
                Ok(d) => Ok(RequestView::Coordinates(d)),
                Err(e) => Err(e),
            },
            RequestType::Logout => match spec_parse_logout(t.1, t.2) {
                Ok(id) => Ok(RequestView::Logout(id)),
                Err(e) => Err(e),
            },
            RequestType::Invalid => Ok(RequestView::Invalid),
        },
    }
}

/// Decodes one raw datagram into a typed request: frame first, then the
/// payload under the frame's kind.
pub fn classify(data: &[u8]) -> (r: Result<Request, ValidationError>)
    ensures
        r matches Ok(q) ==> spec_classify(data@) == Ok::<RequestView, ValidationError>(q@),
        r matches Err(e) ==> spec_classify(data@) == Err::<RequestView, ValidationError>(e),
{
    let packet: RequestPacket = match RequestPacket::parse(data) {
        Ok(p) => p,
        Err(e) => {
            return Err(e);
        },
    };
    match packet.request_type {
        RequestType::Login => {
            match Login::parse(packet.payload_length, packet.payload.as_slice()) {
                Ok(l) => Ok(Request::Login(l)),
                Err(e) => Err(e),
            }
        },
        RequestType::HeartBeat => {
            match Heartbeat::parse(packet.payload_length, packet.payload.as_slice()) {
                Ok(id) => Ok(Request::Heartbeat(id)),
                Err(e) => Err(e),
            }
        },
        RequestType::Coordinates => {
            match Coordinates::parse(packet.payload_length, packet.payload.as_slice()) {
                Ok(d) => Ok(Request::Coordinates(d)),
                Err(e) => Err(e),
            }
        },
        RequestType::Logout => {
            match Logout::parse(packet.payload_length, packet.payload.as_slice()) {
                Ok(id) => Ok(Request::Logout(id)),
                Err(e) => Err(e),
            }
        },
        RequestType::Invalid => Ok(Request::Invalid),
    }
}

/// The placeholder identity text of a failed login reply. It is not a real
/// identity; clients must not treat it as one.
pub open spec fn login_placeholder() -> Seq<char> {
    "0"@
}

/// The placeholder identity text of a failed heartbeat reply.
pub open spec fn heartbeat_placeholder() -> Seq<char> {
    "000000000"@
}

/// The response the collector owes after handling one request, given the
/// identity its collaborators resolved (`None` when authentication or
/// persistence failed).
///
/// Login and HeartBeat are always answered: with Success and the resolved
/// identity in decimal, or with Error and a placeholder identity. Coordinates
/// and Logout are deliberately not answered — the protocol treats them as
/// fire-and-forget — and an invalid request is dropped without a reply.
pub fn respond_to(kind: RequestType, outcome: Option<u32>) -> (r: Option<String>)
    ensures
        kind == RequestType::Login ==> (outcome matches Some(id) ==> (r matches Some(s) && s@
            == hex_text(login_response_frame(dec_chars(id as nat), false)))),
        (kind == RequestType::Login && outcome is None) ==> (r matches Some(s) && s@ == hex_text(
            login_response_frame(login_placeholder(), true),
        )),
        kind == RequestType::HeartBeat ==> (outcome matches Some(id) ==> (r matches Some(s) && s@
            == hex_text(heartbeat_response_frame(dec_chars(id as nat), false)))),
        (kind == RequestType::HeartBeat && outcome is None) ==> (r matches Some(s) && s@ == hex_text(
            heartbeat_response_frame(heartbeat_placeholder(), true),
        )),
        kind == RequestType::Coordinates || kind == RequestType::Logout || kind
            == RequestType::Invalid ==> r is None,
{
    match kind {
        RequestType::Login => {
            let reply = match outcome {
                Some(id) => Login::generate_response(u32_to_dec_string(id), false),
                None => Login::generate_response(String::from_str("0"), true),
            };
            match reply {
                Ok(s) => Some(s),
                Err(_) => {
                    proof {
                        assert(false);
                    }
                    None
                },
            }
        },
        RequestType::HeartBeat => {
            let reply = match outcome {
                Some(id) => Heartbeat::generate_response(u32_to_dec_string(id), false),
                None => Heartbeat::generate_response(String::from_str("000000000"), true),
            };
            match reply {
                Ok(s) => Some(s),
                Err(_) => {
                    proof {
                        assert(false);
                    }
                    None
                },
            }
        },
        RequestType::Coordinates => None,
        RequestType::Logout => None,
        RequestType::Invalid => None,
    }
}

} // verus!

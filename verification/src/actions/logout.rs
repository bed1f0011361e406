//! The Logout message: the same four-byte big-endian client identifier as a
//! heartbeat, sent once to end a device's session and delete its records.
//!
//! Frame layout, as spaced hex text: `04 00 04 <four id bytes>`, for example
//! `04 00 04 00 00 5F F4` for client 24564.

use vstd::prelude::*;
use crate::hex_text::{hex_text, lemma_hex_text_round_trip, render_hex_text, to_binary_view};
use crate::marshal::{
    be_bytes, be_value, lemma_be_round_trip, lemma_pow256_values, u32_from_be_bytes,
    u32_to_be_bytes,
};
use crate::request::{spec_parse_frame, RequestType};
use crate::response::ResponseType;
use crate::validation::ValidationError;

verus! {

/// The full wire frame of a logout for one client identifier.
pub open spec fn logout_frame(client_id: u32) -> Seq<u8> {
    seq![4u8, 0u8, 4u8] + be_bytes(client_id as int, 4)
}

/// What decoding a logout payload yields: the same rule as for a heartbeat,
/// with this kind's own error for a payload shorter than declared.
pub open spec fn spec_parse_logout(payload_length: int, data: Seq<u8>) -> Result<
    u32,
    ValidationError,
> {
    if data.len() < payload_length {
        Err(ValidationError::InvalidLogoutPayload)
    } else if data.len() < 4 {
        Err(ValidationError::InvalidClientId)
    } else {
        Ok(be_value(data.subrange(0, 4)) as u32)
    }
}

/// The response frame for a logout: the kind byte, the status byte, then the
/// identity text verbatim as bytes.
pub open spec fn logout_response_frame(client_id: Seq<char>, is_error: bool) -> Seq<u8> {
    seq![
        RequestType::Logout.code(),
        (if is_error {
            ResponseType::Error
        } else {
            ResponseType::Success
        }).code(),
    ] + vstd::utf8::encode_utf8(client_id)
}

pub struct Logout;

impl Logout {
    /// Renders the logout frame for a client identifier as spaced hex text.
    pub fn generate_payload(client_id: u32) -> (r: Result<String, String>)
        ensures
            r matches Ok(s) && s@ == hex_text(logout_frame(client_id)),
    {
        let mut frame: Vec<u8> = Vec::new();
        frame.push(RequestType::Logout.to_value());
        frame.push(0);
        frame.push(RequestType::Logout.get_length());
        let mut id_bytes: Vec<u8> = u32_to_be_bytes(client_id);
        frame.append(&mut id_bytes);
        proof {
            assert(frame@ =~= logout_frame(client_id));
        }
        Ok(render_hex_text(frame.as_slice()))
    }

    /// Decodes the client identifier from a logout payload.
    pub fn parse(payload_length: usize, data: &[u8]) -> (r: Result<u32, ValidationError>)
        ensures
            r == spec_parse_logout(payload_length as int, data@),
    {
        if data.len() < payload_length {
            return Err(ValidationError::InvalidLogoutPayload);
        }
        if data.len() < 4 {
            return Err(ValidationError::InvalidClientId);
        }
        proof {
            crate::marshal::lemma_be_value_bound(data@.subrange(0, 4));
            lemma_pow256_values();
        }
        Ok(u32_from_be_bytes(data, 0))
    }

    /// Renders the logout response frame: kind byte, status byte, then the
    /// identity text as bytes, as spaced hex text.
    pub fn generate_response(client_id: String, is_error: bool) -> (r: Result<String, String>)
        ensures
            r matches Ok(s) && s@ == hex_text(logout_response_frame(client_id@, is_error)),
    {
        let mut frame: Vec<u8> = Vec::new();
        frame.push(RequestType::Logout.to_value());
        let status = if is_error {
            ResponseType::Error
        } else {
            ResponseType::Success
        };
        frame.push(status.to_value());
        let mut id_bytes: Vec<u8> = client_id.as_str().as_bytes_vec();
        frame.append(&mut id_bytes);
        proof {
            assert(frame@ =~= logout_response_frame(client_id@, is_error));
        }
        Ok(render_hex_text(frame.as_slice()))
    }
}

/// Every client identifier survives the full logout round trip, as it does
/// for a heartbeat.
pub proof fn lemma_logout_round_trip(client_id: u32)
    ensures
        to_binary_view(hex_text(logout_frame(client_id))) == Some(logout_frame(client_id)),
        spec_parse_frame(logout_frame(client_id)) matches Ok(t) && t.0 == RequestType::Logout
            && t.1 == 4 && spec_parse_logout(t.1, t.2) == Ok::<u32, ValidationError>(client_id),
{
    lemma_hex_text_round_trip(logout_frame(client_id));
    let frame = logout_frame(client_id);
    crate::marshal::lemma_be_bytes_len(client_id as int, 4);
    assert(frame.len() == 7);
    assert(frame[0] == 4u8);
    assert(frame[2] == 4u8);
    let payload = frame.skip(3);
    assert(payload =~= be_bytes(client_id as int, 4));
    assert(payload.subrange(0, 4) =~= payload);
    lemma_pow256_values();
    lemma_be_round_trip(client_id as int, 4);
}

} // verus!

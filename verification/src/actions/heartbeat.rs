//! The HeartBeat message: a four-byte big-endian client identifier that a
//! device sends periodically to report liveness.
//!
//! Frame layout, as spaced hex text: `03 00 04 <four id bytes>`, for example
//! `03 00 04 00 00 5F F4` for client 24564.

use vstd::prelude::*;
use crate::hex_text::{hex_text, lemma_hex_text_round_trip, render_hex_text, to_binary_view};
use crate::marshal::{
    be_bytes, be_value, lemma_be_round_trip, lemma_pow256_values, u32_from_be_bytes,
    u32_to_be_bytes,
};
use crate::request::{spec_parse_frame, RequestType};
use crate::response::ResponseType;
use crate::validation::ValidationError;

verus! {

/// The full wire frame of a heartbeat for one client identifier.
pub open spec fn heartbeat_frame(client_id: u32) -> Seq<u8> {
    seq![3u8, 0u8, 4u8] + be_bytes(client_id as int, 4)
}

/// What decoding a heartbeat payload yields: the payload must reach the
/// declared length and hold at least the four identifier bytes, which are
/// read as one big-endian 32-bit integer.
pub open spec fn spec_parse_heartbeat(payload_length: int, data: Seq<u8>) -> Result<
    u32,
    ValidationError,
> {
    if data.len() < payload_length {
        Err(ValidationError::InvalidHeartbeatPayload)
    } else if data.len() < 4 {
        Err(ValidationError::InvalidClientId)
    } else {
        Ok(be_value(data.subrange(0, 4)) as u32)
    }
}

/// The response frame for a heartbeat: the kind byte, the status byte, then
/// the identity text verbatim as bytes.
pub open spec fn heartbeat_response_frame(client_id: Seq<char>, is_error: bool) -> Seq<u8> {
    seq![
        RequestType::HeartBeat.code(),
        (if is_error {
            ResponseType::Error
        } else {
            ResponseType::Success
        }).code(),
    ] + vstd::utf8::encode_utf8(client_id)
}

pub struct Heartbeat;

impl Heartbeat {
    /// Renders the heartbeat frame for a client identifier as spaced hex text.
    pub fn generate_payload(client_id: u32) -> (r: Result<String, String>)
        ensures
            r matches Ok(s) && s@ == hex_text(heartbeat_frame(client_id)),
    {
        let mut frame: Vec<u8> = Vec::new();
        frame.push(RequestType::HeartBeat.to_value());
        frame.push(0);
        frame.push(RequestType::HeartBeat.get_length());
        let mut id_bytes: Vec<u8> = u32_to_be_bytes(client_id);
        frame.append(&mut id_bytes);
        proof {
            assert(frame@ =~= heartbeat_frame(client_id));
        }
        Ok(render_hex_text(frame.as_slice()))
    }

    /// Decodes the client identifier from a heartbeat payload.
    pub fn parse(payload_length: usize, data: &[u8]) -> (r: Result<u32, ValidationError>)
        ensures
            r == spec_parse_heartbeat(payload_length as int, data@),
    {
        if data.len() < payload_length {
            return Err(ValidationError::InvalidHeartbeatPayload);
        }
        if data.len() < 4 {
            return Err(ValidationError::InvalidClientId);
        }
        proof {
            crate::marshal::lemma_be_value_bound(data@.subrange(0, 4));
            lemma_pow256_values();
        }
        Ok(u32_from_be_bytes(data, 0))
    }

    /// Renders the heartbeat response frame: kind byte, status byte, then the
    /// identity text as bytes, as spaced hex text.
    pub fn generate_response(client_id: String, is_error: bool) -> (r: Result<String, String>)
        ensures
            r matches Ok(s) && s@ == hex_text(heartbeat_response_frame(client_id@, is_error)),
    {
        let mut frame: Vec<u8> = Vec::new();
        frame.push(RequestType::HeartBeat.to_value());
        let status = if is_error {
            ResponseType::Error
        } else {
            ResponseType::Success
        };
        frame.push(status.to_value());
        let mut id_bytes: Vec<u8> = client_id.as_str().as_bytes_vec();
        frame.append(&mut id_bytes);
        proof {
            assert(frame@ =~= heartbeat_response_frame(client_id@, is_error));
        }
        Ok(render_hex_text(frame.as_slice()))
    }
}

/// Every client identifier survives the full heartbeat round trip: the frame
/// text parses back to the same bytes, the frame parses as a HeartBeat whose
/// declared length is met, and the payload decodes to the same identifier.
pub proof fn lemma_heartbeat_round_trip(client_id: u32)
    ensures
        to_binary_view(hex_text(heartbeat_frame(client_id))) == Some(heartbeat_frame(client_id)),
        spec_parse_frame(heartbeat_frame(client_id)) matches Ok(t) && t.0 == RequestType::HeartBeat
            && t.1 == 4 && spec_parse_heartbeat(t.1, t.2) == Ok::<u32, ValidationError>(client_id),
{
    lemma_hex_text_round_trip(heartbeat_frame(client_id));
    let frame = heartbeat_frame(client_id);
    crate::marshal::lemma_be_bytes_len(client_id as int, 4);
    assert(frame.len() == 7);
    assert(frame[0] == 3u8);
    assert(frame[2] == 4u8);
    let payload = frame.skip(3);
    assert(payload =~= be_bytes(client_id as int, 4));
    assert(payload.subrange(0, 4) =~= payload);
    lemma_pow256_values();
    lemma_be_round_trip(client_id as int, 4);
}

} // verus!

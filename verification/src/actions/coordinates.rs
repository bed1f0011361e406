//! The Coordinates message: a four-byte big-endian client identifier followed
//! by two eight-byte big-endian IEEE-754 double slots, latitude then
//! longitude. This crate carries each double as its 64-bit pattern; callers
//! that hold an `f64` convert with `f64::to_bits` and `f64::from_bits`, which
//! keeps the round trip bit-exact.
//!
//! Frame layout, as spaced hex text: `02 00 04 <id> <latitude> <longitude>`.

use vstd::prelude::*;
use crate::hex_text::{hex_text, lemma_hex_text_round_trip, render_hex_text, to_binary_view};
use crate::marshal::{
    be_bytes, be_value, lemma_be_bytes_len, lemma_be_round_trip, lemma_pow256_values,
    u32_from_be_bytes, u32_to_be_bytes, u64_from_be_bytes, u64_to_be_bytes,
};
use crate::request::{spec_parse_frame, RequestType};
use crate::response::ResponseType;
use crate::validation::ValidationError;

verus! {

/// One position report: the reporting client and the two coordinates as
/// IEEE-754 double bit patterns.
#[derive(Debug, Clone, Copy, PartialEq, Eq, Structural)]
pub struct CoordinatesData {
    pub client_id: u32,
    pub latitude_bits: u64,
    pub longitude_bits: u64,
}

/// The full wire frame of a coordinates report.
pub open spec fn coordinates_frame(data: CoordinatesData) -> Seq<u8> {
    seq![2u8, 0u8, 4u8] + be_bytes(data.client_id as int, 4) + be_bytes(
        data.latitude_bits as int,
        8,
    ) + be_bytes(data.longitude_bits as int, 8)
}

/// What decoding a coordinates payload yields: bytes zero to four are the
/// client identifier, four to twelve the latitude pattern, twelve to twenty
/// the longitude pattern, each big-endian; a slice that is absent names its
/// own error.
pub open spec fn spec_parse_coordinates(payload_length: int, data: Seq<u8>) -> Result<
    CoordinatesData,
    ValidationError,
> {
    if data.len() < payload_length {
        Err(ValidationError::InvalidCoordinatesPayload)
    } else if data.len() < 4 {
        Err(ValidationError::ClientIdEmpty)
    } else if data.len() < 12 {
        Err(ValidationError::InvalidLatitude)
    } else if data.len() < 20 {
        Err(ValidationError::InvalidLongitude)
    } else {
        Ok(
            CoordinatesData {
                client_id: be_value(data.subrange(0, 4)) as u32,
                latitude_bits: be_value(data.subrange(4, 12)) as u64,
                longitude_bits: be_value(data.subrange(12, 20)) as u64,
            },
        )
    }
}

/// The response frame for a coordinates report: the kind byte, the status
/// byte, then the identity text verbatim as bytes.
pub open spec fn coordinates_response_frame(client_id: Seq<char>, is_error: bool) -> Seq<u8> {
    seq![
        RequestType::Coordinates.code(),
        (if is_error {
            ResponseType::Error
        } else {
            ResponseType::Success
        }).code(),
    ] + vstd::utf8::encode_utf8(client_id)
}

pub struct Coordinates;

impl Coordinates {
    /// Renders the coordinates frame as spaced hex text. The coordinates are
    /// the big-endian bit patterns of the two doubles.
    pub fn generate_payload(client_id: u32, latitude_bits: u64, longitude_bits: u64) -> (r: Result<
        String,
        String,
    >)
        ensures
            r matches Ok(s) && s@ == hex_text(
                coordinates_frame(CoordinatesData { client_id, latitude_bits, longitude_bits }),
            ),
    {
        let mut frame: Vec<u8> = Vec::new();
        frame.push(RequestType::Coordinates.to_value());
        frame.push(0);
        frame.push(RequestType::Coordinates.get_length());
        let mut id_bytes: Vec<u8> = u32_to_be_bytes(client_id);
        frame.append(&mut id_bytes);
        let mut lat_bytes: Vec<u8> = u64_to_be_bytes(latitude_bits);
        frame.append(&mut lat_bytes);
        let mut lon_bytes: Vec<u8> = u64_to_be_bytes(longitude_bits);
        frame.append(&mut lon_bytes);
        proof {
            assert(frame@ =~= coordinates_frame(
                CoordinatesData { client_id, latitude_bits, longitude_bits },
            ));
        }
        Ok(render_hex_text(frame.as_slice()))
    }

    /// Decodes a position report from a coordinates payload.
    pub fn parse(payload_length: usize, data: &[u8]) -> (r: Result<
        CoordinatesData,
        ValidationError,
    >)
        ensures
            r == spec_parse_coordinates(payload_length as int, data@),
    {
        if data.len() < payload_length {
            return Err(ValidationError::InvalidCoordinatesPayload);
        }
        if data.len() < 4 {
            return Err(ValidationError::ClientIdEmpty);
        }
        if data.len() < 12 {
            return Err(ValidationError::InvalidLatitude);
        }
        if data.len() < 20 {
            return Err(ValidationError::InvalidLongitude);
        }
        proof {
            crate::marshal::lemma_be_value_bound(data@.subrange(0, 4));
            crate::marshal::lemma_be_value_bound(data@.subrange(4, 12));
            crate::marshal::lemma_be_value_bound(data@.subrange(12, 20));
            lemma_pow256_values();
        }
        let client_id: u32 = u32_from_be_bytes(data, 0);
        let latitude_bits: u64 = u64_from_be_bytes(data, 4);
        let longitude_bits: u64 = u64_from_be_bytes(data, 12);
        Ok(CoordinatesData { client_id, latitude_bits, longitude_bits })
    }

    /// Renders the coordinates response frame: kind byte, status byte, then
    /// the identity text as bytes, as spaced hex text.
    pub fn generate_response(client_id: String, is_error: bool) -> (r: Result<String, String>)
        ensures
            r matches Ok(s) && s@ == hex_text(coordinates_response_frame(client_id@, is_error)),
    {
        let mut frame: Vec<u8> = Vec::new();
        frame.push(RequestType::Coordinates.to_value());
        let status = if is_error {
            ResponseType::Error
        } else {
            ResponseType::Success
        };
        frame.push(status.to_value());
        let mut id_bytes: Vec<u8> = client_id.as_str().as_bytes_vec();
        frame.append(&mut id_bytes);
        proof {
            assert(frame@ =~= coordinates_response_frame(client_id@, is_error));
        }
        Ok(render_hex_text(frame.as_slice()))
    }
}

/// Every position report survives the full round trip bit-exactly: the frame
/// text parses back to the same bytes, the frame parses as Coordinates, and
/// the payload decodes to the same identifier and the same two bit patterns.
pub proof fn lemma_coordinates_round_trip(data: CoordinatesData)
    ensures
        to_binary_view(hex_text(coordinates_frame(data))) == Some(coordinates_frame(data)),
        spec_parse_frame(coordinates_frame(data)) matches Ok(t) && t.0 == RequestType::Coordinates
            && t.1 == 4 && spec_parse_coordinates(t.1, t.2) == Ok::<CoordinatesData, ValidationError>(data),
{
    lemma_hex_text_round_trip(coordinates_frame(data));
    let frame = coordinates_frame(data);
    lemma_be_bytes_len(data.client_id as int, 4);
    lemma_be_bytes_len(data.latitude_bits as int, 8);
    lemma_be_bytes_len(data.longitude_bits as int, 8);
    assert(frame.len() == 23);
    assert(frame[0] == 2u8);
    assert(frame[2] == 4u8);
    let payload = frame.skip(3);
    assert(payload.subrange(0, 4) =~= be_bytes(data.client_id as int, 4));
    assert(payload.subrange(4, 12) =~= be_bytes(data.latitude_bits as int, 8));
    assert(payload.subrange(12, 20) =~= be_bytes(data.longitude_bits as int, 8));
    lemma_pow256_values();
    lemma_be_round_trip(data.client_id as int, 4);
    lemma_be_round_trip(data.latitude_bits as int, 8);
    lemma_be_round_trip(data.longitude_bits as int, 8);
}

} // verus!

//! Request frames: the message kinds and the envelope parsed from a datagram.

use vstd::prelude::*;
use vstd::slice::{slice_subrange, slice_to_vec};
use crate::validation::ValidationError;

verus! {

#[derive(Debug, Clone, Copy, PartialEq, Eq, Structural)]
pub enum RequestType {
    Login,
    Coordinates,
    HeartBeat,
    Logout,
    Invalid,
}

impl RequestType {
    /// The wire code of this message kind.
    pub open spec fn code(self) -> u8 {
        match self {
            RequestType::Login => 0x01,
            RequestType::Coordinates => 0x02,
            RequestType::HeartBeat => 0x03,
            RequestType::Logout => 0x04,
            RequestType::Invalid => 0x00,
        }
    }

    pub fn to_value(self) -> (r: u8)
        ensures
            r == self.code(),
    {
        match self {
            RequestType::Login => 0x01,
            RequestType::Coordinates => 0x02,
            RequestType::HeartBeat => 0x03,
            RequestType::Logout => 0x04,
            RequestType::Invalid => 0x00,
        }
    }

    /// The payload length that encoders declare in the third byte of a frame
    /// of this kind. The value is advisory: decoders measure the payload
    /// itself, and a single byte caps what the frame can declare at 255.
    pub open spec fn declared_length(self) -> u8 {
        match self {
            RequestType::Login => 0x14,
            RequestType::Coordinates => 0x04,
            RequestType::HeartBeat => 0x04,
            RequestType::Logout => 0x04,
            RequestType::Invalid => 0x00,
        }
    }

    pub fn get_length(self) -> (r: u8)
        ensures
            r == self.declared_length(),
    {
        match self {
            RequestType::Login => 0x14,
            RequestType::Coordinates => 0x04,
            RequestType::HeartBeat => 0x04,
            RequestType::Logout => 0x04,
            RequestType::Invalid => 0x00,
        }
    }

    /// The message kind a wire code selects. An unrecognized code selects
    /// `Invalid`: the frame still parses, and the dispatcher drops it.
    pub open spec fn of_code(value: u8) -> RequestType {
        if value == 0x01 {
            RequestType::Login
        } else if value == 0x02 {
            RequestType::Coordinates
        } else if value == 0x03 {
            RequestType::HeartBeat
        } else if value == 0x04 {
            RequestType::Logout
        } else {
            RequestType::Invalid
        }
    }

    pub fn get_by_value(value: u8) -> (r: RequestType)
        ensures
            r == RequestType::of_code(value),
    {
        if value == 0x01 {
            RequestType::Login
        } else if value == 0x02 {
            RequestType::Coordinates
        } else if value == 0x03 {
            RequestType::HeartBeat
        } else if value == 0x04 {
            RequestType::Logout
        } else {
            RequestType::Invalid
        }
    }
}

/// Each named message kind is recovered from its own wire code.
pub proof fn lemma_kind_code_round_trip(kind: RequestType)
    ensures
        RequestType::of_code(kind.code()) == kind,
{
}

/// One datagram split into its envelope: the kind byte, the advisory length
/// byte, and everything from the fourth byte on as the payload.
#[derive(Debug)]
pub struct RequestPacket {
    pub request_type: RequestType,
    pub payload_length: usize,
    pub payload: Vec<u8>,
}

/// What parsing a datagram yields: the kind selected by byte zero, the
/// advisory length read from byte two, and the bytes from index three on.
/// A datagram without those three header bytes is refused.
pub open spec fn spec_parse_frame(data: Seq<u8>) -> Result<(RequestType, int, Seq<u8>), ValidationError> {
    if data.len() == 0 {
        Err(ValidationError::InvalidRequestPacket)
    } else if data.len() < 3 {
        Err(ValidationError::InvalidRequestPacketPayloadLength)
    } else {
        Ok((RequestType::of_code(data[0]), data[2] as int, data.skip(3)))
    }
}

impl RequestPacket {
    /// Splits a raw datagram into an envelope. Byte one is reserved and not
    /// interpreted; byte two is kept as the advisory declared length only.
    pub fn parse(data: &[u8]) -> (r: Result<Self, ValidationError>)
        ensures
            r matches Ok(p) ==> spec_parse_frame(data@) matches Ok(t) && p.request_type == t.0
                && p.payload_length == t.1 && p.payload@ == t.2,
            r matches Err(e) ==> spec_parse_frame(data@) matches Err(e2) && e == e2,
            r is Ok <==> data@.len() >= 3,
    {
        let len: usize = data.len();
        if len == 0 {
            return Err(ValidationError::InvalidRequestPacket);
        }
        if len < 3 {
            return Err(ValidationError::InvalidRequestPacketPayloadLength);
        }
        let request_type = RequestType::get_by_value(data[0]);
        let payload_length: usize = data[2] as usize;
        let payload: Vec<u8> = slice_to_vec(slice_subrange(data, 3, len));
        assert(payload@ =~= data@.skip(3));
        Ok(RequestPacket { request_type, payload_length, payload })
    }
}

} // verus!

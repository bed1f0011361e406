//! Decode and validation failures of the protocol, one variant per condition.

use vstd::prelude::*;

verus! {

#[derive(Debug, Clone, Copy, PartialEq, Eq, Structural)]
pub enum ValidationError {
    InvalidLogin,
    InvalidLoginPayload,
    InvalidClientId,
    InvalidLogoutPayload,
    InvalidHeartbeatPayload,
    InvalidCoordinatesPayload,
    InvalidLatitude,
    InvalidLongitude,
    ClientIdEmpty,
    UnableToParseLatitude,
    UnableToParseLongitude,
    InvalidRequestPacket,
    InvalidRequestPacketPayloadLength,
    InvalidRequestPacketPayload,
    UnableToParseRequestPayloadLength,
    InvalidUserId,
    InvalidText,
}

impl ValidationError {
    /// The human-readable description of this failure.
    pub open spec fn message_view(self) -> Seq<char> {
        match self {
            ValidationError::InvalidLogin => "Invalid login attempt"@,
            ValidationError::InvalidLoginPayload => "Invalid login payload"@,
            ValidationError::InvalidClientId => "Invalid client ID"@,
            ValidationError::InvalidLogoutPayload => "Invalid logout payload"@,
            ValidationError::InvalidHeartbeatPayload => "Invalid heartbeat payload"@,
            ValidationError::InvalidCoordinatesPayload => "Invalid coordinates payload"@,
            ValidationError::InvalidLatitude => "Invalid latitude value"@,
            ValidationError::InvalidLongitude => "Invalid longitude value"@,
            ValidationError::ClientIdEmpty => "Client ID is empty"@,
            ValidationError::UnableToParseLatitude => "Unable to parse latitude"@,
            ValidationError::UnableToParseLongitude => "Unable to parse longitude"@,
            ValidationError::InvalidRequestPacket => "Invalid request packet"@,
            ValidationError::InvalidRequestPacketPayloadLength => "Invalid request packet payload length"@,
            ValidationError::InvalidRequestPacketPayload => "Invalid request packet payload"@,
            ValidationError::UnableToParseRequestPayloadLength => "Unable to parse request payload length"@,
            ValidationError::InvalidUserId => "Invalid UserId"@,
            ValidationError::InvalidText => "Invalid text in payload"@,
        }
    }

    /// Renders the human-readable description of this failure.
    pub fn message(&self) -> (r: String)
        ensures
            r@ == self.message_view(),
    {
        match self {
            ValidationError::InvalidLogin => String::from_str("Invalid login attempt"),
            ValidationError::InvalidLoginPayload => String::from_str("Invalid login payload"),
            ValidationError::InvalidClientId => String::from_str("Invalid client ID"),
            ValidationError::InvalidLogoutPayload => String::from_str("Invalid logout payload"),
            ValidationError::InvalidHeartbeatPayload => String::from_str("Invalid heartbeat payload"),
            ValidationError::InvalidCoordinatesPayload => String::from_str("Invalid coordinates payload"),
            ValidationError::InvalidLatitude => String::from_str("Invalid latitude value"),
            ValidationError::InvalidLongitude => String::from_str("Invalid longitude value"),
            ValidationError::ClientIdEmpty => String::from_str("Client ID is empty"),
            ValidationError::UnableToParseLatitude => String::from_str("Unable to parse latitude"),
            ValidationError::UnableToParseLongitude => String::from_str("Unable to parse longitude"),
            ValidationError::InvalidRequestPacket => String::from_str("Invalid request packet"),
            ValidationError::InvalidRequestPacketPayloadLength => String::from_str(
                "Invalid request packet payload length",
            ),
            ValidationError::InvalidRequestPacketPayload => String::from_str(
                "Invalid request packet payload",
            ),
            ValidationError::UnableToParseRequestPayloadLength => String::from_str(
                "Unable to parse request payload length",
            ),
            ValidationError::InvalidUserId => String::from_str("Invalid UserId"),
            ValidationError::InvalidText => String::from_str("Invalid text in payload"),
        }
    }

    /// The Error status code of a response frame, as protocol hex text.
    pub fn to_hex() -> (r: String)
        ensures
            r@ == "07"@,
    {
        String::from_str("07")
    }
}

} // verus!

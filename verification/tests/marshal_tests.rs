use gps_tracker::marshal::{parse_dec_u32, u32_to_dec_string};
use gps_tracker::validation::ValidationError;

#[test]
fn decimal_rendering() {
    assert_eq!(u32_to_dec_string(0), "0");
    assert_eq!(u32_to_dec_string(7), "7");
    assert_eq!(u32_to_dec_string(24564), "24564");
    assert_eq!(u32_to_dec_string(u32::MAX), "4294967295");
}

#[test]
fn decimal_parsing() {
    assert_eq!(parse_dec_u32(b"0"), Some(0));
    assert_eq!(parse_dec_u32(b"24564"), Some(24564));
    assert_eq!(parse_dec_u32(b"0024564"), Some(24564));
    assert_eq!(parse_dec_u32(b"4294967295"), Some(u32::MAX));
    assert_eq!(parse_dec_u32(b"4294967296"), None);
    assert_eq!(parse_dec_u32(b"99999999999999999999"), None);
    assert_eq!(parse_dec_u32(b""), None);
    assert_eq!(parse_dec_u32(b"12a"), None);
    assert_eq!(parse_dec_u32(b"-1"), None);
}

#[test]
fn rendered_identity_parses_back() {
    for n in [0u32, 9, 10, 24564, u32::MAX] {
        let text = u32_to_dec_string(n);
        assert_eq!(parse_dec_u32(text.as_bytes()), Some(n));
    }
}

#[test]
fn error_messages_and_hex_marker() {
    assert_eq!(ValidationError::InvalidLoginPayload.message(), "Invalid login payload");
    assert_eq!(ValidationError::InvalidClientId.message(), "Invalid client ID");
    assert_eq!(ValidationError::InvalidRequestPacket.message(), "Invalid request packet");
    assert_eq!(ValidationError::to_hex(), "07");
}

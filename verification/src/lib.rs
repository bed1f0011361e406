//! Codec and session logic for a minimal UDP position-reporting protocol.
//!
//! Devices report identity, liveness and position to a collector in small
//! binary frames: one kind byte, one reserved byte, one advisory length byte,
//! then a payload whose layout is fixed per kind. The crate holds the frame
//! and payload codecs, the textual spaced-hex form of a frame, the response
//! builder, the server-side dispatch decisions and the client-side session
//! state machine. Transport and persistence stay outside; the functions here
//! compute from plain values to plain values.

pub mod actions;
pub mod dispatcher;
pub mod hex_text;
pub mod marshal;
pub mod payload;
pub mod request;
pub mod response;
pub mod session;
pub mod validation;

pub use request::RequestPacket;
pub use request::RequestType;

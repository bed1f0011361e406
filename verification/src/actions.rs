//! Per-kind payload codecs: one module for each message kind of the protocol.

pub mod coordinates;
pub mod heartbeat;
pub mod login;
pub mod logout;

pub use coordinates::Coordinates;
pub use coordinates::CoordinatesData;
pub use heartbeat::Heartbeat;
pub use login::Login;
pub use logout::Logout;

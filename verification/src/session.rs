//! The client-side session lifecycle: unauthenticated, then authenticated
//! with the identity the collector assigned, then terminated. Transitions run
//! forward only; once terminated, every operation fails fast. Each `_request`
//! method yields the frame text to send; each `_reply` method consumes the
//! status byte and identity bytes of the single reply datagram.
//!
//! The wire has no correlation identifier, so a transport handle must never
//! carry more than one outstanding request; callers that heartbeat and report
//! positions concurrently use one handle per exchange.

use vstd::prelude::*;
use crate::actions::coordinates::{coordinates_frame, Coordinates, CoordinatesData};
use crate::actions::heartbeat::{heartbeat_frame, Heartbeat};
use crate::actions::login::{login_frame, Login};
use crate::actions::logout::{logout_frame, Logout};
use crate::hex_text::hex_text;
use crate::marshal::{all_dec_bytes, dec_value, parse_dec_u32};
use crate::response::ResponseType;

verus! {

#[derive(Debug, Clone, Copy, PartialEq, Eq, Structural)]
pub enum SessionState {
    Unauthenticated,
    Authenticated(u32),
    Terminated,
}

/// A session operation attempted in the wrong state, or a reply that the
/// session cannot accept.
#[derive(Debug, Clone, Copy, PartialEq, Eq, Structural)]
pub enum SessionError {
    /// The session was terminated by a logout; nothing more is allowed.
    SessionClosed,
    /// The operation needs a held identity, and login has not succeeded.
    NotAuthenticated,
    /// A second login was attempted on an authenticated session.
    AlreadyAuthenticated,
    /// The reply carried the Error status.
    RequestFailed,
    /// The reply's identity bytes are not decimal text in 32-bit range.
    InvalidIdentity,
}

/// One device's lifecycle against the collector.
#[derive(Debug, Clone, Copy, PartialEq, Eq, Structural)]
pub struct Session {
    pub state: SessionState,
}

/// Whether a reply's status byte reports failure: only the Error code does;
/// any other value passes.
pub open spec fn status_is_error(status: u8) -> bool {
    status == ResponseType::Error.code()
}

/// Whether identity bytes carry a decimal identity in 32-bit range.
pub open spec fn identity_parses(identity: Seq<u8>) -> bool {
    identity.len() > 0 && all_dec_bytes(identity) && dec_value(identity) <= u32::MAX
}

impl Session {
    /// A fresh, unauthenticated session.
    pub fn new() -> (r: Session)
        ensures
            r.state == SessionState::Unauthenticated,
    {
        Session { state: SessionState::Unauthenticated }
    }

    /// The identity held by an authenticated session.
    pub fn identity(&self) -> (r: Option<u32>)
        ensures
            match self.state {
                SessionState::Authenticated(id) => r == Some(id),
                _ => r is None,
            },
    {
        match self.state {
            SessionState::Authenticated(id) => Some(id),
            _ => None,
        }
    }

    /// The login frame for these credentials; allowed only before any login
    /// has succeeded.
    pub fn login_request(&self, username: &str, password: &str) -> (r: Result<String, SessionError>)
        ensures
            self.state == SessionState::Unauthenticated ==> (r matches Ok(s) && s@ == hex_text(
                login_frame(username@, password@),
            )),
            self.state matches SessionState::Authenticated(_) ==> r == Err::<String, SessionError>(
                SessionError::AlreadyAuthenticated,
            ),
            self.state == SessionState::Terminated ==> r == Err::<String, SessionError>(
                SessionError::SessionClosed,
            ),
    {
        match self.state {
            SessionState::Unauthenticated => {
                match Login::generate_payload(
                    String::from_str(username),
                    String::from_str(password),
                ) {
                    Ok(s) => Ok(s),
                    Err(_) => {
                        proof {
                            assert(false);
                        }
                        Err(SessionError::InvalidIdentity)
                    },
                }
            },
            SessionState::Authenticated(_) => Err(SessionError::AlreadyAuthenticated),
            SessionState::Terminated => Err(SessionError::SessionClosed),
        }
    }

    /// Consumes the login reply. On the Error status the session stays
    /// unauthenticated; otherwise the identity bytes must be decimal text,
    /// and the session holds that identity from here on.
    pub fn login_reply(&mut self, status: u8, identity: &[u8]) -> (r: Result<u32, SessionError>)
        ensures
            old(self).state matches SessionState::Authenticated(_) ==> r == Err::<u32, SessionError>(
                SessionError::AlreadyAuthenticated,
            ) && *final(self) == *old(self),
            old(self).state == SessionState::Terminated ==> r == Err::<u32, SessionError>(
                SessionError::SessionClosed,
            ) && *final(self) == *old(self),
            old(self).state == SessionState::Unauthenticated && status_is_error(status) ==> r
                == Err::<u32, SessionError>(SessionError::RequestFailed) && *final(self) == *old(self),
            old(self).state == SessionState::Unauthenticated && !status_is_error(status)
                && identity_parses(identity@) ==> r == Ok::<u32, SessionError>(
                dec_value(identity@) as u32,
            ) && final(self).state == SessionState::Authenticated(dec_value(identity@) as u32),
            old(self).state == SessionState::Unauthenticated && !status_is_error(status)
                && !identity_parses(identity@) ==> r == Err::<u32, SessionError>(
                SessionError::InvalidIdentity,
            ) && *final(self) == *old(self),
    {
        match self.state {
            SessionState::Unauthenticated => {
                if status == ResponseType::Error.to_value() {
                    return Err(SessionError::RequestFailed);
                }
                match parse_dec_u32(identity) {
                    Some(id) => {
                        self.state = SessionState::Authenticated(id);
                        Ok(id)
                    },
                    None => Err(SessionError::InvalidIdentity),
                }
            },
            SessionState::Authenticated(_) => Err(SessionError::AlreadyAuthenticated),
            SessionState::Terminated => Err(SessionError::SessionClosed),
        }
    }

    /// The heartbeat frame carrying the held identity; allowed only while
    /// authenticated.
    pub fn heartbeat_request(&self) -> (r: Result<String, SessionError>)
        ensures
            self.state matches SessionState::Authenticated(id) ==> (r matches Ok(s) && s@
                == hex_text(heartbeat_frame(id))),
            self.state == SessionState::Unauthenticated ==> r == Err::<String, SessionError>(
                SessionError::NotAuthenticated,
            ),
            self.state == SessionState::Terminated ==> r == Err::<String, SessionError>(
                SessionError::SessionClosed,
            ),
    {
        match self.state {
            SessionState::Authenticated(id) => {
                match Heartbeat::generate_payload(id) {
                    Ok(s) => Ok(s),
                    Err(_) => {
                        proof {
                            assert(false);
                        }
                        Err(SessionError::InvalidIdentity)
                    },
                }
            },
            SessionState::Unauthenticated => Err(SessionError::NotAuthenticated),
            SessionState::Terminated => Err(SessionError::SessionClosed),
        }
    }

    /// Consumes a heartbeat reply: on a passing status with decimal identity
    /// bytes the held identity is refreshed from the reply.
    pub fn heartbeat_reply(&mut self, status: u8, identity: &[u8]) -> (r: Result<u32, SessionError>)
        ensures
            old(self).state == SessionState::Unauthenticated ==> r == Err::<u32, SessionError>(
                SessionError::NotAuthenticated,
            ) && *final(self) == *old(self),
            old(self).state == SessionState::Terminated ==> r == Err::<u32, SessionError>(
                SessionError::SessionClosed,
            ) && *final(self) == *old(self),
            old(self).state matches SessionState::Authenticated(_) && status_is_error(status) ==> r
                == Err::<u32, SessionError>(SessionError::RequestFailed) && *final(self) == *old(self),
            old(self).state matches SessionState::Authenticated(_) && !status_is_error(status)
                && identity_parses(identity@) ==> r == Ok::<u32, SessionError>(
                dec_value(identity@) as u32,
            ) && final(self).state == SessionState::Authenticated(dec_value(identity@) as u32),
            old(self).state matches SessionState::Authenticated(_) && !status_is_error(status)
                && !identity_parses(identity@) ==> r == Err::<u32, SessionError>(
                SessionError::InvalidIdentity,
            ) && *final(self) == *old(self),
    {
        match self.state {
            SessionState::Authenticated(_) => {
                if status == ResponseType::Error.to_value() {
                    return Err(SessionError::RequestFailed);
                }
                match parse_dec_u32(identity) {
                    Some(id) => {
                        self.state = SessionState::Authenticated(id);
                        Ok(id)
                    },
                    None => Err(SessionError::InvalidIdentity),
                }
            },
            SessionState::Unauthenticated => Err(SessionError::NotAuthenticated),
            SessionState::Terminated => Err(SessionError::SessionClosed),
        }
    }

    /// The coordinates frame for one sample, carrying the held identity and
    /// the two IEEE-754 double bit patterns; allowed only while authenticated.
    pub fn coordinates_request(&self, latitude_bits: u64, longitude_bits: u64) -> (r: Result<
        String,
        SessionError,
    >)
        ensures
            self.state matches SessionState::Authenticated(id) ==> (r matches Ok(s) && s@
                == hex_text(
                coordinates_frame(
                    CoordinatesData { client_id: id, latitude_bits, longitude_bits },
                ),
            )),
            self.state == SessionState::Unauthenticated ==> r == Err::<String, SessionError>(
                SessionError::NotAuthenticated,
            ),
            self.state == SessionState::Terminated ==> r == Err::<String, SessionError>(
                SessionError::SessionClosed,
            ),
    {
        match self.state {
            SessionState::Authenticated(id) => {
                match Coordinates::generate_payload(id, latitude_bits, longitude_bits) {
                    Ok(s) => Ok(s),
                    Err(_) => {
                        proof {
                            assert(false);
                        }
                        Err(SessionError::InvalidIdentity)
                    },
                }
            },
            SessionState::Unauthenticated => Err(SessionError::NotAuthenticated),
            SessionState::Terminated => Err(SessionError::SessionClosed),
        }
    }

    /// The logout frame carrying the held identity; allowed only while
    /// authenticated.
    pub fn logout_request(&self) -> (r: Result<String, SessionError>)
        ensures
            self.state matches SessionState::Authenticated(id) ==> (r matches Ok(s) && s@
                == hex_text(logout_frame(id))),
            self.state == SessionState::Unauthenticated ==> r == Err::<String, SessionError>(
                SessionError::NotAuthenticated,
            ),
            self.state == SessionState::Terminated ==> r == Err::<String, SessionError>(
                SessionError::SessionClosed,
            ),
    {
        match self.state {
            SessionState::Authenticated(id) => {
                match Logout::generate_payload(id) {
                    Ok(s) => Ok(s),
                    Err(_) => {
                        proof {
                            assert(false);
                        }
                        Err(SessionError::InvalidIdentity)
                    },
                }
            },
            SessionState::Unauthenticated => Err(SessionError::NotAuthenticated),
            SessionState::Terminated => Err(SessionError::SessionClosed),
        }
    }

    /// Closes the session once the logout exchange ends. The close is
    /// unconditional: whatever status the reply carried, and even when no
    /// reply arrived, the session is terminated for good.
    pub fn logout_complete(&mut self) -> (r: Result<(), SessionError>)
        ensures
            old(self).state matches SessionState::Authenticated(_) ==> r == Ok::<(), SessionError>(
                (),
            ) && final(self).state == SessionState::Terminated,
            old(self).state == SessionState::Unauthenticated ==> r == Err::<(), SessionError>(
                SessionError::NotAuthenticated,
            ) && *final(self) == *old(self),
            old(self).state == SessionState::Terminated ==> r == Err::<(), SessionError>(
                SessionError::SessionClosed,
            ) && *final(self) == *old(self),
    {
        match self.state {
            SessionState::Authenticated(_) => {
                self.state = SessionState::Terminated;
                Ok(())
            },
            SessionState::Unauthenticated => Err(SessionError::NotAuthenticated),
            SessionState::Terminated => Err(SessionError::SessionClosed),
        }
    }
}

} // verus!

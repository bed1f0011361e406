//! The Login message: the username's bytes, one zero separator byte, then the
//! password's bytes. The decoder splits at the first zero byte; both halves
//! must be valid text.
//!
//! Frame layout, as spaced hex text: `01 00 14 <username> 00 <password>`, for
//! example `01 00 14 72 6F 6F 74 00 ...` for username `root`.

use vstd::prelude::*;
use vstd::slice::{slice_subrange, slice_to_vec};
use vstd::utf8::{decode_utf8, valid_utf8};
use crate::hex_text::{hex_text, render_hex_text};
use crate::request::RequestType;
use crate::response::ResponseType;
use crate::validation::ValidationError;

verus! {

/// The credentials carried by a login request.
#[derive(Debug)]
pub struct Login {
    pub username: String,
    pub password: String,
}

/// The full wire frame of a login for one pair of credentials.
pub open spec fn login_frame(username: Seq<char>, password: Seq<char>) -> Seq<u8> {
    seq![1u8, 0u8, 0x14u8] + vstd::utf8::encode_utf8(username) + seq![0u8] + vstd::utf8::encode_utf8(
        password,
    )
}

/// The index of the first zero byte, or the length when there is none.
pub open spec fn first_zero_at(s: Seq<u8>) -> int
    decreases s.len(),
{
    if s.len() == 0 {
        0
    } else if s[0] == 0 {
        0
    } else {
        1 + first_zero_at(s.drop_first())
    }
}

/// The first zero byte is at the position where a left-to-right scan stops.
pub proof fn lemma_first_zero_at(s: Seq<u8>, z: int)
    requires
        0 <= z <= s.len(),
        forall|k: int| 0 <= k < z ==> s[k] != 0,
        z == s.len() || s[z] == 0,
    ensures
        first_zero_at(s) == z,
    decreases z,
{
    if z == 0 {
    } else {
        lemma_first_zero_at(s.drop_first(), z - 1);
    }
}

/// What decoding a login payload yields: the payload must reach the declared
/// length and hold a zero separator; the bytes before the first zero are the
/// username and the bytes after it are the password, both decoded as text.
pub open spec fn spec_parse_login(payload_length: int, data: Seq<u8>) -> Result<
    (Seq<char>, Seq<char>),
    ValidationError,
> {
    if data.len() < payload_length {
        Err(ValidationError::InvalidLoginPayload)
    } else if first_zero_at(data) == data.len() {
        Err(ValidationError::InvalidLoginPayload)
    } else {
        let z = first_zero_at(data);
        let u = data.take(z);
        let p = data.skip(z + 1);
        if valid_utf8(u) && valid_utf8(p) {
            Ok((decode_utf8(u), decode_utf8(p)))
        } else {
            Err(ValidationError::InvalidText)
        }
    }
}

/// Relies on String::from_utf8 of std: it succeeds exactly on valid UTF-8
/// and returns the text those bytes encode.
#[verifier::external_body]
fn bytes_to_text(v: Vec<u8>) -> (r: Option<String>)
    ensures
        r is Some <==> valid_utf8(v@),
        r matches Some(s) ==> s@ == decode_utf8(v@),
{
    match String::from_utf8(v) {
        Ok(s) => Some(s),
        Err(_) => None,
    }
}

impl Login {
    /// Renders the login frame for a pair of credentials as spaced hex text.
    pub fn generate_payload(username: String, password: String) -> (r: Result<String, String>)
        ensures
            r matches Ok(s) && s@ == hex_text(login_frame(username@, password@)),
    {
        let mut frame: Vec<u8> = Vec::new();
        frame.push(RequestType::Login.to_value());
        frame.push(0);
        frame.push(RequestType::Login.get_length());
        let mut uname_bytes: Vec<u8> = username.as_str().as_bytes_vec();
        frame.append(&mut uname_bytes);
        frame.push(0);
        let mut pass_bytes: Vec<u8> = password.as_str().as_bytes_vec();
        frame.append(&mut pass_bytes);
        proof {
            assert(frame@ =~= login_frame(username@, password@));
        }
        Ok(render_hex_text(frame.as_slice()))
    }

    /// Decodes the credentials from a login payload.
    pub fn parse(payload_length: usize, credentials: &[u8]) -> (r: Result<Login, ValidationError>)
        ensures
            r matches Ok(l) ==> spec_parse_login(payload_length as int, credentials@) matches Ok(t)
                && l.username@ == t.0 && l.password@ == t.1,
            r matches Err(e) ==> spec_parse_login(payload_length as int, credentials@) matches Err(
                e2,
            ) && e == e2,
    {
        let len: usize = credentials.len();
        if len < payload_length {
            return Err(ValidationError::InvalidLoginPayload);
        }
        let mut z: usize = 0;
        while z < len && credentials[z] != 0
            invariant
                0 <= z <= len == credentials@.len(),
                forall|k: int| 0 <= k < z ==> credentials@[k] != 0,
            decreases len - z,
        {
            z = z + 1;
        }
        proof {
            lemma_first_zero_at(credentials@, z as int);
        }
        if z == len {
            return Err(ValidationError::InvalidLoginPayload);
        }
        let uname_bytes: Vec<u8> = slice_to_vec(slice_subrange(credentials, 0, z));
        let pass_bytes: Vec<u8> = slice_to_vec(slice_subrange(credentials, z + 1, len));
        proof {
            assert(uname_bytes@ =~= credentials@.take(z as int));
            assert(pass_bytes@ =~= credentials@.skip(z as int + 1));
        }
        let username: String = match bytes_to_text(uname_bytes) {
            Some(u) => u,
            None => {
                return Err(ValidationError::InvalidText);
            },
        };
        let password: String = match bytes_to_text(pass_bytes) {
            Some(p) => p,
            None => {
                return Err(ValidationError::InvalidText);
            },
        };
        Ok(Login { username, password })
    }

    /// Renders the login response frame: kind byte, status byte, then the
    /// identity text as bytes, as spaced hex text.
    pub fn generate_response(client_id: String, is_error: bool) -> (r: Result<String, String>)
        ensures
            r matches Ok(s) && s@ == hex_text(login_response_frame(client_id@, is_error)),
    {
        let mut frame: Vec<u8> = Vec::new();
        frame.push(RequestType::Login.to_value());
        let status = if is_error {
            ResponseType::Error
        } else {
            ResponseType::Success
        };
        frame.push(status.to_value());
        let mut id_bytes: Vec<u8> = client_id.as_str().as_bytes_vec();
        frame.append(&mut id_bytes);
        proof {
            assert(frame@ =~= login_response_frame(client_id@, is_error));
        }
        Ok(render_hex_text(frame.as_slice()))
    }
}

/// The response frame for a login: the kind byte, the status byte, then the
/// identity text verbatim as bytes.
pub open spec fn login_response_frame(client_id: Seq<char>, is_error: bool) -> Seq<u8> {
    seq![
        RequestType::Login.code(),
        (if is_error {
            ResponseType::Error
        } else {
            ResponseType::Success
        }).code(),
    ] + vstd::utf8::encode_utf8(client_id)
}

} // verus!

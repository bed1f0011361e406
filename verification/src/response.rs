//! Status codes carried in the second byte of every response frame.

use vstd::prelude::*;

verus! {

#[derive(Debug, Clone, Copy, PartialEq, Eq, Structural)]
pub enum ResponseType {
    Success,
    Error,
}

impl ResponseType {
    /// The wire code of this status.
    pub open spec fn code(self) -> u8 {
        match self {
            ResponseType::Success => 0x06,
            ResponseType::Error => 0x07,
        }
    }

    pub fn to_value(self) -> (r: u8)
        ensures
            r == self.code(),
    {
        match self {
            ResponseType::Success => 0x06,
            ResponseType::Error => 0x07,
        }
    }
}

} // verus!

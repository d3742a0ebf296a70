//! The error of a refused handshake.

use vstd::prelude::*;
use vstd::string::*;

verus! {

/// The peer did not pass the handshake.
#[derive(Debug)]
pub struct ErrInvalidHandshake;

impl ErrInvalidHandshake {
    /// The text shown for this error.
    pub fn to_string(&self) -> (text: String)
        ensures
            text@ == "Invalid Handshake"@,
    {
        String::from_str("Invalid Handshake")
    }
}

} // verus!

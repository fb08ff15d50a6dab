//! The ways a command line can fail to encode.

use vstd::prelude::*;

verus! {

/// Why a `write` command line could not be turned into a frame.
#[derive(Clone, Copy, Debug, PartialEq, Eq, Structural)]
pub enum EncodeError {
    /// The line does not split into exactly 4 whitespace-delimited tokens.
    MalformedCommand,
    /// A numeric token is out of range or not a number at all.
    InvalidField,
    /// The value needs more than the 7 payload bytes a frame offers.
    PayloadTooLarge,
}

impl EncodeError {
    /// A short operator-facing description of the failure.
    pub fn message(&self) -> (m: &'static str)
        ensures
            self is MalformedCommand ==> m@ == "Invalid command format"@,
            self is InvalidField ==> m@ == "Invalid node_id, param_index, or param_value"@,
            self is PayloadTooLarge ==> m@ == "Payload exceeds maximum length of 7 bytes"@,
    {
        match self {
            EncodeError::MalformedCommand => "Invalid command format",
            EncodeError::InvalidField => "Invalid node_id, param_index, or param_value",
            EncodeError::PayloadTooLarge => "Payload exceeds maximum length of 7 bytes",
        }
    }
}

} // verus!

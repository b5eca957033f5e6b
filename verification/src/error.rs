//! Errors for CAP operation encoding and decoding.

use crate::text::{push_signed, signed_decimal};
use vstd::prelude::*;
use vstd::string::*;

verus! {

/// An error encoding or decoding a CAP operation.
#[derive(Debug)]
pub enum CapError {
    /// BER encoding failed.
    Encode(String),
    /// BER decoding failed.
    Decode(String),
    /// The operation code is not a known CAP operation.
    UnknownOperation(i64),
}

impl CapError {
    /// The error as a sentence: what failed, then its detail.
    pub open spec fn spec_message(&self) -> Seq<char> {
        match self {
            CapError::Encode(m) => "CAP encode error: "@ + m@,
            CapError::Decode(m) => "CAP decode error: "@ + m@,
            CapError::UnknownOperation(code) => "unknown CAP operation code: "@ + signed_decimal(
                *code as int,
            ),
        }
    }

    /// The error as a sentence: what failed, then its detail.
    pub fn message(&self) -> (r: String)
        ensures
            r@ == self.spec_message(),
    {
        match self {
            CapError::Encode(m) => {
                let mut s = String::new();
                s.append("CAP encode error: ");
                s.append(m.as_str());
                s
            },
            CapError::Decode(m) => {
                let mut s = String::new();
                s.append("CAP decode error: ");
                s.append(m.as_str());
                s
            },
            CapError::UnknownOperation(code) => {
                let mut s = String::new();
                s.append("unknown CAP operation code: ");
                push_signed(&mut s, *code);
                s
            },
        }
    }
}

} // verus!

//! The error taxonomy of the signaling core.

use vstd::prelude::*;
use vstd::string::StringExecFns;

verus! {

/// Everything that can go wrong while handling a signaling frame.
#[derive(Debug, PartialEq, Eq, Clone)]
pub enum SignalingError {
    /// Malformed frame or message bytes.
    Decode(String),
    /// Authenticated decryption failed.
    Decrypt,
    /// An incoming nonce failed validation; the session should be closed.
    InvalidNonce(String),
    /// A structurally valid message was semantically rejected.
    InvalidMessage(String),
    /// The message is not permitted in the current state.
    InvalidStateTransition(String),
    /// A protocol rule was broken by the peer.
    Protocol(String),
    /// Both counters of a combined sequence number are saturated.
    CsnOverflow,
    /// An internal invariant was broken; should be unreachable.
    Crash(String),
}

pub type SignalingResult<T> = Result<T, SignalingError>;

/// The human-readable description of an error.
pub open spec fn spec_error_string(e: SignalingError) -> Seq<char> {
    match e {
        SignalingError::Decode(s) => "decoding error: "@ + s@,
        SignalingError::Decrypt => "decrypting error"@,
        SignalingError::InvalidNonce(s) => "invalid nonce: "@ + s@,
        SignalingError::InvalidMessage(s) => "invalid message: "@ + s@,
        SignalingError::InvalidStateTransition(s) => "invalid state transition: "@ + s@,
        SignalingError::Protocol(s) => "protocol error: "@ + s@,
        SignalingError::CsnOverflow => "csn overflow"@,
        SignalingError::Crash(s) => "crash: "@ + s@,
    }
}

impl SignalingError {
    /// The human-readable description of the error.
    pub fn to_string(&self) -> (r: String)
        ensures
            r@ == spec_error_string(*self),
    {
        match self {
            SignalingError::Decode(s) => String::from_str("decoding error: ").concat(s.as_str()),
            SignalingError::Decrypt => String::from_str("decrypting error"),
            SignalingError::InvalidNonce(s) => String::from_str("invalid nonce: ").concat(
                s.as_str(),
            ),
            SignalingError::InvalidMessage(s) => String::from_str("invalid message: ").concat(
                s.as_str(),
            ),
            SignalingError::InvalidStateTransition(s) => String::from_str(
                "invalid state transition: ",
            ).concat(s.as_str()),
            SignalingError::Protocol(s) => String::from_str("protocol error: ").concat(s.as_str()),
            SignalingError::CsnOverflow => String::from_str("csn overflow"),
            SignalingError::Crash(s) => String::from_str("crash: ").concat(s.as_str()),
        }
    }
}

} // verus!

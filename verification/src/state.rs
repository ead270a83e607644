//! The states of the signaling machine.

use vstd::prelude::*;

verus! {

/// The overall signaling state. It moves forward only: from the server
/// handshake to the peer handshake, and from there to the task phase.
#[derive(Debug, PartialEq, Eq, Copy, Clone, Structural)]
pub enum SignalingState {
    /// Setting up the connection with the server.
    ServerHandshake,
    /// Negotiating keys with the peer.
    PeerHandshake,
    /// The handshake is done; task messages flow.
    Task,
}

/// The server handshake states. `ClientInfoSent` is reached once the
/// client-hello (responder only) and client-auth messages went out; `Done`
/// once server-auth was accepted. `Failure` is terminal.
#[derive(Debug, PartialEq, Eq, Clone)]
pub enum ServerHandshakeState {
    /// Initial state.
    New,
    /// The client-hello (responder only) and client-auth messages have been
    /// sent.
    ClientInfoSent,
    /// The server-auth message has been received and processed.
    Done,
    /// Something went wrong. This is a terminal state.
    Failure(String),
}

/// The initiator handshake states, as tracked by a responder.
#[derive(Debug, PartialEq, Eq, Copy, Clone, Structural)]
pub enum InitiatorHandshakeState {
    /// Initial state.
    New,
    /// Our token (if any) and key messages have been sent.
    KeySent,
}

/// The responder handshake states, as tracked by an initiator.
#[derive(Debug, PartialEq, Eq, Copy, Clone, Structural)]
pub enum ResponderHandshakeState {
    /// Initial state.
    New,
    /// The responder's token message has been received.
    TokenReceived,
    /// The responder's key message has been received.
    KeyReceived,
    /// The responder's auth message has been received.
    AuthReceived,
}

impl ServerHandshakeState {
    /// An owned copy of the state.
    pub fn duplicate(&self) -> (r: Self)
        ensures
            r == *self,
    {
        match self {
            ServerHandshakeState::New => ServerHandshakeState::New,
            ServerHandshakeState::ClientInfoSent => ServerHandshakeState::ClientInfoSent,
            ServerHandshakeState::Done => ServerHandshakeState::Done,
            ServerHandshakeState::Failure(s) => ServerHandshakeState::Failure(s.clone()),
        }
    }
}

} // verus!

//! Per-peer context: the cookie pair, the combined sequence number pair,
//! the handshake sub-state and the keys known for that peer.

use vstd::prelude::*;

use crate::cookie::CookiePair;
use crate::crypto::PublicKey;
use crate::csn::CsnPair;
use crate::state::{InitiatorHandshakeState, ResponderHandshakeState, ServerHandshakeState};
use crate::types::{Address, Identity};

verus! {

/// The cookie discipline every peer context keeps: once the peer's cookie
/// is known, it differs from our own.
pub open spec fn wf_cookie_pair(pair: CookiePair) -> bool {
    pair.theirs matches Some(t) ==> t@ != pair.ours@
}

/// The context of the server peer.
#[derive(Debug)]
pub struct ServerContext {
    /// The server's permanent public key, learned from server-hello.
    pub permanent_key: Option<PublicKey>,
    /// The server's session public key, unused during this handshake.
    pub session_key: Option<PublicKey>,
    /// Our cookie for the server and the server's cookie.
    pub cookie_pair: CookiePair,
    /// Our counter towards the server and the server's last counter.
    pub csn_pair: CsnPair,
    /// Where the server handshake stands.
    pub handshake_state: ServerHandshakeState,
}

impl ServerContext {
    pub fn new() -> (r: Self)
        ensures
            r.permanent_key is None,
            r.session_key is None,
            r.cookie_pair.theirs is None,
            r.csn_pair.ours.value() == 0,
            r.csn_pair.theirs is None,
            r.handshake_state == ServerHandshakeState::New,
            wf_cookie_pair(r.cookie_pair),
    {
        ServerContext {
            permanent_key: None,
            session_key: None,
            cookie_pair: CookiePair::new(),
            csn_pair: CsnPair::new(),
            handshake_state: ServerHandshakeState::New,
        }
    }

    /// The peer identity of this context: the server.
    pub fn identity(&self) -> (r: Identity)
        ensures
            r == Identity::Server,
    {
        Identity::Server
    }

    /// Where the server handshake stands.
    pub fn handshake_state(&self) -> (r: ServerHandshakeState)
        ensures
            r == self.handshake_state,
    {
        self.handshake_state.duplicate()
    }

    /// Move the server handshake to a new state.
    pub fn set_handshake_state(&mut self, state: ServerHandshakeState)
        ensures
            *final(self) == (ServerContext { handshake_state: state, ..*old(self) }),
    {
        self.handshake_state = state;
    }

    /// The server's permanent public key, if known.
    pub fn permanent_key(&self) -> (r: Option<&PublicKey>)
        ensures
            match r {
                Some(k) => self.permanent_key matches Some(k2) && *k == k2,
                None => self.permanent_key is None,
            },
    {
        self.permanent_key.as_ref()
    }

    /// The server's session public key, if known.
    pub fn session_key(&self) -> (r: Option<&PublicKey>)
        ensures
            match r {
                Some(k) => self.session_key matches Some(k2) && *k == k2,
                None => self.session_key is None,
            },
    {
        self.session_key.as_ref()
    }
}

/// The context an initiator keeps for one responder.
#[derive(Debug)]
pub struct ResponderContext {
    /// The responder's address on the path.
    pub address: Address,
    /// Where the handshake with this responder stands.
    pub handshake_state: ResponderHandshakeState,
    /// Our cookie for this responder and the responder's cookie.
    pub cookie_pair: CookiePair,
    /// Our counter towards this responder and its last counter.
    pub csn_pair: CsnPair,
    /// The responder's permanent public key, once learned.
    pub permanent_key: Option<PublicKey>,
    /// The responder's session public key, once learned.
    pub session_key: Option<PublicKey>,
}

impl ResponderContext {
    /// A fresh context: fresh cookie, our counter at zero, nothing learned
    /// from the responder yet.
    pub fn new(address: Address) -> (r: Self)
        ensures
            r.address == address,
            r.handshake_state == ResponderHandshakeState::New,
            r.cookie_pair.theirs is None,
            r.csn_pair.ours.value() == 0,
            r.csn_pair.theirs is None,
            r.permanent_key is None,
            r.session_key is None,
            wf_cookie_pair(r.cookie_pair),
    {
        ResponderContext {
            address,
            handshake_state: ResponderHandshakeState::New,
            cookie_pair: CookiePair::new(),
            csn_pair: CsnPair::new(),
            permanent_key: None,
            session_key: None,
        }
    }

    /// The peer identity of this context.
    pub fn identity(&self) -> (r: Identity)
        ensures
            r == crate::types::spec_address_identity(self.address),
    {
        Identity::from(self.address)
    }
}

/// The context a responder keeps for the initiator.
#[derive(Debug)]
pub struct InitiatorContext {
    /// The initiator's permanent public key, known from the start.
    pub permanent_key: PublicKey,
    /// The initiator's session public key, once learned.
    pub session_key: Option<PublicKey>,
    /// Where the handshake with the initiator stands.
    pub handshake_state: InitiatorHandshakeState,
    /// Our cookie for the initiator and the initiator's cookie.
    pub cookie_pair: CookiePair,
    /// Our counter towards the initiator and its last counter.
    pub csn_pair: CsnPair,
}

impl InitiatorContext {
    pub fn new(permanent_key: PublicKey) -> (r: Self)
        ensures
            r.permanent_key == permanent_key,
            r.session_key is None,
            r.handshake_state == InitiatorHandshakeState::New,
            r.cookie_pair.theirs is None,
            r.csn_pair.ours.value() == 0,
            r.csn_pair.theirs is None,
            wf_cookie_pair(r.cookie_pair),
    {
        InitiatorContext {
            permanent_key,
            session_key: None,
            handshake_state: InitiatorHandshakeState::New,
            cookie_pair: CookiePair::new(),
            csn_pair: CsnPair::new(),
        }
    }

    /// The peer identity of this context: the initiator.
    pub fn identity(&self) -> (r: Identity)
        ensures
            r == Identity::Initiator,
    {
        Identity::Initiator
    }
}

} // verus!

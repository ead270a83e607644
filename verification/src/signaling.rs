//! The signaling state machine: validates incoming nonces, drives the
//! server handshake for both roles, and returns outbound frames as values.

use vstd::prelude::*;
use vstd::string::StringExecFns;

use crate::boxes::{ByteBox, OpenBox};
use crate::context::{wf_cookie_pair, InitiatorContext, ResponderContext, ServerContext};
use crate::cookie::Cookie;
use crate::crypto::{AuthToken, KeyStore, PublicKey};
use crate::errors::{SignalingError, SignalingResult};
use crate::messages::{
    spec_decode, spec_encode, wf_msg, ClientAuth, ClientHello, DecodeOutcome, Key, Message,
    MessageV, NewResponder, ServerAuth, ServerHello, Token,
};
use crate::nonce::{spec_nonce_bytes, Nonce};
use crate::state::{
    InitiatorHandshakeState, ResponderHandshakeState, ServerHandshakeState, SignalingState,
};
use crate::types::{
    spec_address_identity, spec_address_string, spec_client_identity_address,
    spec_client_identity_string, spec_identity_string, spec_role_string, Address, ClientIdentity,
    HandleAction, Identity, Role,
};

verus! {

broadcast use crate::cookie::lemma_cookie_len, crate::crypto::lemma_public_key_len;

/// The subprotocol this client announces in its client-auth message.
pub open spec fn spec_subprotocol() -> Seq<u8> {
    // "v1.saltyrtc.org"
    seq![
        0x76u8, 0x31, 0x2e, 0x73, 0x61, 0x6c, 0x74, 0x79, 0x72, 0x74, 0x63, 0x2e, 0x6f, 0x72,
        0x67,
    ]
}

/// The subprotocol name as bytes.
pub fn subprotocol_bytes() -> (r: Vec<u8>)
    ensures
        r@ == spec_subprotocol(),
{
    let mut v: Vec<u8> = Vec::new();
    v.push(0x76);
    v.push(0x31);
    v.push(0x2e);
    v.push(0x73);
    v.push(0x61);
    v.push(0x6c);
    v.push(0x74);
    v.push(0x79);
    v.push(0x72);
    v.push(0x74);
    v.push(0x63);
    v.push(0x2e);
    v.push(0x6f);
    v.push(0x72);
    v.push(0x67);
    proof {
        assert(v@ =~= spec_subprotocol());
    }
    v
}

/// Result of the nonce validation.
#[derive(Debug, PartialEq)]
pub enum ValidationResult {
    /// The nonce is acceptable; the peer state has been updated.
    Valid,
    /// The frame is silently discarded.
    DropMsg(String),
    /// The nonce is invalid; the signaling session must be failed.
    Fail(String),
}

/// Signaling data for the initiator role.
#[derive(Debug)]
pub struct InitiatorSignaling {
    /// The signaling state.
    pub signaling_state: SignalingState,
    /// Our permanent keypair.
    pub permanent_key: KeyStore,
    /// The auth token handed out-of-band to the responder.
    pub auth_token: Option<AuthToken>,
    /// The assigned client identity.
    pub identity: ClientIdentity,
    /// The server context.
    pub server: ServerContext,
    /// One context per responder on the path, addresses pairwise distinct.
    pub responders: Vec<ResponderContext>,
    /// The chosen responder, once one is selected.
    pub responder: Option<ResponderContext>,
}

/// Signaling data for the responder role.
#[derive(Debug)]
pub struct ResponderSignaling {
    /// The signaling state.
    pub signaling_state: SignalingState,
    /// Our permanent keypair.
    pub permanent_key: KeyStore,
    /// Our session keypair, generated when the initiator is connected.
    pub session_key: Option<KeyStore>,
    /// The auth token received out-of-band from the initiator.
    pub auth_token: Option<AuthToken>,
    /// The assigned client identity.
    pub identity: ClientIdentity,
    /// The server context.
    pub server: ServerContext,
    /// The initiator context.
    pub initiator: InitiatorContext,
}

/// The signaling implementation: role-specific data behind a common
/// interface.
#[derive(Debug)]
pub enum Signaling {
    Initiator(InitiatorSignaling),
    Responder(ResponderSignaling),
}

/// Responder contexts are well-formed: addresses pairwise distinct and in
/// the responder range, every known peer cookie distinct from ours.
pub open spec fn wf_responders(rs: Seq<ResponderContext>) -> bool {
    &&& (forall|i: int, j: int|
        0 <= i < j < rs.len() ==> #[trigger] rs[i].address != #[trigger] rs[j].address)
    &&& (forall|i: int|
        0 <= i < rs.len() ==> (#[trigger] rs[i].address).0 >= 2 && wf_cookie_pair(
            rs[i].cookie_pair,
        ))
}

impl Signaling {
    /// Our role.
    pub open spec fn spec_role(self) -> Role {
        match self {
            Signaling::Initiator(_) => Role::Initiator,
            Signaling::Responder(_) => Role::Responder,
        }
    }

    /// The signaling state.
    pub open spec fn spec_state(self) -> SignalingState {
        match self {
            Signaling::Initiator(s) => s.signaling_state,
            Signaling::Responder(s) => s.signaling_state,
        }
    }

    /// Our assigned client identity.
    pub open spec fn spec_identity(self) -> ClientIdentity {
        match self {
            Signaling::Initiator(s) => s.identity,
            Signaling::Responder(s) => s.identity,
        }
    }

    /// Our permanent keypair.
    pub open spec fn spec_permanent_key(self) -> KeyStore {
        match self {
            Signaling::Initiator(s) => s.permanent_key,
            Signaling::Responder(s) => s.permanent_key,
        }
    }

    /// Our auth token.
    pub open spec fn spec_auth_token(self) -> Option<AuthToken> {
        match self {
            Signaling::Initiator(s) => s.auth_token,
            Signaling::Responder(s) => s.auth_token,
        }
    }

    /// The server context.
    pub open spec fn spec_server(self) -> ServerContext {
        match self {
            Signaling::Initiator(s) => s.server,
            Signaling::Responder(s) => s.server,
        }
    }

    /// The responder contexts (empty for a responder role).
    pub open spec fn spec_responders(self) -> Seq<ResponderContext> {
        match self {
            Signaling::Initiator(s) => s.responders@,
            Signaling::Responder(_) => Seq::empty(),
        }
    }

    /// The well-formedness every signaling value keeps: the identity fits
    /// the role, every known peer cookie differs from ours, the keypair is
    /// consistent, and the task phase is never entered by this core.
    pub open spec fn wf(self) -> bool {
        &&& (match self.spec_identity() {
            ClientIdentity::Unknown => true,
            ClientIdentity::Initiator => self.spec_role() == Role::Initiator,
            ClientIdentity::Responder(a) => self.spec_role() == Role::Responder && a >= 2,
        })
        &&& wf_cookie_pair(self.spec_server().cookie_pair)
        &&& self.spec_permanent_key().wf()
        &&& self.spec_state() != SignalingState::Task
        &&& (match self {
            Signaling::Initiator(s) => wf_responders(s.responders@),
            Signaling::Responder(s) => {
                &&& wf_cookie_pair(s.initiator.cookie_pair)
                &&& (s.session_key matches Some(k) ==> k.wf())
            },
        })
    }

    /// Create a new initiator signaling instance: identity unknown, a fresh
    /// auth token, a fresh server context, no responders yet.
    pub fn new_initiator(permanent_key: KeyStore) -> (r: Self)
        requires
            permanent_key.wf(),
        ensures
            r.wf(),
            r.spec_role() == Role::Initiator,
            r.spec_state() == SignalingState::ServerHandshake,
            r.spec_identity() == ClientIdentity::Unknown,
            r.spec_permanent_key() == permanent_key,
            r.spec_auth_token() is Some,
            r.spec_server().handshake_state == ServerHandshakeState::New,
            r.spec_server().permanent_key is None,
            r.spec_server().cookie_pair.theirs is None,
            r.spec_server().csn_pair.theirs is None,
            r.spec_server().csn_pair.ours.value() == 0,
            r.spec_responders().len() == 0,
            r matches Signaling::Initiator(s) && s.responder is None,
    {
        Signaling::Initiator(
            InitiatorSignaling {
                signaling_state: SignalingState::ServerHandshake,
                permanent_key,
                auth_token: Some(AuthToken::new()),
                identity: ClientIdentity::Unknown,
                server: ServerContext::new(),
                responders: Vec::new(),
                responder: None,
            },
        )
    }

    /// Create a new responder signaling instance: identity unknown, the
    /// initiator's permanent key and the optional auth token injected.
    pub fn new_responder(permanent_key: KeyStore, initiator_pubkey: PublicKey,
        auth_token: Option<AuthToken>) -> (r: Self)
        requires
            permanent_key.wf(),
        ensures
            r.wf(),
            r.spec_role() == Role::Responder,
            r.spec_state() == SignalingState::ServerHandshake,
            r.spec_identity() == ClientIdentity::Unknown,
            r.spec_permanent_key() == permanent_key,
            r.spec_auth_token() == auth_token,
            r.spec_server().handshake_state == ServerHandshakeState::New,
            r.spec_server().permanent_key is None,
            r.spec_server().cookie_pair.theirs is None,
            r.spec_server().csn_pair.theirs is None,
            r.spec_server().csn_pair.ours.value() == 0,
            r matches Signaling::Responder(s) && s.initiator.permanent_key == initiator_pubkey
                && s.initiator.handshake_state == InitiatorHandshakeState::New && s.session_key
                is None,
    {
        Signaling::Responder(
            ResponderSignaling {
                signaling_state: SignalingState::ServerHandshake,
                permanent_key,
                session_key: None,
                auth_token,
                identity: ClientIdentity::Unknown,
                server: ServerContext::new(),
                initiator: InitiatorContext::new(initiator_pubkey),
            },
        )
    }

    /// Our role, either initiator or responder.
    pub fn role(&self) -> (r: Role)
        ensures
            r == self.spec_role(),
    {
        match self {
            Signaling::Initiator(_) => Role::Initiator,
            Signaling::Responder(_) => Role::Responder,
        }
    }

    /// The signaling state.
    pub fn signaling_state(&self) -> (r: SignalingState)
        ensures
            r == self.spec_state(),
    {
        match self {
            Signaling::Initiator(s) => s.signaling_state,
            Signaling::Responder(s) => s.signaling_state,
        }
    }

    /// Our assigned client identity.
    pub fn identity(&self) -> (r: ClientIdentity)
        ensures
            r == self.spec_identity(),
    {
        match self {
            Signaling::Initiator(s) => s.identity,
            Signaling::Responder(s) => s.identity,
        }
    }

    /// Set the client identity.
    pub fn set_identity(&mut self, identity: ClientIdentity)
        ensures
            final(self).spec_identity() == identity,
            final(self).spec_role() == old(self).spec_role(),
            final(self).spec_state() == old(self).spec_state(),
            final(self).spec_server() == old(self).spec_server(),
            final(self).spec_permanent_key() == old(self).spec_permanent_key(),
            final(self).spec_auth_token() == old(self).spec_auth_token(),
            final(self).spec_responders() == old(self).spec_responders(),
            ((*old(self)) matches Signaling::Responder(s) ==> (*final(self)) matches Signaling::Responder(
                s2,
            ) && s2.initiator == s.initiator && s2.session_key == s.session_key),
            ((*old(self)) matches Signaling::Initiator(s) ==> (*final(self)) matches Signaling::Initiator(
                s2,
            ) && s2.responder == s.responder),
    {
        match self {
            Signaling::Initiator(s) => s.identity = identity,
            Signaling::Responder(s) => s.identity = identity,
        }
    }

    /// Our permanent keypair.
    pub fn permanent_key(&self) -> (r: &KeyStore)
        ensures
            *r == self.spec_permanent_key(),
    {
        match self {
            Signaling::Initiator(s) => &s.permanent_key,
            Signaling::Responder(s) => &s.permanent_key,
        }
    }

    /// Our auth token.
    pub fn auth_token(&self) -> (r: Option<&AuthToken>)
        ensures
            match r {
                Some(t) => self.spec_auth_token() matches Some(t2) && *t == t2,
                None => self.spec_auth_token() is None,
            },
    {
        match self {
            Signaling::Initiator(s) => s.auth_token.as_ref(),
            Signaling::Responder(s) => s.auth_token.as_ref(),
        }
    }

    /// The server context.
    pub fn server(&self) -> (r: &ServerContext)
        ensures
            *r == self.spec_server(),
    {
        match self {
            Signaling::Initiator(s) => &s.server,
            Signaling::Responder(s) => &s.server,
        }
    }

    /// The mutable server context.
    pub fn server_mut(&mut self) -> (r: &mut ServerContext)
        ensures
            *r == old(self).spec_server(),
            final(self).spec_server() == *final(r),
            final(self).spec_role() == old(self).spec_role(),
            final(self).spec_state() == old(self).spec_state(),
            final(self).spec_identity() == old(self).spec_identity(),
            final(self).spec_permanent_key() == old(self).spec_permanent_key(),
            final(self).spec_auth_token() == old(self).spec_auth_token(),
            final(self).spec_responders() == old(self).spec_responders(),
            ((*old(self)) matches Signaling::Responder(s) ==> (*final(self)) matches Signaling::Responder(
                s2,
            ) && s2.initiator == s.initiator && s2.session_key == s.session_key),
            ((*old(self)) matches Signaling::Initiator(s) ==> (*final(self)) matches Signaling::Initiator(
                s2,
            ) && s2.responder == s.responder),
    {
        match self {
            Signaling::Initiator(s) => &mut s.server,
            Signaling::Responder(s) => &mut s.server,
        }
    }

    /// The inner initiator signaling data.
    pub fn as_initiator(&self) -> (r: &InitiatorSignaling)
        requires
            self is Initiator,
        ensures
            *self == Signaling::Initiator(*r),
    {
        match self {
            Signaling::Initiator(s) => s,
            Signaling::Responder(_) => {
                proof {
                    assert(false);
                }
                unreached()
            },
        }
    }

    /// The inner responder signaling data.
    pub fn as_responder(&self) -> (r: &ResponderSignaling)
        requires
            self is Responder,
        ensures
            *self == Signaling::Responder(*r),
    {
        match self {
            Signaling::Responder(s) => s,
            Signaling::Initiator(_) => {
                proof {
                    assert(false);
                }
                unreached()
            },
        }
    }
}

// ---------------------------------------------------------------------------
// Nonce validation
// ---------------------------------------------------------------------------
/// The spec-level outcome of validating a nonce.
pub enum SpecValidation {
    /// The nonce is acceptable.
    Accept,
    /// The frame is silently discarded, with a warning.
    Drop(Seq<char>),
    /// The nonce is invalid; the session must be failed.
    Reject(Seq<char>),
}

/// What validating a nonce does to the signaling state.
pub struct ValidationEffect {
    pub outcome: SpecValidation,
    pub identity: ClientIdentity,
    pub server: ServerContext,
    pub responders: Seq<ResponderContext>,
    pub initiator: Option<InitiatorContext>,
}

/// The cookie checks of the validator, after the counter checks passed:
/// the first message must not echo our own cookie; later messages must
/// repeat the stored one.
pub open spec fn spec_validate_cookie(csn1: crate::csn::CsnPair, cookie0: crate::cookie::CookiePair,
    name: Seq<char>, n: Nonce) -> (SpecValidation, crate::csn::CsnPair, crate::cookie::CookiePair) {
    match cookie0.theirs {
        None => if n.cookie@ == cookie0.ours@ {
            (
                SpecValidation::Reject(
                    "Cookie from "@ + name + " is identical to our own cookie"@,
                ),
                csn1,
                cookie0,
            )
        } else {
            (
                SpecValidation::Accept,
                csn1,
                crate::cookie::CookiePair { theirs: Some(n.cookie), ..cookie0 },
            )
        },
        Some(c) => if n.cookie@ != c@ {
            (SpecValidation::Reject("Cookie from "@ + name + " has changed"@), csn1, cookie0)
        } else {
            (SpecValidation::Accept, csn1, cookie0)
        },
    }
}

/// The counter and cookie checks of the validator against one peer: the
/// first counter must carry overflow number zero, later ones must strictly
/// increase; then the cookie checks run. Counter updates that happened
/// before a cookie rejection persist.
pub open spec fn spec_validate_peer(csn0: crate::csn::CsnPair, cookie0: crate::cookie::CookiePair,
    name: Seq<char>, n: Nonce) -> (SpecValidation, crate::csn::CsnPair, crate::cookie::CookiePair) {
    match csn0.theirs {
        Some(prev) => {
            if n.csn.value() < prev.value() {
                (SpecValidation::Reject(name + " CSN is lower than last time"@), csn0, cookie0)
            } else if n.csn.value() == prev.value() {
                (SpecValidation::Reject(name + " CSN hasn't been incremented"@), csn0, cookie0)
            } else {
                spec_validate_cookie(
                    crate::csn::CsnPair { theirs: Some(n.csn), ..csn0 },
                    cookie0,
                    name,
                    n,
                )
            }
        },
        None => {
            if n.csn.overflow != 0 {
                (
                    SpecValidation::Reject(
                        "First message from "@ + name
                            + " must have set the overflow number to 0"@,
                    ),
                    csn0,
                    cookie0,
                )
            } else {
                spec_validate_cookie(
                    crate::csn::CsnPair { theirs: Some(n.csn), ..csn0 },
                    cookie0,
                    name,
                    n,
                )
            }
        },
    }
}

/// The first index holding a context for `addr`, or -1.
pub open spec fn spec_find_responder(rs: Seq<ResponderContext>, addr: Address, i: int) -> int
    decreases rs.len() - i,
{
    if i < 0 || i >= rs.len() {
        -1
    } else if rs[i].address == addr {
        i
    } else {
        spec_find_responder(rs, addr, i + 1)
    }
}

/// The initiator context a responder keeps, if this is a responder.
impl Signaling {
    pub open spec fn spec_init_ctx(self) -> Option<InitiatorContext> {
        match self {
            Signaling::Initiator(_) => None,
            Signaling::Responder(s) => Some(s.initiator),
        }
    }

    /// The session keypair a responder holds, if this is a responder.
    pub open spec fn spec_session_key(self) -> Option<KeyStore> {
        match self {
            Signaling::Initiator(_) => None,
            Signaling::Responder(s) => s.session_key,
        }
    }
}

/// The whole nonce validator, as a function of the signaling value and the
/// incoming nonce: identity assignment, destination and source discipline,
/// peer lookup, counter and cookie checks.
pub open spec fn spec_validate(s0: Signaling, n: Nonce) -> ValidationEffect {
    let role = s0.spec_role();
    let id0 = s0.spec_identity();
    let server0 = s0.spec_server();
    let rs0 = s0.spec_responders();
    let init0 = s0.spec_init_ctx();
    let dst = n.destination;
    let src = n.source;
    let assigning = id0 == ClientIdentity::Unknown && dst.0 != 0 && !(server0.handshake_state
        is New);
    if assigning && !(role == Role::Initiator && dst.0 == 1) && !(role == Role::Responder && dst.0
        >= 2) {
        ValidationEffect {
            outcome: SpecValidation::Reject(
                "cannot assign address "@ + spec_address_string(dst)
                    + " to a client with role "@ + spec_role_string(role),
            ),
            identity: id0,
            server: server0,
            responders: rs0,
            initiator: init0,
        }
    } else {
        let id1 = if assigning {
            if role == Role::Initiator {
                ClientIdentity::Initiator
            } else {
                ClientIdentity::Responder(dst.0)
            }
        } else {
            id0
        };
        if dst.0 != spec_client_identity_address(id1) {
            ValidationEffect {
                outcome: SpecValidation::Reject(
                    "Bad destination: "@ + spec_address_string(dst) + " (our identity is "@
                        + spec_client_identity_string(id1) + ")"@,
                ),
                identity: id1,
                server: server0,
                responders: rs0,
                initiator: init0,
            }
        } else if src.0 == 0 {
            let pv = spec_validate_peer(
                server0.csn_pair,
                server0.cookie_pair,
                spec_identity_string(Identity::Server),
                n,
            );
            ValidationEffect {
                outcome: pv.0,
                identity: id1,
                server: ServerContext { csn_pair: pv.1, cookie_pair: pv.2, ..server0 },
                responders: rs0,
                initiator: init0,
            }
        } else if src.0 == 1 {
            if !(id1 matches ClientIdentity::Responder(_)) || init0 is None {
                ValidationEffect {
                    outcome: SpecValidation::Drop(
                        "bad source: "@ + spec_address_string(src) + " (our identity is "@
                            + spec_client_identity_string(id1) + ")"@,
                    ),
                    identity: id1,
                    server: server0,
                    responders: rs0,
                    initiator: init0,
                }
            } else {
                let ic = init0->Some_0;
                let pv = spec_validate_peer(
                    ic.csn_pair,
                    ic.cookie_pair,
                    spec_identity_string(Identity::Initiator),
                    n,
                );
                ValidationEffect {
                    outcome: pv.0,
                    identity: id1,
                    server: server0,
                    responders: rs0,
                    initiator: Some(
                        InitiatorContext { csn_pair: pv.1, cookie_pair: pv.2, ..ic },
                    ),
                }
            }
        } else {
            if id1 != ClientIdentity::Initiator {
                ValidationEffect {
                    outcome: SpecValidation::Drop(
                        "bad source: "@ + spec_address_string(src) + " (our identity is "@
                            + spec_client_identity_string(id1) + ")"@,
                    ),
                    identity: id1,
                    server: server0,
                    responders: rs0,
                    initiator: init0,
                }
            } else {
                let i = spec_find_responder(rs0, src, 0);
                if i < 0 {
                    ValidationEffect {
                        outcome: SpecValidation::Reject(
                            "could not find responder with address "@
                                + crate::text::spec_dec_u8(src.0),
                        ),
                        identity: id1,
                        server: server0,
                        responders: rs0,
                        initiator: init0,
                    }
                } else {
                    let ctx = rs0[i];
                    let pv = spec_validate_peer(
                        ctx.csn_pair,
                        ctx.cookie_pair,
                        spec_identity_string(spec_address_identity(src)),
                        n,
                    );
                    ValidationEffect {
                        outcome: pv.0,
                        identity: id1,
                        server: server0,
                        responders: rs0.update(
                            i,
                            ResponderContext { csn_pair: pv.1, cookie_pair: pv.2, ..ctx },
                        ),
                        initiator: init0,
                    }
                }
            }
        }
    }
}

/// The counter and cookie checks, executed: returns the failure message or
/// nothing, together with the updated pairs.
fn validate_peer(csn0: crate::csn::CsnPair, cookie0: crate::cookie::CookiePair, name: &String,
    n: &Nonce) -> (r: (Option<String>, crate::csn::CsnPair, crate::cookie::CookiePair))
    ensures
        ({
            let pv = spec_validate_peer(csn0, cookie0, name@, *n);
            &&& r.1 == pv.1
            &&& r.2 == pv.2
            &&& match r.0 {
                Some(m) => pv.0 matches SpecValidation::Reject(s) && m@ == s,
                None => pv.0 == SpecValidation::Accept,
            }
        }),
{
    let csn1: crate::csn::CsnPair;
    match csn0.theirs {
        Some(prev) => {
            let cur = n.csn();
            if cur.lt(&prev) {
                let msg = name.clone().concat(" CSN is lower than last time");
                return (Some(msg), csn0, cookie0);
            } else if cur.overflow_number() == prev.overflow
                && cur.sequence_number() == prev.sequence {
                let msg = name.clone().concat(" CSN hasn't been incremented");
                return (Some(msg), csn0, cookie0);
            } else {
                proof {
                    assert(n.csn.value() > prev.value());
                }
                csn1 = crate::csn::CsnPair { theirs: Some(*n.csn()), ..csn0 };
            }
        },
        None => {
            if n.csn().overflow_number() != 0 {
                let msg = String::from_str("First message from ").concat(name.as_str()).concat(
                    " must have set the overflow number to 0",
                );
                return (Some(msg), csn0, cookie0);
            }
            csn1 = crate::csn::CsnPair { theirs: Some(*n.csn()), ..csn0 };
        },
    }
    match cookie0.theirs {
        None => {
            if n.cookie().same_as(&cookie0.ours) {
                let msg = String::from_str("Cookie from ").concat(name.as_str()).concat(
                    " is identical to our own cookie",
                );
                (Some(msg), csn1, cookie0)
            } else {
                (
                    None,
                    csn1,
                    crate::cookie::CookiePair { theirs: Some(*n.cookie()), ..cookie0 },
                )
            }
        },
        Some(c) => {
            if !n.cookie().same_as(&c) {
                let msg = String::from_str("Cookie from ").concat(name.as_str()).concat(
                    " has changed",
                );
                (Some(msg), csn1, cookie0)
            } else {
                (None, csn1, cookie0)
            }
        },
    }
}

/// The first index holding a context for `addr`, if any.
fn find_responder_index(rs: &Vec<ResponderContext>, addr: Address) -> (r: Option<usize>)
    ensures
        match r {
            Some(i) => 0 <= i < rs@.len() && spec_find_responder(rs@, addr, 0) == i as int,
            None => spec_find_responder(rs@, addr, 0) == -1,
        },
{
    let mut i: usize = 0;
    while i < rs.len()
        invariant
            0 <= i <= rs@.len(),
            spec_find_responder(rs@, addr, 0) == spec_find_responder(rs@, addr, i as int),
        decreases rs@.len() - i,
    {
        if rs[i].address.0 == addr.0 {
            return Some(i);
        }
        i += 1;
    }
    None
}

impl Signaling {
    /// Validate an incoming nonce against the signaling state, updating the
    /// identity and the peer's counter and cookie records exactly as
    /// [`spec_validate`] describes.
    pub fn validate_nonce(&mut self, nonce: &Nonce) -> (r: ValidationResult)
        ensures
            ({
                let eff = spec_validate(*old(self), *nonce);
                &&& final(self).spec_identity() == eff.identity
                &&& final(self).spec_server() == eff.server
                &&& final(self).spec_responders() == eff.responders
                &&& final(self).spec_init_ctx() == eff.initiator
                &&& final(self).spec_role() == old(self).spec_role()
                &&& final(self).spec_state() == old(self).spec_state()
                &&& final(self).spec_permanent_key() == old(self).spec_permanent_key()
                &&& final(self).spec_auth_token() == old(self).spec_auth_token()
                &&& ((*old(self)) matches Signaling::Responder(s) ==> (*final(self)) matches
                    Signaling::Responder(s2) && s2.session_key == s.session_key)
                &&& ((*old(self)) matches Signaling::Initiator(s) ==> (*final(self)) matches
                    Signaling::Initiator(s2) && s2.responder == s.responder)
                &&& match r {
                    ValidationResult::Valid => eff.outcome == SpecValidation::Accept,
                    ValidationResult::DropMsg(s) => eff.outcome matches SpecValidation::Drop(m)
                        && s@ == m,
                    ValidationResult::Fail(s) => eff.outcome matches SpecValidation::Reject(m)
                        && s@ == m,
                }
            }),
    {
        let role = self.role();
        let id0 = self.identity();
        let dst = nonce.destination();
        let src = nonce.source();
        let in_new = match &self.server().handshake_state {
            ServerHandshakeState::New => true,
            _ => false,
        };
        let assigning = id0 == ClientIdentity::Unknown && !dst.is_unknown() && !in_new;
        if assigning && !(role == Role::Initiator && dst.0 == 1) && !(role == Role::Responder
            && dst.0 >= 2) {
            let msg = String::from_str("cannot assign address ").concat(
                dst.to_string().as_str(),
            ).concat(" to a client with role ").concat(role.to_string().as_str());
            return ValidationResult::Fail(msg);
        }
        let id1 = if assigning {
            if role == Role::Initiator {
                ClientIdentity::Initiator
            } else {
                ClientIdentity::Responder(dst.0)
            }
        } else {
            id0
        };
        self.set_identity(id1);
        if dst.0 != Address::from(id1).0 {
            let msg = String::from_str("Bad destination: ").concat(dst.to_string().as_str())
                .concat(" (our identity is ").concat(id1.to_string().as_str()).concat(")");
            return ValidationResult::Fail(msg);
        }
        if src.0 == 0 {
            let name = Identity::Server.to_string();
            let server = self.server();
            let (out, csn1, ck1) = validate_peer(server.csn_pair, server.cookie_pair, &name, nonce);
            let server = self.server_mut();
            server.csn_pair = csn1;
            server.cookie_pair = ck1;
            match out {
                Some(m) => ValidationResult::Fail(m),
                None => ValidationResult::Valid,
            }
        } else if src.0 == 1 {
            let from_initiator_ok = match (&*self, id1) {
                (Signaling::Responder(_), ClientIdentity::Responder(_)) => true,
                _ => false,
            };
            if !from_initiator_ok {
                let msg = String::from_str("bad source: ").concat(src.to_string().as_str())
                    .concat(" (our identity is ").concat(id1.to_string().as_str()).concat(")");
                return ValidationResult::DropMsg(msg);
            }
            let name = Identity::Initiator.to_string();
            match self {
                Signaling::Responder(s) => {
                    let (out, csn1, ck1) = validate_peer(
                        s.initiator.csn_pair,
                        s.initiator.cookie_pair,
                        &name,
                        nonce,
                    );
                    s.initiator.csn_pair = csn1;
                    s.initiator.cookie_pair = ck1;
                    match out {
                        Some(m) => ValidationResult::Fail(m),
                        None => ValidationResult::Valid,
                    }
                },
                Signaling::Initiator(_) => {
                    proof {
                        assert(false);
                    }
                    ValidationResult::Valid
                },
            }
        } else {
            if id1 != ClientIdentity::Initiator {
                let msg = String::from_str("bad source: ").concat(src.to_string().as_str())
                    .concat(" (our identity is ").concat(id1.to_string().as_str()).concat(")");
                return ValidationResult::DropMsg(msg);
            }
            let name = Identity::from(src).to_string();
            match self {
                Signaling::Initiator(s) => {
                    match find_responder_index(&s.responders, src) {
                        None => {
                            let msg = String::from_str(
                                "could not find responder with address ",
                            ).concat(crate::text::dec_u8(src.0).as_str());
                            ValidationResult::Fail(msg)
                        },
                        Some(i) => {
                            let ctx = &s.responders[i];
                            let (out, csn1, ck1) = validate_peer(
                                ctx.csn_pair,
                                ctx.cookie_pair,
                                &name,
                                nonce,
                            );
                            let ctx2 = ResponderContext {
                                address: ctx.address,
                                handshake_state: ctx.handshake_state,
                                cookie_pair: ck1,
                                csn_pair: csn1,
                                permanent_key: ctx.permanent_key,
                                session_key: ctx.session_key,
                            };
                            s.responders[i] = ctx2;
                            proof {
                                let eff = spec_validate(*old(self), *nonce);
                                assert(s.responders@ =~= eff.responders);
                            }
                            match out {
                                Some(m) => ValidationResult::Fail(m),
                                None => ValidationResult::Valid,
                            }
                        },
                    }
                },
                Signaling::Responder(_) => {
                    let msg = String::from_str("could not find responder with address ").concat(
                        crate::text::dec_u8(src.0).as_str(),
                    );
                    ValidationResult::Fail(msg)
                },
            }
        }
    }
}

// ---------------------------------------------------------------------------
// The server handshake
// ---------------------------------------------------------------------------
/// Build the plaintext client-hello reply carrying our permanent public
/// key, stepping our counter towards the server.
fn build_client_hello(server: &mut ServerContext, identity: ClientIdentity, our_pk: PublicKey) -> (r:
    SignalingResult<HandleAction>)
    ensures
        match r {
            Ok(a) => {
                &&& a matches HandleAction::Reply(bb) && ({
                    &&& bb.bytes@ == spec_encode(MessageV::ClientHello { key: our_pk@ })
                    &&& bb.nonce.cookie == old(server).cookie_pair.ours
                    &&& bb.nonce.source == Address(spec_client_identity_address(identity))
                    &&& bb.nonce.destination == Address(0)
                    &&& bb.nonce.csn.value() == old(server).csn_pair.ours.value() + 1
                })
                &&& final(server).csn_pair.ours.value() == old(server).csn_pair.ours.value() + 1
                &&& final(server).csn_pair.theirs == old(server).csn_pair.theirs
                &&& final(server).cookie_pair == old(server).cookie_pair
                &&& final(server).permanent_key == old(server).permanent_key
                &&& final(server).session_key == old(server).session_key
                &&& final(server).handshake_state == old(server).handshake_state
            },
            Err(e) => {
                &&& e == SignalingError::CsnOverflow
                &&& old(server).csn_pair.ours.value() == crate::csn::spec_csn_max()
                &&& *final(server) == *old(server)
            },
        },
{
    let csn = server.csn_pair.ours.increment()?;
    let nonce = Nonce::new(server.cookie_pair.ours, Address::from(identity), Address(0), csn);
    let client_hello = ClientHello::new(our_pk).into_message();
    let reply = OpenBox::new(client_hello, nonce);
    Ok(HandleAction::Reply(reply.encode()))
}

/// The client-auth payload this client sends: it echoes the server's
/// cookie and announces the subprotocol, with keepalive disabled.
pub open spec fn spec_client_auth_msg(server_cookie: Seq<u8>) -> MessageV {
    MessageV::ClientAuth {
        your_cookie: server_cookie,
        subprotocols: seq![spec_subprotocol()],
        ping_interval: 0,
        your_key: None,
    }
}

/// Build the encrypted client-auth reply, sealed with our permanent key
/// for the server's permanent key, stepping our counter towards the server.
fn build_client_auth(server: &mut ServerContext, identity: ClientIdentity, perm: KeyStore) -> (r:
    SignalingResult<HandleAction>)
    requires
        old(server).cookie_pair.theirs is Some,
        old(server).permanent_key is Some,
    ensures
        match r {
            Ok(a) => {
                &&& a matches HandleAction::Reply(bb) && ({
                    let n = bb.nonce;
                    &&& bb.bytes@ == crate::crypto::spec_box_seal(
                        perm.spec_private()@,
                        old(server).permanent_key->Some_0@,
                        spec_nonce_bytes(n),
                        spec_encode(
                            spec_client_auth_msg(old(server).cookie_pair.theirs->Some_0@),
                        ),
                    )
                    &&& n.cookie == old(server).cookie_pair.ours
                    &&& n.source == Address(spec_client_identity_address(identity))
                    &&& n.destination == Address(0)
                    &&& n.csn.value() == old(server).csn_pair.ours.value() + 1
                })
                &&& final(server).csn_pair.ours.value() == old(server).csn_pair.ours.value() + 1
                &&& final(server).csn_pair.theirs == old(server).csn_pair.theirs
                &&& final(server).cookie_pair == old(server).cookie_pair
                &&& final(server).permanent_key == old(server).permanent_key
                &&& final(server).session_key == old(server).session_key
                &&& final(server).handshake_state == old(server).handshake_state
            },
            Err(e) => {
                &&& e == SignalingError::CsnOverflow
                &&& old(server).csn_pair.ours.value() == crate::csn::spec_csn_max()
                &&& *final(server) == *old(server)
            },
        },
{
    let your_cookie = match &server.cookie_pair.theirs {
        Some(c) => *c,
        None => {
            proof {
                assert(false);
            }
            Cookie::random()
        },
    };
    let server_pk = match &server.permanent_key {
        Some(k) => *k,
        None => {
            proof {
                assert(false);
            }
            *perm.public_key()
        },
    };
    let csn = server.csn_pair.ours.increment()?;
    let nonce = Nonce::new(server.cookie_pair.ours, Address::from(identity), Address(0), csn);
    let mut subprotocols: Vec<Vec<u8>> = Vec::new();
    subprotocols.push(subprotocol_bytes());
    let client_auth = ClientAuth {
        your_cookie,
        subprotocols,
        ping_interval: 0,
        your_key: None,
    }.into_message();
    proof {
        assert(subprotocols.deep_view() =~= seq![spec_subprotocol()]) by {
            assert(subprotocols.deep_view().len() == 1);
            assert(subprotocols.deep_view()[0] =~= subprotocols@[0]@);
        }
        assert(client_auth@ == spec_client_auth_msg(your_cookie@));
        assert(wf_msg(client_auth@));
    }
    let reply = OpenBox::new(client_auth, nonce);
    Ok(HandleAction::Reply(reply.encrypt(&perm, &server_pk)))
}

impl Signaling {
    /// Decode or decrypt an incoming frame: plaintext while the server
    /// handshake is new, a public-key box from the server's permanent key
    /// afterwards.
    fn decode_msg(&self, bbox: ByteBox) -> (r: SignalingResult<OpenBox>)
        ensures
            ({
                let srv = self.spec_server();
                if srv.handshake_state is New {
                    match r {
                        Ok(ob) => {
                            &&& spec_decode(bbox.bytes@) == DecodeOutcome::Msg(ob.message@)
                            &&& ob.nonce == bbox.nonce
                        },
                        Err(e) => !(spec_decode(bbox.bytes@) is Msg),
                    }
                } else if srv.permanent_key is None {
                    r matches Err(e) && e matches SignalingError::Crash(_)
                } else {
                    let opened = crate::crypto::spec_box_open(
                        self.spec_permanent_key().spec_private()@,
                        srv.permanent_key->Some_0@,
                        spec_nonce_bytes(bbox.nonce),
                        bbox.bytes@,
                    );
                    match r {
                        Ok(ob) => {
                            &&& opened matches Some(m) && spec_decode(m) == DecodeOutcome::Msg(
                                ob.message@,
                            )
                            &&& ob.nonce == bbox.nonce
                        },
                        Err(e) => match opened {
                            None => e == SignalingError::Decrypt,
                            Some(m) => !(spec_decode(m) is Msg),
                        },
                    }
                }
            }),
    {
        let in_new = match &self.server().handshake_state {
            ServerHandshakeState::New => true,
            _ => false,
        };
        if in_new {
            bbox.decode()
        } else {
            match &self.server().permanent_key {
                Some(pubkey) => {
                    let pk = *pubkey;
                    bbox.decrypt(self.permanent_key(), &pk)
                },
                None => Err(
                    SignalingError::Crash(String::from_str("Missing server permanent key")),
                ),
            }
        }
    }

    /// Handle an incoming server-hello: record the server's permanent key,
    /// reply with client-hello (responder only) and client-auth, and move
    /// the server handshake to `ClientInfoSent`.
    fn handle_server_hello(&mut self, msg: ServerHello) -> (r: SignalingResult<Vec<HandleAction>>)
        requires
            old(self).wf(),
            old(self).spec_server().cookie_pair.theirs is Some,
        ensures
            final(self).spec_role() == old(self).spec_role(),
            final(self).spec_identity() == old(self).spec_identity(),
            final(self).spec_permanent_key() == old(self).spec_permanent_key(),
            final(self).spec_auth_token() == old(self).spec_auth_token(),
            final(self).spec_state() == old(self).spec_state(),
            final(self).spec_responders() == old(self).spec_responders(),
            final(self).spec_init_ctx() == old(self).spec_init_ctx(),
            final(self).wf(),
            final(self).spec_server().cookie_pair == old(self).spec_server().cookie_pair,
            final(self).spec_server().csn_pair.theirs == old(self).spec_server().csn_pair.theirs,
            match r {
                Ok(actions) => {
                    let srv0 = old(self).spec_server();
                    let k: int = if old(self).spec_role() == Role::Responder {
                        2int
                    } else {
                        1int
                    };
                    &&& srv0.permanent_key is None
                    &&& final(self).spec_server().permanent_key == Some(msg.key)
                    &&& final(self).spec_server().handshake_state
                        == ServerHandshakeState::ClientInfoSent
                    &&& final(self).spec_server().csn_pair.ours.value() == srv0.csn_pair.ours.value()
                        + k
                    &&& actions@.len() == k
                    &&& (old(self).spec_role() == Role::Responder ==> (actions@[0] matches
                        HandleAction::Reply(bb) && {
                        &&& bb.bytes@ == spec_encode(
                            MessageV::ClientHello {
                                key: old(self).spec_permanent_key().spec_public()@,
                            },
                        )
                        &&& bb.nonce.cookie == srv0.cookie_pair.ours
                        &&& bb.nonce.source == Address(
                            spec_client_identity_address(old(self).spec_identity()),
                        )
                        &&& bb.nonce.destination == Address(0)
                        &&& bb.nonce.csn.value() == srv0.csn_pair.ours.value() + 1
                    }))
                    &&& actions@[k - 1] matches HandleAction::Reply(bb) && ({
                        let n = bb.nonce;
                        &&& bb.bytes@ == crate::crypto::spec_box_seal(
                            old(self).spec_permanent_key().spec_private()@,
                            msg.key@,
                            spec_nonce_bytes(n),
                            spec_encode(
                                spec_client_auth_msg(srv0.cookie_pair.theirs->Some_0@),
                            ),
                        )
                        &&& n.cookie == srv0.cookie_pair.ours
                        &&& n.source == Address(
                            spec_client_identity_address(old(self).spec_identity()),
                        )
                        &&& n.destination == Address(0)
                        &&& n.csn.value() == srv0.csn_pair.ours.value() + k
                    })
                },
                Err(e) => {
                    &&& (e matches SignalingError::Protocol(s) ==> old(self).spec_server()
                        .permanent_key is Some && *final(self) == *old(self) && s@
                        == "Got a server-hello message, but server permanent key is already set"@)
                    &&& (e == SignalingError::CsnOverflow ==> old(self).spec_server().permanent_key
                        is None && old(self).spec_server().csn_pair.ours.value() + 2
                        > crate::csn::spec_csn_max())
                    &&& (e matches SignalingError::Protocol(_) || e == SignalingError::CsnOverflow)
                },
            },
    {
        let role = self.role();
        let id = self.identity();
        let perm = *self.permanent_key();
        let our_pk = *perm.public_key();
        if self.server().permanent_key.is_some() {
            return Err(
                SignalingError::Protocol(
                    String::from_str(
                        "Got a server-hello message, but server permanent key is already set",
                    ),
                ),
            );
        }
        self.server_mut().permanent_key = Some(msg.key);
        let mut actions: Vec<HandleAction> = Vec::new();
        if role == Role::Responder {
            let a = build_client_hello(self.server_mut(), id, our_pk)?;
            actions.push(a);
        }
        let a2 = build_client_auth(self.server_mut(), id, perm)?;
        actions.push(a2);
        self.server_mut().handshake_state = ServerHandshakeState::ClientInfoSent;
        Ok(actions)
    }
}

// ---------------------------------------------------------------------------
// Responder-side handlers
// ---------------------------------------------------------------------------
/// Build the token message carrying our permanent public key, sealed with
/// the one-shot auth token, stepping our counter towards the initiator.
fn build_token(init: &mut InitiatorContext, identity: ClientIdentity, token: AuthToken,
    perm_pub: PublicKey) -> (r: SignalingResult<HandleAction>)
    ensures
        match r {
            Ok(a) => {
                &&& a matches HandleAction::Reply(bb) && ({
                    &&& bb.bytes@ == crate::crypto::spec_secretbox_seal(
                        token@,
                        spec_nonce_bytes(bb.nonce),
                        spec_encode(MessageV::Token { key: perm_pub@ }),
                    )
                    &&& bb.nonce.cookie == old(init).cookie_pair.ours
                    &&& bb.nonce.source == Address(spec_client_identity_address(identity))
                    &&& bb.nonce.destination == Address(1)
                    &&& bb.nonce.csn.value() == old(init).csn_pair.ours.value() + 1
                })
                &&& *final(init) == (InitiatorContext {
                    csn_pair: crate::csn::CsnPair {
                        ours: final(init).csn_pair.ours,
                        theirs: old(init).csn_pair.theirs,
                    },
                    ..*old(init)
                })
                &&& final(init).csn_pair.ours.value() == old(init).csn_pair.ours.value() + 1
            },
            Err(e) => {
                &&& e == SignalingError::CsnOverflow
                &&& old(init).csn_pair.ours.value() == crate::csn::spec_csn_max()
                &&& *final(init) == *old(init)
            },
        },
{
    let csn = init.csn_pair.ours.increment()?;
    let nonce = Nonce::new(init.cookie_pair.ours, Address::from(identity), Address(1), csn);
    let msg = Token::new(perm_pub).into_message();
    let obox = OpenBox::new(msg, nonce);
    Ok(HandleAction::Reply(obox.encrypt_token(&token)))
}

/// Build the key message carrying our session public key, sealed with our
/// permanent key for the initiator's permanent key.
fn build_key(init: &mut InitiatorContext, identity: ClientIdentity, perm: KeyStore,
    session_pub: PublicKey) -> (r: SignalingResult<HandleAction>)
    ensures
        match r {
            Ok(a) => {
                &&& a matches HandleAction::Reply(bb) && ({
                    &&& bb.bytes@ == crate::crypto::spec_box_seal(
                        perm.spec_private()@,
                        old(init).permanent_key@,
                        spec_nonce_bytes(bb.nonce),
                        spec_encode(MessageV::Key { key: session_pub@ }),
                    )
                    &&& bb.nonce.cookie == old(init).cookie_pair.ours
                    &&& bb.nonce.source == Address(spec_client_identity_address(identity))
                    &&& bb.nonce.destination == Address(1)
                    &&& bb.nonce.csn.value() == old(init).csn_pair.ours.value() + 1
                })
                &&& *final(init) == (InitiatorContext {
                    csn_pair: crate::csn::CsnPair {
                        ours: final(init).csn_pair.ours,
                        theirs: old(init).csn_pair.theirs,
                    },
                    ..*old(init)
                })
                &&& final(init).csn_pair.ours.value() == old(init).csn_pair.ours.value() + 1
            },
            Err(e) => {
                &&& e == SignalingError::CsnOverflow
                &&& old(init).csn_pair.ours.value() == crate::csn::spec_csn_max()
                &&& *final(init) == *old(init)
            },
        },
{
    let csn = init.csn_pair.ours.increment()?;
    let nonce = Nonce::new(init.cookie_pair.ours, Address::from(identity), Address(1), csn);
    let msg = Key::new(session_pub).into_message();
    let obox = OpenBox::new(msg, nonce);
    let their_pk = init.permanent_key;
    Ok(HandleAction::Reply(obox.encrypt(&perm, &their_pk)))
}

impl ResponderSignaling {
    /// Generate a fresh session keypair, distinct from the permanent one.
    #[verifier::loop_isolation(false)]
    fn generate_session_key(&mut self) -> (r: SignalingResult<()>)
        ensures
            match r {
                Ok(()) => {
                    &&& old(self).session_key is None
                    &&& final(self).session_key matches Some(k) && k.wf() && k.spec_private()@
                        != old(self).permanent_key.spec_private()@
                    &&& *final(self) == (ResponderSignaling {
                        session_key: final(self).session_key,
                        ..*old(self)
                    })
                },
                Err(e) => {
                    &&& e matches SignalingError::Crash(_)
                    &&& *final(self) == *old(self)
                },
            },
    {
        if self.session_key.is_some() {
            return Err(
                SignalingError::Crash(
                    String::from_str(
                        "Cannot generate new session key: It has already been generated",
                    ),
                ),
            );
        }
        let mut attempts: usize = 0;
        while attempts < 8
            invariant
                self.session_key is None,
                *self == (ResponderSignaling { session_key: self.session_key, ..*old(self) }),
            decreases 8 - attempts,
        {
            let ks = match KeyStore::new() {
                Ok(k) => k,
                Err(_) => {
                    proof {
                        assert(false);
                    }
                    return Err(SignalingError::Crash(String::from_str("keystore failure")));
                },
            };
            if !ks.same_keys(&self.permanent_key) {
                self.session_key = Some(ks);
                return Ok(());
            }
            attempts += 1;
        }
        Err(
            SignalingError::Crash(
                String::from_str(
                    "could not generate a session key distinct from the permanent key",
                ),
            ),
        )
    }

    /// Handle a server-auth message as a responder: `initiator_connected`
    /// must be present; when it is true, send the token message (if we hold
    /// a token) and the key message, and mark the initiator as keyed.
    fn handle_server_auth(&mut self, msg: &ServerAuth) -> (r: SignalingResult<Vec<HandleAction>>)
        requires
            old(self).session_key matches Some(k) ==> k.wf(),
        ensures
            final(self).permanent_key == old(self).permanent_key,
            final(self).auth_token == old(self).auth_token,
            final(self).identity == old(self).identity,
            final(self).signaling_state == old(self).signaling_state,
            final(self).server == old(self).server,
            final(self).initiator.permanent_key == old(self).initiator.permanent_key,
            final(self).initiator.cookie_pair == old(self).initiator.cookie_pair,
            final(self).initiator.csn_pair.theirs == old(self).initiator.csn_pair.theirs,
            (final(self).session_key matches Some(k) ==> k.wf()),
            old(self).session_key is Some ==> final(self).session_key == old(self).session_key,
            (r matches Err(e) ==> (e matches SignalingError::InvalidMessage(_) || e
                == SignalingError::CsnOverflow || e matches SignalingError::Crash(_))),
            (msg.responders is Some ==> (r matches Err(e) && e matches
                SignalingError::InvalidMessage(s) && s@
                == "We're a responder, but the `responders` field in the server-auth message is set"@
                && *final(self) == *old(self))),
            (msg.responders is None && msg.initiator_connected is None ==> (r matches Err(e)
                && e matches SignalingError::InvalidMessage(s) && s@
                == "We're a responder, but the `initiator_connected` field in the server-auth message is not set"@
                && *final(self) == *old(self))),
            (msg.responders is None && msg.initiator_connected == Some(false) ==> (r matches Ok(
                actions,
            ) && actions@.len() == 0 && *final(self) == *old(self))),
            (msg.responders is None && msg.initiator_connected == Some(true) ==> match r {
                Ok(actions) => {
                    let k: int = if old(self).auth_token is Some {
                        2int
                    } else {
                        1int
                    };
                    &&& actions@.len() == k
                    &&& final(self).session_key matches Some(sk) && sk.wf() && sk.spec_private()@
                        != old(self).permanent_key.spec_private()@
                    &&& final(self).initiator.handshake_state == InitiatorHandshakeState::KeySent
                    &&& final(self).initiator.csn_pair.ours.value() == old(self).initiator.csn_pair.ours.value() + k
                    &&& (old(self).auth_token matches Some(t) ==> (actions@[0] matches
                        HandleAction::Reply(bb) && {
                        &&& bb.bytes@ == crate::crypto::spec_secretbox_seal(
                            t@,
                            spec_nonce_bytes(bb.nonce),
                            spec_encode(
                                MessageV::Token {
                                    key: old(self).permanent_key.spec_public()@,
                                },
                            ),
                        )
                        &&& bb.nonce.cookie == old(self).initiator.cookie_pair.ours
                        &&& bb.nonce.source == Address(
                            spec_client_identity_address(old(self).identity),
                        )
                        &&& bb.nonce.destination == Address(1)
                        &&& bb.nonce.csn.value() == old(self).initiator.csn_pair.ours.value() + 1
                    }))
                    &&& (actions@[k - 1] matches HandleAction::Reply(bb) && {
                        &&& bb.bytes@ == crate::crypto::spec_box_seal(
                            old(self).permanent_key.spec_private()@,
                            old(self).initiator.permanent_key@,
                            spec_nonce_bytes(bb.nonce),
                            spec_encode(
                                MessageV::Key {
                                    key: final(self).session_key->Some_0.spec_public()@,
                                },
                            ),
                        )
                        &&& bb.nonce.cookie == old(self).initiator.cookie_pair.ours
                        &&& bb.nonce.source == Address(
                            spec_client_identity_address(old(self).identity),
                        )
                        &&& bb.nonce.destination == Address(1)
                        &&& bb.nonce.csn.value() == old(self).initiator.csn_pair.ours.value() + k
                    })
                },
                Err(e) => e == SignalingError::CsnOverflow || e matches SignalingError::Crash(_),
            }),
    {
        if msg.responders.is_some() {
            return Err(
                SignalingError::InvalidMessage(
                    String::from_str(
                        "We're a responder, but the `responders` field in the server-auth message is set",
                    ),
                ),
            );
        }
        let mut actions: Vec<HandleAction> = Vec::new();
        match msg.initiator_connected {
            Some(true) => {
                let id = self.identity;
                let perm = self.permanent_key;
                match &self.auth_token {
                    Some(token) => {
                        let t = *token;
                        let a = build_token(&mut self.initiator, id, t, *perm.public_key())?;
                        actions.push(a);
                    },
                    None => {},
                }
                self.generate_session_key()?;
                let session_pub = match &self.session_key {
                    Some(k) => *k.public_key(),
                    None => {
                        proof {
                            assert(false);
                        }
                        *perm.public_key()
                    },
                };
                let a2 = build_key(&mut self.initiator, id, perm, session_pub)?;
                actions.push(a2);
                self.initiator.handshake_state = InitiatorHandshakeState::KeySent;
                Ok(actions)
            },
            Some(false) => Ok(actions),
            None => Err(
                SignalingError::InvalidMessage(
                    String::from_str(
                        "We're a responder, but the `initiator_connected` field in the server-auth message is not set",
                    ),
                ),
            ),
        }
    }

    /// A new-responder message is a protocol error for a responder.
    fn handle_new_responder(&mut self, _msg: NewResponder) -> (r: SignalingResult<
        Vec<HandleAction>,
    >)
        ensures
            *final(self) == *old(self),
            r matches Err(e) && e matches SignalingError::Protocol(s) && s@
                == "Received 'new-responder' message as responder"@,
    {
        Err(
            SignalingError::Protocol(
                String::from_str("Received 'new-responder' message as responder"),
            ),
        )
    }

    /// No peer-to-peer transition is defined during this core's handshake:
    /// every frame from the initiator is rejected in the current state.
    fn handle_peer_message(&mut self, obox: OpenBox) -> (r: SignalingResult<Vec<HandleAction>>)
        ensures
            *final(self) == *old(self),
            r matches Err(e) && e matches SignalingError::InvalidStateTransition(_),
    {
        let state_name: &'static str = match self.initiator.handshake_state {
            InitiatorHandshakeState::New => "New",
            InitiatorHandshakeState::KeySent => "KeySent",
        };
        let msg = String::from_str("Got ").concat(obox.message.get_type()).concat(
            " message from initiator in ",
        ).concat(state_name).concat(" state");
        Err(SignalingError::InvalidStateTransition(msg))
    }
}

// ---------------------------------------------------------------------------
// Initiator-side handlers
// ---------------------------------------------------------------------------
/// A freshly created responder context for an address: fresh cookie, our
/// counter at zero, nothing learned yet.
pub open spec fn fresh_responder_for(c: ResponderContext, addr: Address) -> bool {
    &&& c.address == addr
    &&& c.handshake_state == ResponderHandshakeState::New
    &&& c.cookie_pair.theirs is None
    &&& c.csn_pair.ours.value() == 0
    &&& c.csn_pair.theirs is None
    &&& c.permanent_key is None
    &&& c.session_key is None
    &&& wf_cookie_pair(c.cookie_pair)
}

/// When no context holds the address, the search comes up empty.
proof fn lemma_find_none(rs: Seq<ResponderContext>, addr: Address, k: int)
    requires
        0 <= k <= rs.len(),
        forall|i: int| k <= i < rs.len() ==> (#[trigger] rs[i]).address != addr,
    ensures
        spec_find_responder(rs, addr, k) == -1,
    decreases rs.len() - k,
{
    if k < rs.len() {
        lemma_find_none(rs, addr, k + 1);
    }
}

/// A successful search returns an index holding the address.
proof fn lemma_find_some(rs: Seq<ResponderContext>, addr: Address, k: int)
    requires
        0 <= k,
        spec_find_responder(rs, addr, k) >= 0,
    ensures
        ({
            let i = spec_find_responder(rs, addr, k);
            k <= i < rs.len() && rs[i].address == addr
        }),
    decreases rs.len() - k,
{
    if k < rs.len() && rs[k].address != addr {
        lemma_find_some(rs, addr, k + 1);
    }
}

/// Register a fresh context for an address: replace an existing entry for
/// the same address, or append a new one.
fn register_responder(rs: &mut Vec<ResponderContext>, addr: Address)
    ensures
        ({
            let i = spec_find_responder(old(rs)@, addr, 0);
            if i >= 0 {
                &&& final(rs)@.len() == old(rs)@.len()
                &&& (forall|j: int|
                    0 <= j < old(rs)@.len() && j != i ==> final(rs)@[j] == old(rs)@[j])
                &&& fresh_responder_for(final(rs)@[i], addr)
            } else {
                &&& final(rs)@.len() == old(rs)@.len() + 1
                &&& final(rs)@.subrange(0, old(rs)@.len() as int) == old(rs)@
                &&& (forall|j: int| 0 <= j < old(rs)@.len() ==> final(rs)@[j] == old(rs)@[j])
                &&& fresh_responder_for(final(rs)@[old(rs)@.len() as int], addr)
            }
        }),
{
    let ctx = ResponderContext::new(addr);
    match find_responder_index(rs, addr) {
        Some(i) => {
            proof {
                lemma_find_some(rs@, addr, 0);
            }
            rs[i] = ctx;
        },
        None => {
            let ghost orig = rs@;
            rs.push(ctx);
            proof {
                assert(rs@.subrange(0, orig.len() as int) =~= orig);
            }
        },
    }
}

impl InitiatorSignaling {
    /// Handle a server-auth message as an initiator: `responders` must
    /// hold distinct addresses in the responder range; a fresh context is
    /// stored for each.
    #[verifier::loop_isolation(false)]
    fn handle_server_auth(&mut self, msg: &ServerAuth) -> (r: SignalingResult<Vec<HandleAction>>)
        requires
            wf_responders(old(self).responders@),
        ensures
            final(self).permanent_key == old(self).permanent_key,
            final(self).auth_token == old(self).auth_token,
            final(self).identity == old(self).identity,
            final(self).signaling_state == old(self).signaling_state,
            final(self).server == old(self).server,
            final(self).responder == old(self).responder,
            wf_responders(final(self).responders@),
            (r matches Err(e) ==> e matches SignalingError::InvalidMessage(_)),
            (msg.initiator_connected is Some ==> (r matches Err(e) && e matches
                SignalingError::InvalidMessage(s) && s@
                == "We're the initiator, but the `initiator_connected` field in the server-auth message is set"@
                && *final(self) == *old(self))),
            (msg.initiator_connected is None && msg.responders is None ==> (r matches Err(e)
                && e matches SignalingError::InvalidMessage(s) && s@
                == "`responders` field in server-auth message not set"@ && *final(self) == *old(self))),
            (msg.initiator_connected is None ==> (msg.responders matches Some(rs) ==> ({
                let addrs = rs@;
                let has_low = exists|j: int| 0 <= j < addrs.len() && (#[trigger] addrs[j]).0 < 2;
                let has_dup = exists|i: int, j: int|
                    0 <= i < j < addrs.len() && (#[trigger] addrs[i]).0 == (#[trigger] addrs[j]).0;
                &&& (has_low ==> (r matches Err(e) && e matches SignalingError::InvalidMessage(s)
                    && s@
                    == "`responders` field in server-auth message may not contain addresses <0x02"@
                    && *final(self) == *old(self)))
                &&& (!has_low && has_dup ==> (r matches Err(e) && e matches
                    SignalingError::InvalidMessage(s) && s@
                    == "`responders` field in server-auth message may not contain duplicates"@
                    && *final(self) == *old(self)))
                &&& (!has_low && !has_dup ==> (r matches Ok(actions) && actions@.len() == 0 && (old(self).responders@.len() == 0 ==> final(self).responders@.len() == addrs.len() && (
                forall|j: int|
                    0 <= j < addrs.len() ==> fresh_responder_for(
                        #[trigger] final(self).responders@[j],
                        addrs[j],
                    )))))
            }))),
    {
        if msg.initiator_connected.is_some() {
            return Err(
                SignalingError::InvalidMessage(
                    String::from_str(
                        "We're the initiator, but the `initiator_connected` field in the server-auth message is set",
                    ),
                ),
            );
        }
        let addrs = match &msg.responders {
            Some(rs) => rs,
            None => {
                return Err(
                    SignalingError::InvalidMessage(
                        String::from_str("`responders` field in server-auth message not set"),
                    ),
                );
            },
        };
        // The responder identities must lie in the responder address range.
        let mut j: usize = 0;
        while j < addrs.len()
            invariant
                0 <= j <= addrs@.len(),
                forall|jj: int| 0 <= jj < j ==> (#[trigger] addrs@[jj]).0 >= 2,
            decreases addrs@.len() - j,
        {
            if addrs[j].0 < 2 {
                return Err(
                    SignalingError::InvalidMessage(
                        String::from_str(
                            "`responders` field in server-auth message may not contain addresses <0x02",
                        ),
                    ),
                );
            }
            j += 1;
        }
        // ... and no address may be repeated.
        let mut a: usize = 0;
        while a < addrs.len()
            invariant
                0 <= a <= addrs@.len(),
                forall|i: int, jj: int|
                    0 <= i < jj < addrs@.len() && i < a ==> (#[trigger] addrs@[i]).0 != (
                    #[trigger] addrs@[jj]).0,
            decreases addrs@.len() - a,
        {
            let mut b: usize = a + 1;
            while b < addrs.len()
                invariant
                    0 <= a < b <= addrs@.len(),
                    forall|jj: int| a < jj < b ==> (#[trigger] addrs@[jj]).0 != addrs@[a as int].0,
                decreases addrs@.len() - b,
            {
                if addrs[a].0 == addrs[b].0 {
                    return Err(
                        SignalingError::InvalidMessage(
                            String::from_str(
                                "`responders` field in server-auth message may not contain duplicates",
                            ),
                        ),
                    );
                }
                b += 1;
            }
            a += 1;
        }
        // Store a fresh context for each responder, in list order.
        let ghost rs0 = self.responders@;
        let mut k: usize = 0;
        while k < addrs.len()
            invariant
                0 <= k <= addrs@.len(),
                forall|i: int, jj: int|
                    0 <= i < jj < addrs@.len() ==> (#[trigger] addrs@[i]).0 != (
                    #[trigger] addrs@[jj]).0,
                forall|jj: int| 0 <= jj < addrs@.len() ==> (#[trigger] addrs@[jj]).0 >= 2,
                wf_responders(self.responders@),
                rs0.len() == 0 ==> self.responders@.len() == k && (forall|jj: int|
                    0 <= jj < k ==> fresh_responder_for(
                        #[trigger] self.responders@[jj],
                        addrs@[jj],
                    )),
                *self == (InitiatorSignaling { responders: self.responders, ..*old(self) }),
            decreases addrs@.len() - k,
        {
            let addr = Address(addrs[k].0);
            let ghost pre = self.responders@;
            proof {
                if rs0.len() == 0 {
                    assert forall|i: int| 0 <= i < pre.len() implies (#[trigger] pre[i]).address
                        != addr by {
                        assert(fresh_responder_for(pre[i], addrs@[i]));
                        assert(addrs@[i].0 != addrs@[k as int].0);
                    }
                    lemma_find_none(pre, addr, 0);
                }
            }
            register_responder(&mut self.responders, addr);
            proof {
                let i = spec_find_responder(pre, addr, 0);
                if i >= 0 {
                    lemma_find_some(pre, addr, 0);
                    assert(wf_responders(self.responders@)) by {
                        assert(forall|j2: int|
                            0 <= j2 < self.responders@.len() && j2 != i
                                ==> #[trigger] self.responders@[j2] == pre[j2]);
                    }
                } else {
                    assert(wf_responders(self.responders@)) by {
                        assert(forall|j2: int|
                            0 <= j2 < pre.len() ==> #[trigger] self.responders@[j2] == pre[j2]);
                        assert(fresh_responder_for(self.responders@[pre.len() as int], addr));
                        assert forall|j2: int|
                            0 <= j2 < pre.len() implies self.responders@[
                            pre.len() as int].address != #[trigger] self.responders@[j2].address by {
                            lemma_find_neg(pre, addr, 0, j2);
                        }
                    }
                }
            }
            k += 1;
        }
        Ok(Vec::new())
    }

    /// Handle a new-responder message: the id must lie in the responder
    /// range; any cached state for that address is dropped and replaced
    /// with a fresh context.
    fn handle_new_responder(&mut self, msg: NewResponder) -> (r: SignalingResult<Vec<HandleAction>>)
        requires
            wf_responders(old(self).responders@),
        ensures
            final(self).permanent_key == old(self).permanent_key,
            final(self).auth_token == old(self).auth_token,
            final(self).identity == old(self).identity,
            final(self).signaling_state == old(self).signaling_state,
            final(self).server == old(self).server,
            final(self).responder == old(self).responder,
            wf_responders(final(self).responders@),
            (msg.id.0 < 2 ==> (r matches Err(e) && e matches SignalingError::InvalidMessage(s)
                && s@ == "`id` field in new-responder message is not a valid responder address"@
                && *final(self) == *old(self))),
            (msg.id.0 >= 2 ==> (r matches Ok(actions) && actions@.len() == 0 && ({
                let i = spec_find_responder(old(self).responders@, msg.id, 0);
                if i >= 0 {
                    final(self).responders@.len() == old(self).responders@.len()
                        && fresh_responder_for(final(self).responders@[i], msg.id)
                } else {
                    final(self).responders@.len() == old(self).responders@.len() + 1
                        && fresh_responder_for(
                        final(self).responders@[old(self).responders@.len() as int],
                        msg.id,
                    )
                }
            }))),
    {
        if !msg.id.is_responder() {
            return Err(
                SignalingError::InvalidMessage(
                    String::from_str(
                        "`id` field in new-responder message is not a valid responder address",
                    ),
                ),
            );
        }
        let ghost pre = self.responders@;
        register_responder(&mut self.responders, msg.id);
        proof {
            let i = spec_find_responder(pre, msg.id, 0);
            if i >= 0 {
                lemma_find_some(pre, msg.id, 0);
                assert(wf_responders(self.responders@)) by {
                    assert(forall|j2: int|
                        0 <= j2 < self.responders@.len() && j2 != i
                            ==> #[trigger] self.responders@[j2] == pre[j2]);
                }
            } else {
                assert(wf_responders(self.responders@)) by {
                    assert(forall|j2: int|
                        0 <= j2 < pre.len() ==> #[trigger] self.responders@[j2] == pre[j2]);
                    assert(fresh_responder_for(self.responders@[pre.len() as int], msg.id));
                    assert forall|j2: int| 0 <= j2 < pre.len() implies self.responders@[
                    pre.len() as int].address != #[trigger] self.responders@[j2].address by {
                        lemma_find_neg(pre, msg.id, 0, j2);
                    }
                }
            }
        }
        Ok(Vec::new())
    }

    /// No peer-to-peer transition is defined during this core's handshake:
    /// every frame from a responder is rejected in the current state.
    fn handle_peer_message(&mut self, obox: OpenBox) -> (r: SignalingResult<Vec<HandleAction>>)
        ensures
            *final(self) == *old(self),
            r matches Err(e) && (e matches SignalingError::InvalidStateTransition(_) || e matches
                SignalingError::Crash(_)),
    {
        let source = obox.nonce.source();
        let idx = find_responder_index(&self.responders, source);
        match idx {
            None => {
                let msg = String::from_str("Did not find responder with address ").concat(
                    source.to_string().as_str(),
                );
                Err(SignalingError::Crash(msg))
            },
            Some(i) => {
                let state_name: &'static str = match self.responders[i].handshake_state {
                    ResponderHandshakeState::New => "New",
                    ResponderHandshakeState::TokenReceived => "TokenReceived",
                    ResponderHandshakeState::KeyReceived => "KeyReceived",
                    ResponderHandshakeState::AuthReceived => "AuthReceived",
                };
                let msg = String::from_str("Got ").concat(obox.message.get_type()).concat(
                    " message from responder ",
                ).concat(source.to_string().as_str()).concat(" in ").concat(state_name).concat(
                    " state",
                );
                Err(SignalingError::InvalidStateTransition(msg))
            },
        }
    }
}

// ---------------------------------------------------------------------------
// Laws of the validator, and the top-level dispatch
// ---------------------------------------------------------------------------
/// The law of one peer's counter and cookie: our sides never change; the
/// peer's counter, once known, never decreases, and strictly increases on
/// every accepted nonce; the peer's cookie, once known, never changes, is
/// recorded from the first accepted nonce, and always differs from ours.
pub proof fn lemma_validate_peer_props(csn0: crate::csn::CsnPair,
    cookie0: crate::cookie::CookiePair, name: Seq<char>, n: Nonce)
    ensures
        ({
            let pv = spec_validate_peer(csn0, cookie0, name, n);
            &&& pv.1.ours == csn0.ours
            &&& pv.2.ours == cookie0.ours
            &&& (wf_cookie_pair(cookie0) ==> wf_cookie_pair(pv.2))
            &&& (cookie0.theirs matches Some(c) ==> pv.2.theirs == Some(c))
            &&& (csn0.theirs matches Some(c) ==> (pv.1.theirs matches Some(c2) && c2.value()
                >= c.value()))
            &&& (pv.0 == SpecValidation::Accept ==> pv.1.theirs == Some(n.csn) && (csn0.theirs
                matches Some(c) ==> n.csn.value() > c.value()))
            &&& (pv.0 == SpecValidation::Accept && csn0.theirs is None ==> n.csn.overflow == 0)
            &&& (pv.0 == SpecValidation::Accept && cookie0.theirs is None ==> pv.2.theirs == Some(
                n.cookie,
            ) && n.cookie@ != cookie0.ours@)
        }),
{
}

/// The laws of the whole validator: the identity is assigned at most once
/// and only to a value that fits the role; the server's cookie and counter
/// records follow the per-peer law; everything else is untouched.
pub proof fn lemma_validate_props(s0: Signaling, n: Nonce)
    requires
        s0.wf(),
    ensures
        ({
            let eff = spec_validate(s0, n);
            &&& (match eff.identity {
                ClientIdentity::Unknown => true,
                ClientIdentity::Initiator => s0.spec_role() == Role::Initiator,
                ClientIdentity::Responder(a) => s0.spec_role() == Role::Responder && a >= 2,
            })
            &&& (s0.spec_identity() != ClientIdentity::Unknown ==> eff.identity
                == s0.spec_identity())
            &&& wf_cookie_pair(eff.server.cookie_pair)
            &&& eff.server.cookie_pair.ours == s0.spec_server().cookie_pair.ours
            &&& (s0.spec_server().cookie_pair.theirs matches Some(c) ==> eff.server.cookie_pair.theirs
                == Some(c))
            &&& (s0.spec_server().csn_pair.theirs matches Some(c) ==> (eff.server.csn_pair.theirs
                matches Some(c2) && c2.value() >= c.value()))
            &&& eff.server.handshake_state == s0.spec_server().handshake_state
            &&& eff.server.permanent_key == s0.spec_server().permanent_key
            &&& eff.server.session_key == s0.spec_server().session_key
            &&& eff.server.csn_pair.ours == s0.spec_server().csn_pair.ours
            &&& wf_responders(eff.responders)
            &&& (eff.initiator matches Some(ic) ==> wf_cookie_pair(ic.cookie_pair))
        }),
{
    let eff = spec_validate(s0, n);
    let server0 = s0.spec_server();
    let src = n.source;
    lemma_validate_peer_props(
        server0.csn_pair,
        server0.cookie_pair,
        spec_identity_string(Identity::Server),
        n,
    );
    match s0.spec_init_ctx() {
        Some(ic) => {
            lemma_validate_peer_props(
                ic.csn_pair,
                ic.cookie_pair,
                spec_identity_string(Identity::Initiator),
                n,
            );
        },
        None => {},
    }
    let rs0 = s0.spec_responders();
    let i = spec_find_responder(rs0, src, 0);
    if src.0 >= 2 && i >= 0 {
        lemma_find_some(rs0, src, 0);
        lemma_validate_peer_props(
            rs0[i].csn_pair,
            rs0[i].cookie_pair,
            spec_identity_string(spec_address_identity(src)),
            n,
        );
        assert(wf_responders(eff.responders)) by {
            assert(forall|j: int|
                0 <= j < rs0.len() && j != i ==> #[trigger] eff.responders[j] == rs0[j]);
            assert(eff.responders[i].address == rs0[i].address);
            assert(wf_cookie_pair(eff.responders[i].cookie_pair));
        }
    }
}

/// Everything the server-auth handling promises, stated over the state at
/// dispatch time: the guard errors, the role-specific checks with their
/// exact messages, the produced token and key frames, the advance to
/// `Done` and the peer handshake, and the possible error classes. Success
/// is owed wherever no random draw or counter limit can interfere.
pub open spec fn spec_server_auth_post(role: Role, id: ClientIdentity, ours_cookie: Seq<u8>,
    perm: KeyStore, auth_token: Option<AuthToken>, responders0: Seq<ResponderContext>,
    init0: Option<InitiatorContext>, mv: MessageV, r: SignalingResult<Vec<HandleAction>>,
    post: Signaling) -> bool {
    mv matches MessageV::ServerAuth { your_cookie, signed_keys, responders, initiator_connected }
        ==> ({
        &&& (id == ClientIdentity::Unknown ==> (r matches Err(e) && e matches
            SignalingError::Crash(s) && s@
            == "No identity assigned when receiving server-auth message"@))
        &&& (id != ClientIdentity::Unknown && your_cookie != ours_cookie ==> (r matches Err(e)
            && e matches SignalingError::InvalidMessage(s) && s@
            == "Cookie sent in server-auth message does not match our cookie"@))
        &&& (id != ClientIdentity::Unknown && your_cookie == ours_cookie && role == Role::Initiator
            ==> ({
            &&& (initiator_connected is Some ==> (r matches Err(e) && e matches
                SignalingError::InvalidMessage(s) && s@
                == "We're the initiator, but the `initiator_connected` field in the server-auth message is set"@))
            &&& (initiator_connected is None && responders is None ==> (r matches Err(e) && e
                matches SignalingError::InvalidMessage(s) && s@
                == "`responders` field in server-auth message not set"@))
            &&& (initiator_connected is None ==> (responders matches Some(addrs) ==> ({
                let has_low = exists|j: int| 0 <= j < addrs.len() && (#[trigger] addrs[j]) < 2;
                let has_dup = exists|i: int, j: int|
                    0 <= i < j < addrs.len() && (#[trigger] addrs[i]) == (#[trigger] addrs[j]);
                &&& (has_low ==> (r matches Err(e) && e matches SignalingError::InvalidMessage(s)
                    && s@
                    == "`responders` field in server-auth message may not contain addresses <0x02"@))
                &&& (!has_low && has_dup ==> (r matches Err(e) && e matches
                    SignalingError::InvalidMessage(s) && s@
                    == "`responders` field in server-auth message may not contain duplicates"@))
                &&& (!has_low && !has_dup ==> (r matches Ok(actions) && actions@.len() == 0 && (
                post matches Signaling::Initiator(s1) && (responders0.len() == 0
                    ==> s1.responders@.len() == addrs.len() && (forall|j: int|
                    0 <= j < addrs.len() ==> fresh_responder_for(
                        #[trigger] s1.responders@[j],
                        Address(addrs[j]),
                    ))))))
            })))
        }))
        &&& (id != ClientIdentity::Unknown && your_cookie == ours_cookie && role == Role::Responder
            ==> ({
            &&& (responders is Some ==> (r matches Err(e) && e matches
                SignalingError::InvalidMessage(s) && s@
                == "We're a responder, but the `responders` field in the server-auth message is set"@))
            &&& (responders is None && initiator_connected is None ==> (r matches Err(e) && e
                matches SignalingError::InvalidMessage(s) && s@
                == "We're a responder, but the `initiator_connected` field in the server-auth message is not set"@))
            &&& (responders is None && initiator_connected == Some(false) ==> (r matches Ok(
                actions,
            ) && actions@.len() == 0 && (post matches Signaling::Responder(s1) && init0 matches
                Some(ic0) && s1.initiator == ic0)))
            &&& (responders is None && initiator_connected == Some(true) ==> (init0 matches Some(
                ic0,
            ) ==> match r {
                Ok(actions) => {
                    let k: int = if auth_token is Some {
                        2int
                    } else {
                        1int
                    };
                    &&& actions@.len() == k
                    &&& (post matches Signaling::Responder(s1) && ({
                        &&& s1.session_key matches Some(sk) && sk.wf() && sk.spec_private()@
                            != perm.spec_private()@
                        &&& s1.initiator.handshake_state == InitiatorHandshakeState::KeySent
                        &&& s1.initiator.csn_pair.ours.value() == ic0.csn_pair.ours.value() + k
                        &&& (auth_token matches Some(t) ==> (actions@[0] matches
                            HandleAction::Reply(bb) && {
                            &&& bb.bytes@ == crate::crypto::spec_secretbox_seal(
                                t@,
                                spec_nonce_bytes(bb.nonce),
                                spec_encode(MessageV::Token { key: perm.spec_public()@ }),
                            )
                            &&& bb.nonce.cookie == ic0.cookie_pair.ours
                            &&& bb.nonce.source == Address(spec_client_identity_address(id))
                            &&& bb.nonce.destination == Address(1)
                            &&& bb.nonce.csn.value() == ic0.csn_pair.ours.value() + 1
                        }))
                        &&& (actions@[k - 1] matches HandleAction::Reply(bb) && {
                            &&& bb.bytes@ == crate::crypto::spec_box_seal(
                                perm.spec_private()@,
                                ic0.permanent_key@,
                                spec_nonce_bytes(bb.nonce),
                                spec_encode(
                                    MessageV::Key {
                                        key: s1.session_key->Some_0.spec_public()@,
                                    },
                                ),
                            )
                            &&& bb.nonce.cookie == ic0.cookie_pair.ours
                            &&& bb.nonce.source == Address(spec_client_identity_address(id))
                            &&& bb.nonce.destination == Address(1)
                            &&& bb.nonce.csn.value() == ic0.csn_pair.ours.value() + k
                        })
                    }))
                },
                Err(e) => e == SignalingError::CsnOverflow || e matches SignalingError::Crash(_),
            }))
        }))
        &&& (r is Ok ==> post.spec_server().handshake_state == ServerHandshakeState::Done
            && post.spec_state() == SignalingState::PeerHandshake)
        &&& (r matches Err(e) ==> (e matches SignalingError::Crash(_) || e matches
            SignalingError::InvalidMessage(_) || e == SignalingError::CsnOverflow))
    })
}

/// Everything the new-responder handling promises: the protocol error for
/// the responder role, the responder-range check, and the fresh
/// replace-or-append registration for the initiator.
pub open spec fn spec_new_responder_post(role: Role, responders0: Seq<ResponderContext>, id: u8,
    r: SignalingResult<Vec<HandleAction>>, post: Signaling) -> bool {
    &&& (role == Role::Responder ==> (r matches Err(e) && e matches SignalingError::Protocol(s)
        && s@ == "Received 'new-responder' message as responder"@))
    &&& (role == Role::Initiator ==> ({
        &&& (id < 2 ==> (r matches Err(e) && e matches SignalingError::InvalidMessage(s) && s@
            == "`id` field in new-responder message is not a valid responder address"@))
        &&& (id >= 2 ==> (r matches Ok(a) && a@.len() == 0 && (post matches Signaling::Initiator(
            s1,
        ) && ({
            let i = spec_find_responder(responders0, Address(id), 0);
            if i >= 0 {
                s1.responders@.len() == responders0.len() && fresh_responder_for(
                    s1.responders@[i],
                    Address(id),
                )
            } else {
                s1.responders@.len() == responders0.len() + 1 && fresh_responder_for(
                    s1.responders@[responders0.len() as int],
                    Address(id),
                )
            }
        }))))
    }))
}

/// The transitions the server handshake defines.
pub open spec fn spec_server_msg_defined(st: ServerHandshakeState, mv: MessageV) -> bool {
    ||| (st is New && mv matches MessageV::ServerHello { .. })
    ||| (st is ClientInfoSent && mv matches MessageV::ServerAuth { .. })
    ||| (st is Done && (mv matches MessageV::NewResponder { .. } || mv matches
        MessageV::DropResponder { .. } || mv matches MessageV::SendError { .. }))
}

/// The name of a server handshake state, as shown in error messages.
pub open spec fn spec_server_state_name(st: ServerHandshakeState) -> Seq<char> {
    match st {
        ServerHandshakeState::New => "New"@,
        ServerHandshakeState::ClientInfoSent => "ClientInfoSent"@,
        ServerHandshakeState::Done => "Done"@,
        ServerHandshakeState::Failure(_) => "Failure"@,
    }
}

/// Two views of an address list, one as bytes and one as addresses,
/// agree on the responder-range and duplicate checks.
proof fn lemma_addr_bytes_bridge(bytes: Seq<u8>, rs: Seq<Address>)
    requires
        bytes.len() == rs.len(),
        forall|j: int| 0 <= j < rs.len() ==> #[trigger] bytes[j] == rs[j].0,
    ensures
        ((exists|j: int| 0 <= j < bytes.len() && (#[trigger] bytes[j]) < 2) <==> (exists|j: int|
            0 <= j < rs.len() && (#[trigger] rs[j]).0 < 2)),
        ((exists|i: int, j: int|
            0 <= i < j < bytes.len() && (#[trigger] bytes[i]) == (#[trigger] bytes[j])) <==> (
        exists|i: int, j: int|
            0 <= i < j < rs.len() && (#[trigger] rs[i]).0 == (#[trigger] rs[j]).0)),
{
    if exists|j: int| 0 <= j < bytes.len() && (#[trigger] bytes[j]) < 2 {
        let j = choose|j: int| 0 <= j < bytes.len() && (#[trigger] bytes[j]) < 2;
        assert(rs[j].0 < 2);
    }
    if exists|j: int| 0 <= j < rs.len() && (#[trigger] rs[j]).0 < 2 {
        let j = choose|j: int| 0 <= j < rs.len() && (#[trigger] rs[j]).0 < 2;
        assert(bytes[j] < 2);
    }
    if exists|i: int, j: int|
        0 <= i < j < bytes.len() && (#[trigger] bytes[i]) == (#[trigger] bytes[j]) {
        let (i, j) = choose|i: int, j: int|
            0 <= i < j < bytes.len() && (#[trigger] bytes[i]) == (#[trigger] bytes[j]);
        assert(rs[i].0 == rs[j].0);
    }
    if exists|i: int, j: int|
        0 <= i < j < rs.len() && (#[trigger] rs[i]).0 == (#[trigger] rs[j]).0 {
        let (i, j) = choose|i: int, j: int|
            0 <= i < j < rs.len() && (#[trigger] rs[i]).0 == (#[trigger] rs[j]).0;
        assert(bytes[i] == bytes[j]);
    }
}

impl Signaling {
    /// Move the signaling state forward. Going back from the peer handshake
    /// to the server handshake, or anywhere from the task phase, is
    /// invalid.
    fn set_signaling_state(&mut self, state: SignalingState) -> (r: SignalingResult<()>)
        ensures
            final(self).spec_role() == old(self).spec_role(),
            final(self).spec_identity() == old(self).spec_identity(),
            final(self).spec_server() == old(self).spec_server(),
            final(self).spec_permanent_key() == old(self).spec_permanent_key(),
            final(self).spec_auth_token() == old(self).spec_auth_token(),
            final(self).spec_responders() == old(self).spec_responders(),
            ((*old(self)) matches Signaling::Responder(s) ==> (*final(self)) matches
                Signaling::Responder(s2) && s2.initiator == s.initiator && s2.session_key
                == s.session_key),
            ((*old(self)) matches Signaling::Initiator(s) ==> (*final(self)) matches
                Signaling::Initiator(s2) && s2.responder == s.responder),
            match r {
                Ok(()) => final(self).spec_state() == state && !(old(self).spec_state()
                    == SignalingState::Task || (old(self).spec_state()
                    == SignalingState::PeerHandshake && state == SignalingState::ServerHandshake)),
                Err(e) => {
                    &&& *final(self) == *old(self)
                    &&& e matches SignalingError::InvalidStateTransition(_)
                    &&& (old(self).spec_state() == SignalingState::Task || (old(self).spec_state()
                        == SignalingState::PeerHandshake && state
                        == SignalingState::ServerHandshake))
                },
            },
    {
        let current = self.signaling_state();
        match current {
            SignalingState::ServerHandshake => {
                match self {
                    Signaling::Initiator(s) => s.signaling_state = state,
                    Signaling::Responder(s) => s.signaling_state = state,
                }
                Ok(())
            },
            SignalingState::PeerHandshake => {
                if state == SignalingState::ServerHandshake {
                    Err(
                        SignalingError::InvalidStateTransition(
                            String::from_str(
                                "Signaling state may not move back to the server handshake",
                            ),
                        ),
                    )
                } else {
                    match self {
                        Signaling::Initiator(s) => s.signaling_state = state,
                        Signaling::Responder(s) => s.signaling_state = state,
                    }
                    Ok(())
                }
            },
            SignalingState::Task => Err(
                SignalingError::InvalidStateTransition(
                    String::from_str("Signaling state may not change once the task runs"),
                ),
            ),
        }
    }

    /// Handle an incoming server-auth: the identity must have been
    /// assigned by the validator, the echoed cookie must be our own; the
    /// role-specific checks run, then the server handshake is done and the
    /// peer handshake begins.
    fn handle_server_auth(&mut self, msg: ServerAuth) -> (r: SignalingResult<Vec<HandleAction>>)
        requires
            old(self).wf(),
        ensures
            final(self).wf(),
            final(self).spec_role() == old(self).spec_role(),
            final(self).spec_identity() == old(self).spec_identity(),
            final(self).spec_permanent_key() == old(self).spec_permanent_key(),
            final(self).spec_auth_token() == old(self).spec_auth_token(),
            final(self).spec_server().cookie_pair == old(self).spec_server().cookie_pair,
            final(self).spec_server().csn_pair.theirs == old(self).spec_server().csn_pair.theirs,
            final(self).spec_state() == old(self).spec_state() || final(self).spec_state()
                == SignalingState::PeerHandshake,
            (old(self).spec_identity() == ClientIdentity::Unknown ==> (r matches Err(e) && e
                matches SignalingError::Crash(c) && c@
                == "No identity assigned when receiving server-auth message"@ && *final(self)
                == *old(self))),
            (old(self).spec_identity() != ClientIdentity::Unknown && msg.your_cookie@ != old(
                self,
            ).spec_server().cookie_pair.ours@ ==> (r matches Err(e) && e matches
                SignalingError::InvalidMessage(c) && c@
                == "Cookie sent in server-auth message does not match our cookie"@ && *final(self)
                == *old(self))),
            (r is Ok ==> final(self).spec_server().handshake_state == ServerHandshakeState::Done
                && final(self).spec_state() == SignalingState::PeerHandshake),
            spec_server_auth_post(
                old(self).spec_role(),
                old(self).spec_identity(),
                old(self).spec_server().cookie_pair.ours@,
                old(self).spec_permanent_key(),
                old(self).spec_auth_token(),
                old(self).spec_responders(),
                old(self).spec_init_ctx(),
                Message::ServerAuth(msg)@,
                r,
                *final(self),
            ),
    {
        proof {
            if msg.responders is Some {
                let bytes = Message::ServerAuth(msg)@->ServerAuth_responders->Some_0;
                let addrs = msg.responders->Some_0@;
                assert(bytes.len() == addrs.len());
                assert(forall|j: int| 0 <= j < addrs.len() ==> #[trigger] bytes[j] == addrs[j].0);
                lemma_addr_bytes_bridge(bytes, addrs);
            }
        }
        if self.identity() == ClientIdentity::Unknown {
            return Err(
                SignalingError::Crash(
                    String::from_str("No identity assigned when receiving server-auth message"),
                ),
            );
        }
        if !msg.your_cookie.same_as(&self.server().cookie_pair.ours) {
            return Err(
                SignalingError::InvalidMessage(
                    String::from_str(
                        "Cookie sent in server-auth message does not match our cookie",
                    ),
                ),
            );
        }
        let actions = match self {
            Signaling::Initiator(s) => match s.handle_server_auth(&msg) {
                Ok(a) => a,
                Err(e) => {
                    return Err(e);
                },
            },
            Signaling::Responder(s) => match s.handle_server_auth(&msg) {
                Ok(a) => a,
                Err(e) => {
                    return Err(e);
                },
            },
        };
        self.server_mut().handshake_state = ServerHandshakeState::Done;
        match self.set_signaling_state(SignalingState::PeerHandshake) {
            Ok(()) => {},
            Err(e) => {
                return Err(e);
            },
        }
        Ok(actions)
    }

    /// Handle a message from the server, dispatching on the server
    /// handshake state and the message kind.
    fn handle_server_message(&mut self, obox: OpenBox) -> (r: SignalingResult<Vec<HandleAction>>)
        requires
            old(self).wf(),
        ensures
            final(self).wf(),
            final(self).spec_role() == old(self).spec_role(),
            final(self).spec_identity() == old(self).spec_identity(),
            final(self).spec_permanent_key() == old(self).spec_permanent_key(),
            final(self).spec_auth_token() == old(self).spec_auth_token(),
            final(self).spec_server().cookie_pair == old(self).spec_server().cookie_pair,
            final(self).spec_server().csn_pair.theirs == old(self).spec_server().csn_pair.theirs,
            final(self).spec_state() == old(self).spec_state() || final(self).spec_state()
                == SignalingState::PeerHandshake,
            (old(self).spec_server().handshake_state is ClientInfoSent ==> (obox.message@ matches
                MessageV::ServerAuth { .. } ==> spec_server_auth_post(
                old(self).spec_role(),
                old(self).spec_identity(),
                old(self).spec_server().cookie_pair.ours@,
                old(self).spec_permanent_key(),
                old(self).spec_auth_token(),
                old(self).spec_responders(),
                old(self).spec_init_ctx(),
                obox.message@,
                r,
                *final(self),
            ))),
            (old(self).spec_server().handshake_state is Done ==> (obox.message@ matches
                MessageV::NewResponder { id } ==> spec_new_responder_post(
                old(self).spec_role(),
                old(self).spec_responders(),
                id,
                r,
                *final(self),
            ))),
            (old(self).spec_server().handshake_state is Done && (obox.message@ matches
                MessageV::DropResponder { .. } || obox.message@ matches MessageV::SendError {
                ..
            }) ==> (r matches Ok(a) && a@.len() == 0 && *final(self) == *old(self))),
            (!spec_server_msg_defined(old(self).spec_server().handshake_state, obox.message@)
                ==> (r matches Err(e) && e matches SignalingError::InvalidStateTransition(s) && s@
                == "Got "@ + crate::messages::spec_msg_type(obox.message@)
                + " message from server in "@ + spec_server_state_name(
                old(self).spec_server().handshake_state,
            ) + " state"@ && *final(self) == *old(self))),
            (({
                &&& old(self).spec_server().handshake_state is New
                &&& obox.message@ matches MessageV::ServerHello { .. }
                &&& old(self).spec_server().permanent_key is None
                &&& old(self).spec_server().cookie_pair.theirs is Some
                &&& old(self).spec_server().csn_pair.ours.value() + 2 <= crate::csn::spec_csn_max()
            }) ==> (r matches Ok(actions) && ({
                let srv0 = old(self).spec_server();
                let key = obox.message@->ServerHello_key;
                let k: int = if old(self).spec_role() == Role::Responder {
                    2int
                } else {
                    1int
                };
                &&& actions@.len() == k
                &&& final(self).spec_server().handshake_state
                    == ServerHandshakeState::ClientInfoSent
                &&& final(self).spec_server().permanent_key matches Some(pk) && pk@ == key
                &&& (old(self).spec_role() == Role::Responder ==> (actions@[0] matches
                    HandleAction::Reply(bb) && {
                    &&& bb.bytes@ == spec_encode(
                        MessageV::ClientHello {
                            key: old(self).spec_permanent_key().spec_public()@,
                        },
                    )
                    &&& bb.nonce.cookie == srv0.cookie_pair.ours
                    &&& bb.nonce.source == Address(
                        spec_client_identity_address(old(self).spec_identity()),
                    )
                    &&& bb.nonce.destination == Address(0)
                    &&& bb.nonce.csn.value() == srv0.csn_pair.ours.value() + 1
                }))
                &&& (actions@[k - 1] matches HandleAction::Reply(bb) && {
                    &&& bb.bytes@ == crate::crypto::spec_box_seal(
                        old(self).spec_permanent_key().spec_private()@,
                        key,
                        spec_nonce_bytes(bb.nonce),
                        spec_encode(spec_client_auth_msg(srv0.cookie_pair.theirs->Some_0@)),
                    )
                    &&& bb.nonce.cookie == srv0.cookie_pair.ours
                    &&& bb.nonce.source == Address(
                        spec_client_identity_address(old(self).spec_identity()),
                    )
                    &&& bb.nonce.destination == Address(0)
                    &&& bb.nonce.csn.value() == srv0.csn_pair.ours.value() + k
                })
            }))),
    {
        let state = self.server().handshake_state();
        match (state, obox.message) {
            (ServerHandshakeState::New, Message::ServerHello(msg)) => {
                if self.server().cookie_pair.theirs.is_none() {
                    // The validator records the server cookie before any
                    // message is handled.
                    return Err(
                        SignalingError::Crash(
                            String::from_str("Server cookie not yet known"),
                        ),
                    );
                }
                self.handle_server_hello(msg)
            },
            (ServerHandshakeState::ClientInfoSent, Message::ServerAuth(msg)) => self
                .handle_server_auth(msg),
            (ServerHandshakeState::Done, Message::NewResponder(msg)) => {
                match self {
                    Signaling::Initiator(s) => s.handle_new_responder(msg),
                    Signaling::Responder(s) => s.handle_new_responder(msg),
                }
            },
            (ServerHandshakeState::Done, Message::DropResponder(_msg)) => {
                // A hook point: accepted structurally, nothing required of
                // the handshake core.
                Ok(Vec::new())
            },
            (ServerHandshakeState::Done, Message::SendError(_msg)) => {
                // A hook point, as above.
                Ok(Vec::new())
            },
            (s, message) => {
                let state_name: &'static str = match s {
                    ServerHandshakeState::New => "New",
                    ServerHandshakeState::ClientInfoSent => "ClientInfoSent",
                    ServerHandshakeState::Done => "Done",
                    ServerHandshakeState::Failure(_) => "Failure",
                };
                let msg = String::from_str("Got ").concat(message.get_type()).concat(
                    " message from server in ",
                ).concat(state_name).concat(" state");
                Err(SignalingError::InvalidStateTransition(msg))
            },
        }
    }

    /// Handle an incoming frame: validate the nonce, decode or decrypt the
    /// payload, and dispatch to the state machine. The returned frames must
    /// be sent in list order.
    pub fn handle_message(&mut self, bbox: ByteBox) -> (r: SignalingResult<Vec<HandleAction>>)
        requires
            old(self).wf(),
        ensures
            final(self).wf(),
            final(self).spec_role() == old(self).spec_role(),
            final(self).spec_permanent_key() == old(self).spec_permanent_key(),
            final(self).spec_auth_token() == old(self).spec_auth_token(),
            old(self).spec_identity() != ClientIdentity::Unknown ==> final(self).spec_identity()
                == old(self).spec_identity(),
            final(self).spec_server().cookie_pair.ours == old(self).spec_server().cookie_pair.ours,
            (old(self).spec_server().cookie_pair.theirs matches Some(c) ==> final(self).spec_server().cookie_pair.theirs == Some(c)),
            (old(self).spec_server().csn_pair.theirs matches Some(c) ==> (final(self).spec_server().csn_pair.theirs matches Some(c2) && c2.value() >= c.value())),
            ({
                let eff = spec_validate(*old(self), bbox.nonce);
                // The identity is exactly what the validator assigned, on
                // every path.
                &&& final(self).spec_identity() == eff.identity
                &&& (eff.outcome matches SpecValidation::Reject(m) ==> (r matches Err(e) && e
                    matches SignalingError::InvalidNonce(reason) && reason@ == m))
                &&& (eff.outcome matches SpecValidation::Drop(_) ==> (r matches Ok(a) && a@.len()
                    == 0))
                // A rejected or dropped frame changes nothing beyond the
                // validator's own record updates.
                &&& (!(eff.outcome == SpecValidation::Accept) ==> ({
                    &&& final(self).spec_server() == eff.server
                    &&& final(self).spec_responders() == eff.responders
                    &&& final(self).spec_init_ctx() == eff.initiator
                    &&& final(self).spec_session_key() == old(self).spec_session_key()
                    &&& final(self).spec_state() == old(self).spec_state()
                }))
                &&& (eff.outcome == SpecValidation::Accept && bbox.nonce.source.0 == 0 ==> ({
                    // The server's stored counter strictly increases on
                    // every accepted frame ...
                    &&& final(self).spec_server().csn_pair.theirs == Some(bbox.nonce.csn)
                    &&& (old(self).spec_server().csn_pair.theirs matches Some(c)
                        ==> bbox.nonce.csn.value() > c.value())
                    // ... and the server's cookie is recorded from the
                    // first accepted frame and always differs from ours.
                    &&& (old(self).spec_server().cookie_pair.theirs is None ==> final(self).spec_server().cookie_pair.theirs == Some(bbox.nonce.cookie)
                        && bbox.nonce.cookie@ != old(self).spec_server().cookie_pair.ours@)
                }))
            }),
            (({
                let eff = spec_validate(*old(self), bbox.nonce);
                &&& eff.outcome == SpecValidation::Accept
                &&& bbox.nonce.source.0 == 0
                &&& old(self).spec_state() == SignalingState::ServerHandshake
                &&& old(self).spec_server().handshake_state is New
                &&& old(self).spec_server().permanent_key is None
                &&& old(self).spec_server().cookie_pair.theirs is None
                &&& old(self).spec_server().csn_pair.ours.value() + 2 <= crate::csn::spec_csn_max()
                &&& spec_decode(bbox.bytes@) matches DecodeOutcome::Msg(mv) && mv matches
                    MessageV::ServerHello { .. }
            }) ==> (r matches Ok(actions) && ({
                let srv0 = old(self).spec_server();
                let key = spec_decode(bbox.bytes@)->Msg_0->ServerHello_key;
                let k: int = if old(self).spec_role() == Role::Responder {
                    2int
                } else {
                    1int
                };
                &&& actions@.len() == k
                &&& final(self).spec_server().handshake_state
                    == ServerHandshakeState::ClientInfoSent
                &&& final(self).spec_server().permanent_key matches Some(pk) && pk@ == key
                &&& (old(self).spec_role() == Role::Responder ==> (actions@[0] matches
                    HandleAction::Reply(bb) && {
                    &&& bb.bytes@ == spec_encode(
                        MessageV::ClientHello {
                            key: old(self).spec_permanent_key().spec_public()@,
                        },
                    )
                    &&& bb.nonce.cookie == srv0.cookie_pair.ours
                    &&& bb.nonce.source == Address(
                        spec_client_identity_address(old(self).spec_identity()),
                    )
                    &&& bb.nonce.destination == Address(0)
                    &&& bb.nonce.csn.value() == srv0.csn_pair.ours.value() + 1
                }))
                &&& (actions@[k - 1] matches HandleAction::Reply(bb) && {
                    &&& bb.bytes@ == crate::crypto::spec_box_seal(
                        old(self).spec_permanent_key().spec_private()@,
                        key,
                        spec_nonce_bytes(bb.nonce),
                        spec_encode(spec_client_auth_msg(bbox.nonce.cookie@)),
                    )
                    &&& bb.nonce.cookie == srv0.cookie_pair.ours
                    &&& bb.nonce.source == Address(
                        spec_client_identity_address(old(self).spec_identity()),
                    )
                    &&& bb.nonce.destination == Address(0)
                    &&& bb.nonce.csn.value() == srv0.csn_pair.ours.value() + k
                })
            }))),
            ({
                let eff = spec_validate(*old(self), bbox.nonce);
                let srv0 = old(self).spec_server();
                let opened = crate::crypto::spec_box_open(
                    old(self).spec_permanent_key().spec_private()@,
                    srv0.permanent_key->Some_0@,
                    spec_nonce_bytes(bbox.nonce),
                    bbox.bytes@,
                );
                &&& (({
                    &&& eff.outcome == SpecValidation::Accept
                    &&& bbox.nonce.source.0 == 0
                    &&& srv0.handshake_state is ClientInfoSent
                    &&& srv0.permanent_key is Some
                    &&& opened is Some
                    &&& spec_decode(opened->Some_0) matches DecodeOutcome::Msg(mv) && mv matches
                        MessageV::ServerAuth { .. }
                }) ==> spec_server_auth_post(
                    old(self).spec_role(),
                    eff.identity,
                    srv0.cookie_pair.ours@,
                    old(self).spec_permanent_key(),
                    old(self).spec_auth_token(),
                    old(self).spec_responders(),
                    old(self).spec_init_ctx(),
                    spec_decode(opened->Some_0)->Msg_0,
                    r,
                    *final(self),
                ))
                &&& (({
                    &&& eff.outcome == SpecValidation::Accept
                    &&& bbox.nonce.source.0 == 0
                    &&& srv0.handshake_state is Done
                    &&& srv0.permanent_key is Some
                    &&& opened is Some
                    &&& spec_decode(opened->Some_0) matches DecodeOutcome::Msg(mv) && mv matches
                        MessageV::NewResponder { .. }
                }) ==> spec_new_responder_post(
                    old(self).spec_role(),
                    old(self).spec_responders(),
                    spec_decode(opened->Some_0)->Msg_0->NewResponder_id,
                    r,
                    *final(self),
                ))
            }),
    {
        proof {
            lemma_validate_props(*old(self), bbox.nonce);
            let eff = spec_validate(*old(self), bbox.nonce);
            if bbox.nonce.source.0 == 0 {
                assert(eff.responders == old(self).spec_responders());
                assert(eff.initiator == old(self).spec_init_ctx());
            }
            lemma_validate_peer_props(
                old(self).spec_server().csn_pair,
                old(self).spec_server().cookie_pair,
                spec_identity_string(Identity::Server),
                bbox.nonce,
            );
        }
        match self.validate_nonce(&bbox.nonce) {
            ValidationResult::Valid => {},
            ValidationResult::DropMsg(_warning) => {
                return Ok(Vec::new());
            },
            ValidationResult::Fail(reason) => {
                return Err(SignalingError::InvalidNonce(reason));
            },
        }
        let obox = match self.decode_msg(bbox) {
            Ok(o) => o,
            Err(e) => {
                return Err(e);
            },
        };
        match self.signaling_state() {
            SignalingState::ServerHandshake => self.handle_server_message(obox),
            SignalingState::PeerHandshake => {
                if obox.nonce.source().is_server() {
                    self.handle_server_message(obox)
                } else {
                    match self {
                        Signaling::Initiator(s) => s.handle_peer_message(obox),
                        Signaling::Responder(s) => s.handle_peer_message(obox),
                    }
                }
            },
            SignalingState::Task => Err(
                SignalingError::Crash(
                    String::from_str("task messages are not handled by this core"),
                ),
            ),
        }
    }
}

/// An empty search means no context holds the address.
proof fn lemma_find_neg(rs: Seq<ResponderContext>, addr: Address, k: int, j: int)
    requires
        0 <= k <= j < rs.len(),
        spec_find_responder(rs, addr, k) < 0,
    ensures
        rs[j].address != addr,
    decreases j - k,
{
    if k < j {
        lemma_find_neg(rs, addr, k + 1, j);
    }
}

} // verus!

//! Roles, identities and addresses of the signaling protocol.

use vstd::prelude::*;
use vstd::string::StringExecFns;

use crate::boxes::ByteBox;
use crate::text::{dec_u8, hex_byte, spec_dec_u8, spec_hex_byte};

verus! {

/// The role of a peer: the side that offers a session, or the side that
/// answers it. Both meet at a relaying server.
#[derive(Debug, PartialEq, Eq, Copy, Clone, Structural)]
pub enum Role {
    /// A client who wants to establish a peer-to-peer connection to a
    /// responder.
    Initiator,
    /// A client who wants to establish a peer-to-peer connection to an
    /// initiator.
    Responder,
}

impl Role {
    pub fn is_initiator(&self) -> (r: bool)
        ensures
            r == (*self == Role::Initiator),
    {
        match *self {
            Role::Initiator => true,
            Role::Responder => false,
        }
    }

    pub fn is_responder(&self) -> (r: bool)
        ensures
            r == (*self == Role::Responder),
    {
        match *self {
            Role::Initiator => false,
            Role::Responder => true,
        }
    }

    /// The name of the role.
    pub fn to_string(&self) -> (r: String)
        ensures
            r@ == spec_role_string(*self),
    {
        match *self {
            Role::Initiator => String::from_str("Initiator"),
            Role::Responder => String::from_str("Responder"),
        }
    }
}

pub open spec fn spec_role_string(role: Role) -> Seq<char> {
    match role {
        Role::Initiator => "Initiator"@,
        Role::Responder => "Responder"@,
    }
}

/// A peer identity. On the network level this is encoded as a single
/// unsigned byte.
#[derive(Debug, Copy, Clone, PartialEq, Eq, Hash, Structural)]
pub enum Identity {
    /// An unknown identity is encoded as `0x00`.
    Unknown,
    /// The initiator has the identity `0x01`.
    Initiator,
    /// A responder has an identity in the range `0x02..=0xff`.
    Responder(u8),
    /// The server has the identity `0x00`.
    Server,
}

pub open spec fn spec_identity_string(identity: Identity) -> Seq<char> {
    match identity {
        Identity::Unknown => "unknown"@,
        Identity::Initiator => "initiator"@,
        Identity::Responder(id) => "responder "@ + spec_dec_u8(id),
        Identity::Server => "server"@,
    }
}

impl Identity {
    /// The lowercase name of the identity.
    pub fn to_string(&self) -> (r: String)
        ensures
            r@ == spec_identity_string(*self),
    {
        match *self {
            Identity::Unknown => String::from_str("unknown"),
            Identity::Initiator => String::from_str("initiator"),
            Identity::Responder(id) => String::from_str("responder ").concat(dec_u8(id).as_str()),
            Identity::Server => String::from_str("server"),
        }
    }
}

/// A client identity: like [`Identity`], but the `Server` value is not
/// allowed. This is the identity the local peer gets assigned during the
/// server handshake.
#[derive(Debug, Copy, Clone, PartialEq, Eq, Hash, Structural)]
pub enum ClientIdentity {
    /// No identity has been assigned yet; encoded as `0x00`.
    Unknown,
    /// The initiator has the identity `0x01`.
    Initiator,
    /// A responder has an identity in the range `0x02..=0xff`.
    Responder(u8),
}

pub open spec fn spec_client_identity_string(identity: ClientIdentity) -> Seq<char> {
    match identity {
        ClientIdentity::Unknown => "Unknown"@,
        ClientIdentity::Initiator => "Initiator"@,
        ClientIdentity::Responder(id) => "Responder[0x"@ + spec_hex_byte(id) + "]"@,
    }
}

impl ClientIdentity {
    /// The name of the identity, a responder shown with its address in
    /// hexadecimal.
    pub fn to_string(&self) -> (r: String)
        ensures
            r@ == spec_client_identity_string(*self),
    {
        match *self {
            ClientIdentity::Unknown => String::from_str("Unknown"),
            ClientIdentity::Initiator => String::from_str("Initiator"),
            ClientIdentity::Responder(id) => String::from_str("Responder[0x").concat(
                hex_byte(id).as_str(),
            ).concat("]"),
        }
    }
}

/// An address byte, without any semantic information attached: `0x00` is the
/// server, `0x01` the initiator, and `0x02..=0xff` are responders.
#[derive(Debug, PartialEq, Eq, Copy, Clone, Hash, Structural)]
pub struct Address(pub u8);

pub open spec fn spec_address_string(addr: Address) -> Seq<char> {
    "Address(0x"@ + spec_hex_byte(addr.0) + ")"@
}

impl Address {
    /// Whether this address is the server address.
    pub fn is_server(&self) -> (r: bool)
        ensures
            r == (self.0 == 0x00),
    {
        self.0 == 0x00
    }

    /// Whether this address is the unassigned address.
    pub fn is_unknown(&self) -> (r: bool)
        ensures
            r == (self.0 == 0x00),
    {
        self.0 == 0x00
    }

    /// Whether this address is the initiator address.
    pub fn is_initiator(&self) -> (r: bool)
        ensures
            r == (self.0 == 0x01),
    {
        self.0 == 0x01
    }

    /// Whether this address is in the responder range.
    pub fn is_responder(&self) -> (r: bool)
        ensures
            r == (self.0 >= 0x02),
    {
        self.0 >= 0x02
    }

    /// The address shown with its byte in hexadecimal.
    pub fn to_string(&self) -> (r: String)
        ensures
            r@ == spec_address_string(*self),
    {
        String::from_str("Address(0x").concat(hex_byte(self.0).as_str()).concat(")")
    }
}

/// The address byte that encodes an identity.
pub open spec fn spec_identity_address(identity: Identity) -> u8 {
    match identity {
        Identity::Unknown => 0x00,
        Identity::Server => 0x00,
        Identity::Initiator => 0x01,
        Identity::Responder(addr) => addr,
    }
}

/// The address byte that encodes a client identity.
pub open spec fn spec_client_identity_address(identity: ClientIdentity) -> u8 {
    match identity {
        ClientIdentity::Unknown => 0x00,
        ClientIdentity::Initiator => 0x01,
        ClientIdentity::Responder(addr) => addr,
    }
}

/// The identity that an address byte denotes, `0x00` read as the server.
pub open spec fn spec_address_identity(addr: Address) -> Identity {
    if addr.0 == 0x00 {
        Identity::Server
    } else if addr.0 == 0x01 {
        Identity::Initiator
    } else {
        Identity::Responder(addr.0)
    }
}

impl From<Address> for Identity {
    /// Read an address byte as an identity; `0x00` is taken to be the server.
    fn from(val: Address) -> (r: Self) {
        if val.0 == 0x00 {
            Identity::Server
        } else if val.0 == 0x01 {
            Identity::Initiator
        } else {
            Identity::Responder(val.0)
        }
    }
}

impl vstd::std_specs::convert::FromSpecImpl<Address> for Identity {
    open spec fn obeys_from_spec() -> bool {
        true
    }

    open spec fn from_spec(val: Address) -> Self {
        spec_address_identity(val)
    }
}

impl From<ClientIdentity> for Address {
    /// The address that encodes a client identity.
    fn from(val: ClientIdentity) -> (r: Self) {
        match val {
            ClientIdentity::Unknown => Address(0x00),
            ClientIdentity::Initiator => Address(0x01),
            ClientIdentity::Responder(addr) => Address(addr),
        }
    }
}

impl vstd::std_specs::convert::FromSpecImpl<ClientIdentity> for Address {
    open spec fn obeys_from_spec() -> bool {
        true
    }

    open spec fn from_spec(val: ClientIdentity) -> Self {
        Address(spec_client_identity_address(val))
    }
}

impl From<Identity> for Address {
    /// The address that encodes an identity.
    fn from(val: Identity) -> (r: Self) {
        match val {
            Identity::Unknown => Address(0x00),
            Identity::Server => Address(0x00),
            Identity::Initiator => Address(0x01),
            Identity::Responder(addr) => Address(addr),
        }
    }
}

impl vstd::std_specs::convert::FromSpecImpl<Identity> for Address {
    open spec fn obeys_from_spec() -> bool {
        true
    }

    open spec fn from_spec(val: Identity) -> Self {
        Address(spec_identity_address(val))
    }
}

/// What the caller should do to finish handling an incoming message.
#[derive(Debug, PartialEq)]
pub enum HandleAction {
    /// Send the boxed frame to the server.
    Reply(ByteBox),
    /// No further action required.
    Pass,
}

/// A state together with the action its transition asks for.
#[derive(Debug, PartialEq)]
pub struct StateTransition<T> {
    /// The state resulting from the state transition.
    pub state: T,
    /// Any action that needs to be taken as a result of this transition.
    pub action: HandleAction,
}

impl<T> StateTransition<T> {
    pub fn new(state: T, action: HandleAction) -> (r: Self)
        ensures
            r.state == state,
            r.action == action,
    {
        StateTransition { state, action }
    }
}

impl<T> From<(T, HandleAction)> for StateTransition<T> {
    /// A pair of state and action makes a transition.
    fn from(val: (T, HandleAction)) -> (r: Self) {
        StateTransition { state: val.0, action: val.1 }
    }
}

impl<T> vstd::std_specs::convert::FromSpecImpl<(T, HandleAction)> for StateTransition<T> {
    open spec fn obeys_from_spec() -> bool {
        true
    }

    open spec fn from_spec(val: (T, HandleAction)) -> Self {
        StateTransition { state: val.0, action: val.1 }
    }
}

impl<T> From<T> for StateTransition<T> {
    /// A bare state makes a transition that asks for nothing.
    fn from(val: T) -> (r: Self) {
        StateTransition { state: val, action: HandleAction::Pass }
    }
}

impl<T> vstd::std_specs::convert::FromSpecImpl<T> for StateTransition<T> {
    open spec fn obeys_from_spec() -> bool {
        true
    }

    open spec fn from_spec(val: T) -> Self {
        StateTransition { state: val, action: HandleAction::Pass }
    }
}

impl From<u8> for Address {
    /// The address with the given byte value.
    fn from(val: u8) -> (r: Self) {
        Address(val)
    }
}

impl vstd::std_specs::convert::FromSpecImpl<u8> for Address {
    open spec fn obeys_from_spec() -> bool {
        true
    }

    open spec fn from_spec(val: u8) -> Self {
        Address(val)
    }
}

} // verus!

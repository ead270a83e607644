//! Tests for roles, identities, addresses, counters, cookies and nonces.

use saltyrtc_core::cookie::Cookie;
use saltyrtc_core::csn::{CombinedSequence, CombinedSequenceSnapshot};
use saltyrtc_core::errors::SignalingError;
use saltyrtc_core::nonce::Nonce;
use saltyrtc_core::state::ServerHandshakeState;
use saltyrtc_core::types::{Address, ClientIdentity, HandleAction, Identity, Role, StateTransition};

#[test]
fn client_identity_into_address() {
    let unknown = ClientIdentity::Unknown;
    let initiator = ClientIdentity::Initiator;
    let responder = ClientIdentity::Responder(0x13);

    assert_eq!(Address::from(unknown), Address(0x00));
    assert_eq!(Address::from(initiator), Address(0x01));
    assert_eq!(Address::from(responder), Address(0x13));
}

#[test]
fn address_display() {
    assert_eq!(Address(0).to_string(), "Address(0x00)");
    assert_eq!(Address(3).to_string(), "Address(0x03)");
    assert_eq!(Address(255).to_string(), "Address(0xff)");
}

#[test]
fn client_identity_display() {
    let unknown = ClientIdentity::Unknown;
    let initiator = ClientIdentity::Initiator;
    let responder = ClientIdentity::Responder(10);

    assert_eq!(unknown.to_string(), "Unknown");
    assert_eq!(initiator.to_string(), "Initiator");
    assert_eq!(responder.to_string(), "Responder[0x0a]");
}

#[test]
fn identity_display() {
    assert_eq!(Identity::Unknown.to_string(), "unknown");
    assert_eq!(Identity::Initiator.to_string(), "initiator");
    assert_eq!(Identity::Server.to_string(), "server");
    assert_eq!(Identity::Responder(13).to_string(), "responder 13");
    assert_eq!(Identity::Responder(255).to_string(), "responder 255");
}

#[test]
fn address_predicates() {
    assert!(Address(0).is_server());
    assert!(Address(0).is_unknown());
    assert!(Address(1).is_initiator());
    assert!(!Address(1).is_responder());
    assert!(Address(2).is_responder());
    assert!(Address(255).is_responder());
    assert!(Role::Initiator.is_initiator());
    assert!(Role::Responder.is_responder());
}

/// Test that states and tuples can be converted into a state transition.
#[test]
fn server_handshake_state_from() {
    let t1: StateTransition<_> =
        StateTransition::new(ServerHandshakeState::New, HandleAction::Pass);
    let t2: StateTransition<_> =
        StateTransition::new(ServerHandshakeState::New, HandleAction::Pass).into();
    let t3: StateTransition<_> = (ServerHandshakeState::New, HandleAction::Pass).into();
    let t4: StateTransition<_> = ServerHandshakeState::New.into();
    assert_eq!(t1, t2);
    assert_eq!(t1, t3);
    assert_eq!(t1, t4);
}

/// The peer MUST check that the combined sequence number of the source
/// peer has been increased by 1 and has not reset to 0.
#[test]
fn sequence_number_incremented() {
    // Exercised end to end in the replayed-frame validation test.
}

/// The peer MUST check that the cookie of the sender does not change.
#[test]
fn cookie_did_not_change() {
    // Exercised end to end in the replayed-frame validation test.
}

#[test]
fn csn_increment_steps() {
    let mut csn = CombinedSequence::new(0, 41);
    let snap = csn.increment().unwrap();
    assert_eq!(snap.overflow_number(), 0);
    assert_eq!(snap.sequence_number(), 42);

    let mut wrap = CombinedSequence::new(7, 0xFFFF_FFFF);
    let snap = wrap.increment().unwrap();
    assert_eq!(snap.overflow_number(), 8);
    assert_eq!(snap.sequence_number(), 0);
}

#[test]
fn csn_increment_overflow() {
    let mut saturated = CombinedSequence::new(0xFFFF, 0xFFFF_FFFF);
    assert_eq!(saturated.increment(), Err(SignalingError::CsnOverflow));
}

#[test]
fn csn_snapshot_order() {
    let a = CombinedSequenceSnapshot::new(0, 5);
    let b = CombinedSequenceSnapshot::new(0, 6);
    let c = CombinedSequenceSnapshot::new(1, 0);
    assert!(a.lt(&b));
    assert!(b.lt(&c));
    assert!(!c.lt(&a));
    assert_eq!(a, CombinedSequenceSnapshot::new(0, 5));
}

#[test]
fn nonce_byte_roundtrip() {
    let nonce = Nonce::new(
        Cookie::new([1, 2, 3, 4, 5, 6, 7, 8, 9, 10, 11, 12, 13, 14, 15, 16]),
        Address(17),
        Address(18),
        CombinedSequenceSnapshot::new(258, 50_595_078),
    );
    let bytes = nonce.to_bytes();
    assert_eq!(bytes.len(), 24);
    let parsed = Nonce::from_bytes(&bytes).unwrap();
    assert_eq!(parsed, nonce);
}

#[test]
fn nonce_from_bytes_wrong_length() {
    let err = Nonce::from_bytes(&vec![0u8; 23]).unwrap_err();
    assert_eq!(err, SignalingError::Decode("cannot decode nonce".into()));
    assert_eq!(err.to_string(), "decoding error: cannot decode nonce");
}

#[test]
fn cookie_equality() {
    let a = Cookie::new([7u8; 16]);
    let b = Cookie::new([7u8; 16]);
    let c = Cookie::new([8u8; 16]);
    assert!(a.same_as(&b));
    assert!(!a.same_as(&c));
    assert_eq!(a.as_bytes(), &[7u8; 16]);
}

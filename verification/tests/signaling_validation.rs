//! Tests for the nonce validator and its rejection paths.

use saltyrtc_core::boxes::{ByteBox, OpenBox};
use saltyrtc_core::cookie::Cookie;
use saltyrtc_core::crypto::{KeyStore, PublicKey};
use saltyrtc_core::csn::CombinedSequenceSnapshot;
use saltyrtc_core::errors::SignalingError;
use saltyrtc_core::messages::ServerHello;
use saltyrtc_core::nonce::Nonce;
use saltyrtc_core::signaling::Signaling;
use saltyrtc_core::state::ServerHandshakeState;
use saltyrtc_core::types::Address;

fn make_plain_msg(src: u8, dest: u8) -> ByteBox {
    let msg = ServerHello::random().into_message();
    let cs = CombinedSequenceSnapshot::random();
    let nonce = Nonce::new(Cookie::random(), Address(src), Address(dest), cs);
    let obox = OpenBox::new(msg, nonce);
    obox.encode()
}

/// A client MUST check that the destination address targets its assigned
/// identity (or 0x00 during authentication).
#[test]
fn first_message_wrong_destination() {
    let ks = KeyStore::new().unwrap();
    let mut s = Signaling::new_initiator(ks);

    let msg = ServerHello::random().into_message();
    let cs = CombinedSequenceSnapshot::random();
    let nonce = Nonce::new(Cookie::random(), Address(0), Address(1), cs);
    let obox = OpenBox::new(msg, nonce);
    let bbox = obox.encode();

    assert_eq!(s.server().handshake_state(), ServerHandshakeState::New);
    assert_eq!(
        s.handle_message(bbox),
        Err(SignalingError::InvalidNonce(
            "Bad destination: Address(0x01) (our identity is Unknown)".into()
        ))
    );
}

/// An initiator SHALL ONLY process messages from the server (0x00). As
/// soon as the initiator has been assigned an identity, it MAY ALSO accept
/// messages from other responders (0x02..0xff). Other messages SHALL be
/// discarded and SHOULD trigger a warning.
#[test]
fn wrong_source_initiator() {
    let ks = KeyStore::new().unwrap();
    let mut s = Signaling::new_initiator(ks);

    // Handling messages from initiator is always invalid (messages are ignored)
    assert_eq!(s.server().handshake_state(), ServerHandshakeState::New);
    let actions = s.handle_message(make_plain_msg(0x01, 0x00)).unwrap();
    assert_eq!(s.server().handshake_state(), ServerHandshakeState::New);
    assert_eq!(actions, vec![]);

    // Handling messages from responder is invalid as long as identity
    // hasn't been assigned (messages are ignored)
    assert_eq!(s.server().handshake_state(), ServerHandshakeState::New);
    let actions = s.handle_message(make_plain_msg(0xff, 0x00)).unwrap();
    assert_eq!(s.server().handshake_state(), ServerHandshakeState::New);
    assert_eq!(actions, vec![]);

    // Handling messages from the server is always valid
    assert_eq!(s.server().handshake_state(), ServerHandshakeState::New);
    let actions = s.handle_message(make_plain_msg(0x00, 0x00)).unwrap();
    assert_eq!(
        s.server().handshake_state(),
        ServerHandshakeState::ClientInfoSent
    );
    // Send only client-auth
    assert_eq!(actions.len(), 1);
}

/// A responder SHALL ONLY process messages from the server (0x00). As soon
/// as the responder has been assigned an identity, it MAY ALSO accept
/// messages from the initiator (0x01). Other messages SHALL be discarded
/// and SHOULD trigger a warning.
#[test]
fn wrong_source_responder() {
    let ks = KeyStore::new().unwrap();
    let initiator_pubkey = PublicKey::from_slice(&[0u8; 32]).unwrap();
    let mut s = Signaling::new_responder(ks, initiator_pubkey, None);

    // Handling messages from a responder is always invalid (messages are ignored)
    assert_eq!(s.server().handshake_state(), ServerHandshakeState::New);
    let actions = s.handle_message(make_plain_msg(0x03, 0x00)).unwrap();
    assert_eq!(s.server().handshake_state(), ServerHandshakeState::New);
    assert_eq!(actions, vec![]);

    // Handling messages from initiator is invalid as long as identity
    // hasn't been assigned (messages are ignored)
    assert_eq!(s.server().handshake_state(), ServerHandshakeState::New);
    let actions = s.handle_message(make_plain_msg(0x01, 0x00)).unwrap();
    assert_eq!(s.server().handshake_state(), ServerHandshakeState::New);
    assert_eq!(actions, vec![]);

    // Handling messages from the server is always valid
    assert_eq!(s.server().handshake_state(), ServerHandshakeState::New);
    let actions = s.handle_message(make_plain_msg(0x00, 0x00)).unwrap();
    assert_eq!(
        s.server().handshake_state(),
        ServerHandshakeState::ClientInfoSent
    );
    // Send client-hello and client-auth
    assert_eq!(actions.len(), 2);
}

/// In case this is the first message received from the sender, the peer
/// MUST check that the overflow number of the source peer is 0
#[test]
fn first_message_bad_overflow_number() {
    let ks = KeyStore::new().unwrap();
    let mut s = Signaling::new_initiator(ks);

    let msg = ServerHello::random().into_message();
    let cs = CombinedSequenceSnapshot::new(1, 1234);
    let nonce = Nonce::new(Cookie::random(), Address(0), Address(0), cs);
    let obox = OpenBox::new(msg, nonce);
    let bbox = obox.encode();

    assert_eq!(s.server().handshake_state(), ServerHandshakeState::New);
    assert_eq!(
        s.handle_message(bbox),
        Err(SignalingError::InvalidNonce(
            "First message from server must have set the overflow number to 0".into()
        ))
    );
}

/// In case this is the first message received from the sender, the
/// peer MUST check that the sender's cookie is different than its own
/// cookie.
#[test]
fn cookie_differs_from_own() {
    let ks = KeyStore::new().unwrap();
    let mut s = Signaling::new_initiator(ks);

    let msg = ServerHello::random().into_message();
    let cookie = s.server().cookie_pair.ours;
    let nonce = Nonce::new(
        cookie,
        Address(0),
        Address(0),
        CombinedSequenceSnapshot::random(),
    );
    let obox = OpenBox::new(msg, nonce);
    let bbox = obox.encode();

    assert_eq!(s.server().handshake_state(), ServerHandshakeState::New);
    assert_eq!(
        s.handle_message(bbox),
        Err(SignalingError::InvalidNonce(
            "Cookie from server is identical to our own cookie".into()
        ))
    );
}

/// The peer MUST check that the cookie of the sender stays the same and
/// that the combined sequence number strictly increases.
#[test]
fn replayed_frame_is_rejected() {
    let ks = KeyStore::new().unwrap();
    let mut s = Signaling::new_initiator(ks);

    let msg = ServerHello::random().into_message();
    let server_cookie = Cookie::random();
    let cs = CombinedSequenceSnapshot::new(0, 1234);
    let nonce = Nonce::new(server_cookie, Address(0), Address(0), cs);
    let bbox = OpenBox::new(msg.clone(), nonce).encode();
    s.handle_message(bbox).unwrap();

    // The same counter value again: rejected.
    let nonce2 = Nonce::new(server_cookie, Address(0), Address(0), cs);
    let bbox2 = OpenBox::new(msg.clone(), nonce2).encode();
    assert_eq!(
        s.handle_message(bbox2),
        Err(SignalingError::InvalidNonce(
            "server CSN hasn't been incremented".into()
        ))
    );

    // A lower counter value: rejected.
    let nonce3 = Nonce::new(
        server_cookie,
        Address(0),
        Address(0),
        CombinedSequenceSnapshot::new(0, 1000),
    );
    let bbox3 = OpenBox::new(msg.clone(), nonce3).encode();
    assert_eq!(
        s.handle_message(bbox3),
        Err(SignalingError::InvalidNonce(
            "server CSN is lower than last time".into()
        ))
    );

    // A changed cookie: rejected.
    let nonce4 = Nonce::new(
        Cookie::random(),
        Address(0),
        Address(0),
        CombinedSequenceSnapshot::new(0, 2000),
    );
    let bbox4 = OpenBox::new(msg, nonce4).encode();
    assert_eq!(
        s.handle_message(bbox4),
        Err(SignalingError::InvalidNonce("Cookie from server has changed".into()))
    );
}

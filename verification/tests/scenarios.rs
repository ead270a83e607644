//! End-to-end handshake scenarios, with the outbound frames decrypted and
//! inspected.

use saltyrtc_core::boxes::{ByteBox, OpenBox};
use saltyrtc_core::cookie::{Cookie, CookiePair};
use saltyrtc_core::crypto::{AuthToken, KeyStore};
use saltyrtc_core::csn::CombinedSequenceSnapshot;
use saltyrtc_core::errors::SignalingError;
use saltyrtc_core::messages::{Message, NewResponder, ServerAuth, ServerHello};
use saltyrtc_core::nonce::Nonce;
use saltyrtc_core::signaling::{subprotocol_bytes, Signaling};
use saltyrtc_core::state::{InitiatorHandshakeState, ServerHandshakeState, SignalingState};
use saltyrtc_core::types::{Address, ClientIdentity, HandleAction, Role};

fn server_hello_frame(server_ks: &KeyStore, cookie: Cookie) -> ByteBox {
    let msg = ServerHello::new(*server_ks.public_key()).into_message();
    let nonce = Nonce::new(
        cookie,
        Address(0),
        Address(0),
        CombinedSequenceSnapshot::new(0, 1),
    );
    OpenBox::new(msg, nonce).encode()
}

fn reply_frame(action: &HandleAction) -> &ByteBox {
    match action {
        HandleAction::Reply(bb) => bb,
        HandleAction::Pass => panic!("expected a reply"),
    }
}

/// Initiator server-hello reply path: one encrypted client-auth echoing
/// the server cookie.
#[test]
fn initiator_server_hello_reply_path() {
    let our_ks = KeyStore::new().unwrap();
    let server_ks = KeyStore::new().unwrap();
    let server_cookie = Cookie::random();
    let mut s = Signaling::new_initiator(KeyStore::from_private_key(*our_ks.private_key()));

    let actions = s
        .handle_message(server_hello_frame(&server_ks, server_cookie))
        .unwrap();
    assert_eq!(actions.len(), 1);
    assert_eq!(
        s.server().handshake_state(),
        ServerHandshakeState::ClientInfoSent
    );

    // The reply decrypts with the server's secret key and our public key.
    let bb = reply_frame(&actions[0]);
    let our_cookie = s.server().cookie_pair.ours;
    assert!(bb.nonce.cookie().same_as(&our_cookie));
    assert_eq!(bb.nonce.source(), Address(0));
    assert_eq!(bb.nonce.destination(), Address(0));
    let bbox = ByteBox::new(bb.bytes.clone(), bb.nonce);
    let obox = bbox.decrypt(&server_ks, our_ks.public_key()).unwrap();
    match obox.message {
        Message::ClientAuth(auth) => {
            assert!(auth.your_cookie.same_as(&server_cookie));
            assert_eq!(auth.subprotocols, vec![subprotocol_bytes()]);
            assert_eq!(auth.ping_interval, 0);
            assert!(auth.your_key.is_none());
        }
        other => panic!("expected client-auth, got {}", other.get_type()),
    }
}

/// Responder server-hello reply path: plaintext client-hello first, the
/// encrypted client-auth after it, in that order.
#[test]
fn responder_server_hello_reply_path() {
    let our_ks = KeyStore::new().unwrap();
    let server_ks = KeyStore::new().unwrap();
    let initiator_ks = KeyStore::new().unwrap();
    let server_cookie = Cookie::random();
    let mut s = Signaling::new_responder(
        KeyStore::from_private_key(*our_ks.private_key()),
        *initiator_ks.public_key(),
        None,
    );

    let actions = s
        .handle_message(server_hello_frame(&server_ks, server_cookie))
        .unwrap();
    assert_eq!(actions.len(), 2);
    assert_eq!(
        s.server().handshake_state(),
        ServerHandshakeState::ClientInfoSent
    );

    // First frame: the plaintext client-hello with our permanent key.
    let bb0 = reply_frame(&actions[0]);
    let obox0 = ByteBox::new(bb0.bytes.clone(), bb0.nonce).decode().unwrap();
    match obox0.message {
        Message::ClientHello(hello) => {
            assert!(hello.key.same_as(our_ks.public_key()));
        }
        other => panic!("expected client-hello, got {}", other.get_type()),
    }

    // Second frame: the encrypted client-auth.
    let bb1 = reply_frame(&actions[1]);
    let obox1 = ByteBox::new(bb1.bytes.clone(), bb1.nonce)
        .decrypt(&server_ks, our_ks.public_key())
        .unwrap();
    assert_eq!(obox1.message.get_type(), "client-auth");

    // The counters of the two frames step up in order.
    assert!(bb0.nonce.csn().lt(bb1.nonce.csn()));
}

/// Responder happy handshake with token: a token frame sealed with the
/// auth token, then a key frame sealed for the initiator's permanent key.
#[test]
fn responder_happy_handshake_with_token() {
    let our_ks = KeyStore::new().unwrap();
    let server_ks = KeyStore::new().unwrap();
    let initiator_ks = KeyStore::new().unwrap();
    let token = AuthToken::new();
    let our_cookie = Cookie::random();
    let server_cookie = Cookie::random();

    let mut s = Signaling::new_responder(
        KeyStore::from_private_key(*our_ks.private_key()),
        *initiator_ks.public_key(),
        Some(token),
    );
    s.set_identity(ClientIdentity::Responder(7));
    s.server_mut()
        .set_handshake_state(ServerHandshakeState::ClientInfoSent);
    s.server_mut().cookie_pair = CookiePair {
        ours: our_cookie,
        theirs: Some(server_cookie),
    };
    s.server_mut().permanent_key = Some(*server_ks.public_key());

    let msg = ServerAuth::for_responder(our_cookie, None, true).into_message();
    let nonce = Nonce::new(
        server_cookie,
        Address(0),
        Address(7),
        CombinedSequenceSnapshot::random(),
    );
    let bbox = OpenBox::new(msg, nonce).encrypt(&server_ks, our_ks.public_key());

    let actions = s.handle_message(bbox).unwrap();
    assert_eq!(actions.len(), 2);
    assert_eq!(s.signaling_state(), SignalingState::PeerHandshake);
    assert_eq!(
        s.as_responder().initiator.handshake_state,
        InitiatorHandshakeState::KeySent
    );

    // First frame: the token message, sealed with the auth token, carrying
    // our permanent public key.
    let bb0 = reply_frame(&actions[0]);
    assert_eq!(bb0.nonce.source(), Address(7));
    assert_eq!(bb0.nonce.destination(), Address(1));
    let obox0 = ByteBox::new(bb0.bytes.clone(), bb0.nonce)
        .decrypt_token(&token)
        .unwrap();
    match obox0.message {
        Message::Token(t) => assert!(t.key.same_as(our_ks.public_key())),
        other => panic!("expected token, got {}", other.get_type()),
    }

    // Second frame: the key message, sealed with our permanent key for the
    // initiator's permanent key, carrying a fresh session public key.
    let bb1 = reply_frame(&actions[1]);
    let obox1 = ByteBox::new(bb1.bytes.clone(), bb1.nonce)
        .decrypt(&initiator_ks, our_ks.public_key())
        .unwrap();
    match obox1.message {
        Message::Key(k) => {
            assert!(!k.key.same_as(our_ks.public_key()));
            let session = s.as_responder().session_key.as_ref().unwrap();
            assert!(k.key.same_as(session.public_key()));
        }
        other => panic!("expected key, got {}", other.get_type()),
    }
    assert!(bb0.nonce.csn().lt(bb1.nonce.csn()));
}

/// A duplicate server-hello is a protocol error.
#[test]
fn duplicate_server_hello_rejected() {
    let server_ks = KeyStore::new().unwrap();
    let mut s = Signaling::new_initiator(KeyStore::new().unwrap());
    // Pretend the server key is already known while still in `New`.
    s.server_mut().permanent_key = Some(*server_ks.public_key());
    let err = s
        .handle_message(server_hello_frame(&server_ks, Cookie::random()))
        .unwrap_err();
    assert_eq!(
        err,
        SignalingError::Protocol(
            "Got a server-hello message, but server permanent key is already set".into()
        )
    );
}

/// A message that no transition accepts fails the signaling.
#[test]
fn unexpected_message_rejected() {
    let mut s = Signaling::new_initiator(KeyStore::new().unwrap());
    let msg = NewResponder::new(Address(4)).into_message();
    let nonce = Nonce::new(
        Cookie::random(),
        Address(0),
        Address(0),
        CombinedSequenceSnapshot::random(),
    );
    let bbox = OpenBox::new(msg, nonce).encode();
    let err = s.handle_message(bbox).unwrap_err();
    assert_eq!(
        err,
        SignalingError::InvalidStateTransition(
            "Got new-responder message from server in New state".into()
        )
    );
}

/// An initiator registers a later responder through new-responder, and a
/// responder refuses the same message.
#[test]
fn new_responder_registration() {
    let our_ks = KeyStore::new().unwrap();
    let server_ks = KeyStore::new().unwrap();
    let our_cookie = Cookie::random();
    let server_cookie = Cookie::random();
    let mut s = Signaling::new_initiator(KeyStore::from_private_key(*our_ks.private_key()));
    s.set_identity(ClientIdentity::Initiator);
    s.server_mut().set_handshake_state(ServerHandshakeState::Done);
    s.server_mut().cookie_pair = CookiePair {
        ours: our_cookie,
        theirs: Some(server_cookie),
    };
    s.server_mut().permanent_key = Some(*server_ks.public_key());

    let msg = NewResponder::new(Address(9)).into_message();
    let nonce = Nonce::new(
        server_cookie,
        Address(0),
        Address(1),
        CombinedSequenceSnapshot::random(),
    );
    let bbox = OpenBox::new(msg, nonce).encrypt(&server_ks, our_ks.public_key());
    let actions = s.handle_message(bbox).unwrap();
    assert_eq!(actions, vec![]);
    match &s {
        Signaling::Initiator(i) => {
            assert_eq!(i.responders.len(), 1);
            assert_eq!(i.responders[0].address, Address(9));
        }
        Signaling::Responder(_) => panic!("Invalid inner signaling type"),
    }

    // An out-of-range id is rejected.
    let msg = NewResponder::new(Address(1)).into_message();
    let nonce = Nonce::new(
        server_cookie,
        Address(0),
        Address(1),
        CombinedSequenceSnapshot::new(0, u32::MAX),
    );
    let bbox = OpenBox::new(msg, nonce).encrypt(&server_ks, our_ks.public_key());
    let err = s.handle_message(bbox).unwrap_err();
    assert_eq!(
        err,
        SignalingError::InvalidMessage(
            "`id` field in new-responder message is not a valid responder address".into()
        )
    );
}

/// A responder receiving new-responder reports a protocol error.
#[test]
fn new_responder_rejected_by_responder() {
    let our_ks = KeyStore::new().unwrap();
    let server_ks = KeyStore::new().unwrap();
    let initiator_ks = KeyStore::new().unwrap();
    let our_cookie = Cookie::random();
    let server_cookie = Cookie::random();
    let mut s = Signaling::new_responder(
        KeyStore::from_private_key(*our_ks.private_key()),
        *initiator_ks.public_key(),
        None,
    );
    s.set_identity(ClientIdentity::Responder(5));
    s.server_mut().set_handshake_state(ServerHandshakeState::Done);
    s.server_mut().cookie_pair = CookiePair {
        ours: our_cookie,
        theirs: Some(server_cookie),
    };
    s.server_mut().permanent_key = Some(*server_ks.public_key());

    let msg = NewResponder::new(Address(9)).into_message();
    let nonce = Nonce::new(
        server_cookie,
        Address(0),
        Address(5),
        CombinedSequenceSnapshot::random(),
    );
    let bbox = OpenBox::new(msg, nonce).encrypt(&server_ks, our_ks.public_key());
    let err = s.handle_message(bbox).unwrap_err();
    assert_eq!(
        err,
        SignalingError::Protocol("Received 'new-responder' message as responder".into())
    );
}

/// The initiator hands out its auth token for the out-of-band transfer.
#[test]
fn initiator_has_auth_token() {
    let s = Signaling::new_initiator(KeyStore::new().unwrap());
    assert!(s.auth_token().is_some());
    assert_eq!(s.role(), Role::Initiator);
    let r = Signaling::new_responder(
        KeyStore::new().unwrap(),
        *KeyStore::new().unwrap().public_key(),
        None,
    );
    assert!(r.auth_token().is_none());
    assert_eq!(r.role(), Role::Responder);
}

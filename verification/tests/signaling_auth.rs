//! Tests for the server-auth handling of both roles, with the documented
//! protocol scenarios included.

use saltyrtc_core::boxes::{ByteBox, OpenBox};
use saltyrtc_core::context::ServerContext;
use saltyrtc_core::cookie::{Cookie, CookiePair};
use saltyrtc_core::crypto::{AuthToken, KeyStore, PublicKey};
use saltyrtc_core::csn::CombinedSequenceSnapshot;
use saltyrtc_core::errors::SignalingError;
use saltyrtc_core::messages::{Message, ServerAuth};
use saltyrtc_core::nonce::Nonce;
use saltyrtc_core::signaling::Signaling;
use saltyrtc_core::state::{InitiatorHandshakeState, ServerHandshakeState, SignalingState};
use saltyrtc_core::types::{Address, ClientIdentity, Identity, Role};

struct TestContext {
    pub our_ks: KeyStore,
    pub server_ks: KeyStore,
    pub our_cookie: Cookie,
    pub server_cookie: Cookie,
    pub signaling: Signaling,
}

fn make_test_signaling(
    role: Role,
    identity: ClientIdentity,
    handshake_state: ServerHandshakeState,
    auth_token: Option<AuthToken>,
) -> TestContext {
    let our_ks = KeyStore::new().unwrap();
    let server_ks = KeyStore::new().unwrap();
    let our_cookie = Cookie::random();
    let server_cookie = Cookie::random();
    let mut signaling = match role {
        Role::Initiator => Signaling::new_initiator(KeyStore::from_private_key(*our_ks.private_key())),
        Role::Responder => {
            let initiator_pubkey = PublicKey::from_slice(&[0u8; 32]).unwrap();
            Signaling::new_responder(
                KeyStore::from_private_key(*our_ks.private_key()),
                initiator_pubkey,
                auth_token,
            )
        }
    };
    signaling.set_identity(identity);
    signaling.server_mut().set_handshake_state(handshake_state);
    signaling.server_mut().cookie_pair = CookiePair {
        ours: our_cookie,
        theirs: Some(server_cookie),
    };
    signaling.server_mut().permanent_key = Some(*server_ks.public_key());
    TestContext {
        our_ks,
        server_ks,
        our_cookie,
        server_cookie,
        signaling,
    }
}

fn make_test_msg(msg: Message, ctx: &TestContext, dest_address: Address) -> ByteBox {
    let nonce = Nonce::new(
        ctx.server_cookie,
        Address(0),
        dest_address,
        CombinedSequenceSnapshot::random(),
    );
    let obox = OpenBox::new(msg, nonce);
    obox.encrypt(&ctx.server_ks, ctx.our_ks.public_key())
}

/// Assert that handling the specified byte box fails in ClientInfoSent
/// state with the specified error.
fn assert_client_info_sent_fail(ctx: &mut TestContext, bbox: ByteBox, error: SignalingError) {
    assert_eq!(
        ctx.signaling.server().handshake_state(),
        ServerHandshakeState::ClientInfoSent
    );
    assert_eq!(ctx.signaling.handle_message(bbox), Err(error))
}

// When the client receives a 'server-auth' message, it MUST have
// accepted and set its identity as described in the Receiving a
// Signalling Message section.
#[test]
fn server_auth_no_identity() {
    // Initialize signaling class
    let ctx = make_test_signaling(
        Role::Responder,
        ClientIdentity::Unknown,
        ServerHandshakeState::ClientInfoSent,
        None,
    );

    // Prepare a ServerAuth message
    let msg = ServerAuth::for_responder(ctx.our_cookie, None, false).into_message();
    let bbox = make_test_msg(msg, &ctx, Address(13));

    // Handle message
    let mut s = ctx.signaling;
    assert_eq!(
        s.server().handshake_state(),
        ServerHandshakeState::ClientInfoSent
    );
    let actions = s.handle_message(bbox).unwrap();
    assert_eq!(s.identity(), ClientIdentity::Responder(13));
    assert_eq!(actions, vec![]);
}

// The peer MUST check that the cookie provided in the your_cookie
// field contains the cookie the client has used in its
// previous and messages to the server.
#[test]
fn server_auth_your_cookie() {
    // Initialize signaling class
    let mut ctx = make_test_signaling(
        Role::Initiator,
        ClientIdentity::Initiator,
        ServerHandshakeState::ClientInfoSent,
        None,
    );

    // Prepare a ServerAuth message
    let msg = ServerAuth::for_initiator(Cookie::random(), None, vec![]).into_message();
    let bbox = make_test_msg(msg, &ctx, Address(1));

    // Handle message
    assert_client_info_sent_fail(
        &mut ctx,
        bbox,
        SignalingError::InvalidMessage(
            "Cookie sent in server-auth message does not match our cookie".into(),
        ),
    );
}

#[test]
fn server_auth_initiator_wrong_fields() {
    // Initialize signaling class
    let mut ctx = make_test_signaling(
        Role::Initiator,
        ClientIdentity::Initiator,
        ServerHandshakeState::ClientInfoSent,
        None,
    );

    // Prepare a ServerAuth message
    let msg = ServerAuth::for_responder(ctx.our_cookie, None, true).into_message();
    let bbox = make_test_msg(msg, &ctx, Address(1));

    // Handle message
    assert_client_info_sent_fail(&mut ctx, bbox,
        SignalingError::InvalidMessage(
            "We're the initiator, but the `initiator_connected` field in the server-auth message is set".into()));
}

#[test]
fn server_auth_initiator_missing_fields() {
    // Initialize signaling class
    let mut ctx = make_test_signaling(
        Role::Initiator,
        ClientIdentity::Initiator,
        ServerHandshakeState::ClientInfoSent,
        None,
    );

    // Prepare a ServerAuth message
    let msg = ServerAuth {
        your_cookie: ctx.our_cookie,
        signed_keys: None,
        responders: None,
        initiator_connected: None,
    }
    .into_message();
    let bbox = make_test_msg(msg, &ctx, Address(1));

    // Handle message
    assert_client_info_sent_fail(
        &mut ctx,
        bbox,
        SignalingError::InvalidMessage("`responders` field in server-auth message not set".into()),
    );
}

#[test]
fn server_auth_initiator_duplicate_fields() {
    // Initialize signaling class
    let mut ctx = make_test_signaling(
        Role::Initiator,
        ClientIdentity::Initiator,
        ServerHandshakeState::ClientInfoSent,
        None,
    );

    // Prepare a ServerAuth message
    let msg = ServerAuth::for_initiator(
        ctx.our_cookie,
        None,
        vec![Address(2), Address(3), Address(3)],
    )
    .into_message();
    let bbox = make_test_msg(msg, &ctx, Address(1));

    // Handle message
    assert_client_info_sent_fail(
        &mut ctx,
        bbox,
        SignalingError::InvalidMessage(
            "`responders` field in server-auth message may not contain duplicates".into(),
        ),
    );
    // The responder list stays empty.
    match &ctx.signaling {
        Signaling::Initiator(i) => assert_eq!(i.responders.len(), 0),
        Signaling::Responder(_) => panic!("Invalid inner signaling type"),
    };
}

#[test]
fn server_auth_initiator_invalid_fields() {
    // Initialize signaling class
    let mut ctx = make_test_signaling(
        Role::Initiator,
        ClientIdentity::Initiator,
        ServerHandshakeState::ClientInfoSent,
        None,
    );

    // Prepare a ServerAuth message
    let msg = ServerAuth::for_initiator(
        ctx.our_cookie,
        None,
        vec![Address(1), Address(2), Address(3)],
    )
    .into_message();
    let bbox = make_test_msg(msg, &ctx, Address(1));

    // Handle message
    assert_client_info_sent_fail(
        &mut ctx,
        bbox,
        SignalingError::InvalidMessage(
            "`responders` field in server-auth message may not contain addresses <0x02".into(),
        ),
    );
}

/// The client SHOULD store the responder's identities in its internal
/// list of responders.
#[test]
fn server_auth_initiator_stored_responder() {
    // Initialize signaling class
    let ctx = make_test_signaling(
        Role::Initiator,
        ClientIdentity::Initiator,
        ServerHandshakeState::ClientInfoSent,
        None,
    );

    // Prepare a ServerAuth message
    let msg =
        ServerAuth::for_initiator(ctx.our_cookie, None, vec![Address(2), Address(3)]).into_message();
    let bbox = make_test_msg(msg, &ctx, Address(1));

    // Handle message
    let mut s = ctx.signaling;
    assert_eq!(
        s.server().handshake_state(),
        ServerHandshakeState::ClientInfoSent
    );
    match &s {
        Signaling::Initiator(i) => assert_eq!(i.responders.len(), 0),
        Signaling::Responder(_) => panic!("Invalid inner signaling type"),
    };
    let actions = s.handle_message(bbox).unwrap();
    assert_eq!(s.server().handshake_state(), ServerHandshakeState::Done);
    match &s {
        Signaling::Initiator(i) => assert_eq!(i.responders.len(), 2),
        Signaling::Responder(_) => panic!("Invalid inner signaling type"),
    };
    assert_eq!(actions, vec![]);
}

/// The client SHALL check that the initiator_connected field contains
/// a boolean value.
#[test]
fn server_auth_responder_validate_initiator_connected() {
    // Initialize signaling class
    let mut ctx = make_test_signaling(
        Role::Responder,
        ClientIdentity::Responder(4),
        ServerHandshakeState::ClientInfoSent,
        None,
    );

    // Prepare a ServerAuth message
    let msg = ServerAuth {
        your_cookie: ctx.our_cookie,
        signed_keys: None,
        responders: None,
        initiator_connected: None,
    }
    .into_message();
    let bbox = make_test_msg(msg, &ctx, Address(4));

    // Handle message
    assert_client_info_sent_fail(&mut ctx, bbox,
        SignalingError::InvalidMessage(
            "We're a responder, but the `initiator_connected` field in the server-auth message is not set".into()));
}

/// In case the client is the responder, it SHALL check that the
/// initiator_connected field contains a boolean value. In case the
/// field's value is true, the responder MUST proceed with sending a
/// `token` or `key` client-to-client message described in the
/// Client-to-Client Messages section.
fn server_auth_respond_initiator(ctx: TestContext) -> Vec<saltyrtc_core::types::HandleAction> {
    // Prepare a ServerAuth message
    let msg = ServerAuth {
        your_cookie: ctx.our_cookie,
        signed_keys: None,
        responders: None,
        initiator_connected: Some(true),
    }
    .into_message();
    let bbox = make_test_msg(msg, &ctx, Address(7));

    // Signaling ref
    let mut s = ctx.signaling;

    // Handle message
    assert_eq!(
        s.server().handshake_state(),
        ServerHandshakeState::ClientInfoSent
    );
    assert_eq!(
        s.as_responder().initiator.handshake_state,
        InitiatorHandshakeState::New
    );
    let actions = s.handle_message(bbox).unwrap();
    assert_eq!(s.server().handshake_state(), ServerHandshakeState::Done);
    assert_eq!(
        s.as_responder().initiator.handshake_state,
        InitiatorHandshakeState::KeySent
    );

    actions
}

#[test]
fn server_auth_respond_initiator_with_token() {
    let ctx = make_test_signaling(
        Role::Responder,
        ClientIdentity::Responder(7),
        ServerHandshakeState::ClientInfoSent,
        Some(AuthToken::new()),
    );
    let actions = server_auth_respond_initiator(ctx);
    assert_eq!(actions.len(), 2);
}

#[test]
fn server_auth_respond_initiator_without_token() {
    let ctx = make_test_signaling(
        Role::Responder,
        ClientIdentity::Responder(7),
        ServerHandshakeState::ClientInfoSent,
        None,
    );
    let actions = server_auth_respond_initiator(ctx);
    assert_eq!(actions.len(), 1);
}

/// If processing the server auth message succeeds, the signaling state
/// should change to `PeerHandshake`.
#[test]
fn server_auth_signaling_state_transition() {
    let ctx = make_test_signaling(
        Role::Responder,
        ClientIdentity::Responder(7),
        ServerHandshakeState::ClientInfoSent,
        None,
    );

    // Prepare a ServerAuth message
    let msg = ServerAuth {
        your_cookie: ctx.our_cookie,
        signed_keys: None,
        responders: None,
        initiator_connected: Some(false),
    }
    .into_message();
    let bbox = make_test_msg(msg, &ctx, Address(7));

    // Signaling ref
    let mut s = ctx.signaling;

    // Handle message
    assert_eq!(
        s.server().handshake_state(),
        ServerHandshakeState::ClientInfoSent
    );
    assert_eq!(s.signaling_state(), SignalingState::ServerHandshake);
    let _actions = s.handle_message(bbox).unwrap();
    assert_eq!(s.server().handshake_state(), ServerHandshakeState::Done);
    assert_eq!(s.signaling_state(), SignalingState::PeerHandshake);
}

/// A server-auth frame still addressed to the unknown identity leaves the
/// identity unassigned, which the handler reports as an internal fault.
#[test]
fn server_auth_unknown_destination_crashes() {
    let ctx = make_test_signaling(
        Role::Responder,
        ClientIdentity::Unknown,
        ServerHandshakeState::ClientInfoSent,
        None,
    );
    let msg = ServerAuth::for_responder(ctx.our_cookie, None, false).into_message();
    let bbox = make_test_msg(msg, &ctx, Address(0));
    let mut s = ctx.signaling;
    assert_eq!(
        s.handle_message(bbox),
        Err(SignalingError::Crash(
            "No identity assigned when receiving server-auth message".into()
        ))
    );
}

#[test]
fn server_context_new() {
    let ctx = ServerContext::new();
    assert_eq!(ctx.identity(), Identity::Server);
    assert_eq!(ctx.permanent_key(), None);
    assert_eq!(ctx.session_key(), None);
}

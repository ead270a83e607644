//! Tests for the message codec: round-trips for every variant, exact wire
//! bytes, and the decode error classes.

use saltyrtc_core::cookie::Cookie;
use saltyrtc_core::crypto::PublicKey;
use saltyrtc_core::errors::SignalingError;
use saltyrtc_core::messages::{
    ClientAuth, ClientHello, DropResponder, Key, Message, NewResponder, SendError, ServerAuth,
    ServerHello, Token,
};
use saltyrtc_core::types::Address;

fn test_key() -> PublicKey {
    let mut bytes = [0u8; 32];
    let mut i: usize = 0;
    while i < 32 {
        bytes[i] = i as u8;
        i += 1;
    }
    PublicKey::new(bytes)
}

fn test_cookie() -> Cookie {
    Cookie::new([9, 8, 7, 6, 5, 4, 3, 2, 1, 0, 1, 2, 3, 4, 5, 6])
}

fn roundtrip(msg: Message) {
    let bytes = msg.to_msgpack();
    let back = Message::from_msgpack(&bytes).unwrap();
    assert_eq!(back, msg);
}

#[test]
fn roundtrip_server_hello() {
    roundtrip(ServerHello::new(test_key()).into_message());
}

#[test]
fn roundtrip_client_hello() {
    roundtrip(ClientHello::new(test_key()).into_message());
}

#[test]
fn roundtrip_client_auth() {
    roundtrip(
        ClientAuth {
            your_cookie: test_cookie(),
            subprotocols: vec![b"v1.saltyrtc.org".to_vec(), b"something.else".to_vec()],
            ping_interval: 90,
            your_key: None,
        }
        .into_message(),
    );
    roundtrip(
        ClientAuth {
            your_cookie: test_cookie(),
            subprotocols: vec![],
            ping_interval: 70000,
            your_key: Some(test_key()),
        }
        .into_message(),
    );
}

#[test]
fn roundtrip_server_auth() {
    roundtrip(
        ServerAuth::for_initiator(
            test_cookie(),
            None,
            vec![Address(2), Address(3), Address(255)],
        )
        .into_message(),
    );
    roundtrip(ServerAuth::for_responder(test_cookie(), Some(vec![1, 2, 3]), true).into_message());
    roundtrip(ServerAuth::for_responder(test_cookie(), None, false).into_message());
}

#[test]
fn roundtrip_small_messages() {
    roundtrip(NewResponder::new(Address(4)).into_message());
    roundtrip(Message::DropResponder(DropResponder { id: Address(5), reason: Some(3001) }));
    roundtrip(Message::DropResponder(DropResponder { id: Address(200), reason: None }));
    roundtrip(Message::SendError(SendError { id: Address(1) }));
    roundtrip(Token::new(test_key()).into_message());
    roundtrip(Key::new(test_key()).into_message());
}

/// The exact wire form of a server-hello message.
#[test]
fn server_hello_wire_bytes() {
    let key_bytes: [u8; 32] = [
        0x01, 0x02, 0x03, 0x04, 0x05, 0x06, 0x07, 0x08, 0x09, 0x00, 0x01, 0x02, 0x03, 0x04, 0x05,
        0x06, 0x07, 0x08, 0x09, 0x00, 0x01, 0x02, 0x03, 0x04, 0x05, 0x06, 0x07, 0x08, 0x09, 0x00,
        0x63, 0xff,
    ];
    let msg = ServerHello::new(PublicKey::new(key_bytes)).into_message();
    let mut expected: Vec<u8> = vec![
        // Fixmap with two entries
        0x82, // Key: type
        0xa4, 0x74, 0x79, 0x70, 0x65, // Val: server-hello
        0xac, 0x73, 0x65, 0x72, 0x76, 0x65, 0x72, 0x2d, 0x68, 0x65, 0x6c, 0x6c, 0x6f,
        // Key: key
        0xa3, 0x6b, 0x65, 0x79, // Val: binary, 32 bytes
        0xc4, 0x20,
    ];
    expected.extend_from_slice(&key_bytes);
    assert_eq!(msg.to_msgpack(), expected);
    assert_eq!(Message::from_msgpack(&expected).unwrap(), msg);
}

#[test]
fn decode_unknown_type() {
    // Fixmap with one entry: "type" -> "bogus"
    let bytes: Vec<u8> = vec![
        0x81, 0xa4, 0x74, 0x79, 0x70, 0x65, 0xa5, 0x62, 0x6f, 0x67, 0x75, 0x73,
    ];
    let err = Message::from_msgpack(&bytes).unwrap_err();
    assert_eq!(err, SignalingError::Decode("unknown message type".into()));
}

#[test]
fn decode_missing_field() {
    // Fixmap with one entry: "type" -> "token", but no key field.
    let bytes: Vec<u8> = vec![
        0x81, 0xa4, 0x74, 0x79, 0x70, 0x65, 0xa5, 0x74, 0x6f, 0x6b, 0x65, 0x6e,
    ];
    let err = Message::from_msgpack(&bytes).unwrap_err();
    assert!(matches!(err, SignalingError::InvalidMessage(_)));
}

#[test]
fn decode_truncated() {
    let bytes: Vec<u8> = vec![0x82, 0xa4, 0x74];
    let err = Message::from_msgpack(&bytes).unwrap_err();
    assert!(matches!(err, SignalingError::Decode(_)));
}

/// Unknown fields of a simple shape are ignored.
#[test]
fn decode_ignores_unknown_field() {
    // Fixmap with three entries: "type" -> "new-responder", "id" -> 7,
    // and an extra "mood" -> nil.
    let bytes: Vec<u8> = vec![
        0x83, 0xa4, 0x74, 0x79, 0x70, 0x65, 0xad, 0x6e, 0x65, 0x77, 0x2d, 0x72, 0x65, 0x73, 0x70,
        0x6f, 0x6e, 0x64, 0x65, 0x72, 0xa2, 0x69, 0x64, 0x07, 0xa4, 0x6d, 0x6f, 0x6f, 0x64, 0xc0,
    ];
    let msg = Message::from_msgpack(&bytes).unwrap();
    assert_eq!(msg, NewResponder::new(Address(7)).into_message());
    assert_eq!(msg.get_type(), "new-responder");
}

/// Field order on the wire does not matter.
#[test]
fn decode_any_field_order() {
    // Fixmap with two entries: "id" -> 9 first, then "type" -> "send-error".
    let bytes: Vec<u8> = vec![
        0x82, 0xa2, 0x69, 0x64, 0x09, 0xa4, 0x74, 0x79, 0x70, 0x65, 0xaa, 0x73, 0x65, 0x6e, 0x64,
        0x2d, 0x65, 0x72, 0x72, 0x6f, 0x72,
    ];
    let msg = Message::from_msgpack(&bytes).unwrap();
    assert_eq!(msg, Message::SendError(SendError { id: Address(9) }));
}

#[test]
fn message_types() {
    assert_eq!(ServerHello::new(test_key()).into_message().get_type(), "server-hello");
    assert_eq!(ClientHello::new(test_key()).into_message().get_type(), "client-hello");
    assert_eq!(Token::new(test_key()).into_message().get_type(), "token");
    assert_eq!(Key::new(test_key()).into_message().get_type(), "key");
    assert_eq!(
        ServerAuth::for_responder(test_cookie(), None, false).into_message().get_type(),
        "server-auth"
    );
}

/// Encoding is a function of the message alone: two runs give the same
/// bytes.
#[test]
fn encoding_deterministic() {
    let msg = ServerAuth::for_initiator(test_cookie(), None, vec![Address(2), Address(9)])
        .into_message();
    assert_eq!(msg.to_msgpack(), msg.to_msgpack());
    let auth = ClientAuth {
        your_cookie: test_cookie(),
        subprotocols: vec![b"v1.saltyrtc.org".to_vec()],
        ping_interval: 0,
        your_key: None,
    }
    .into_message();
    assert_eq!(auth.to_msgpack(), auth.to_msgpack());
}

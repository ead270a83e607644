//! Tests for frame splitting, plain decoding and the encrypt/decrypt
//! round-trips through the crypto boxes.

use saltyrtc_core::boxes::{ByteBox, OpenBox};
use saltyrtc_core::cookie::Cookie;
use saltyrtc_core::crypto::{AuthToken, KeyStore};
use saltyrtc_core::csn::CombinedSequenceSnapshot;
use saltyrtc_core::errors::SignalingError;
use saltyrtc_core::messages::{Message, ServerHello};
use saltyrtc_core::nonce::Nonce;
use saltyrtc_core::types::Address;

/// Return a test nonce.
fn create_test_nonce() -> Nonce {
    Nonce::new(
        Cookie::new([1, 2, 3, 4, 5, 6, 7, 8, 9, 10, 11, 12, 13, 14, 15, 16]),
        Address(17),
        Address(18),
        CombinedSequenceSnapshot::new(258, 50_595_078),
    )
}

/// Return bytes of a server-hello message.
fn create_test_msg_bytes() -> Vec<u8> {
    vec![
        // Fixmap with two entries
        0x82, // Key: type
        0xa4, 0x74, 0x79, 0x70, 0x65, // Val: server-hello
        0xac, 0x73, 0x65, 0x72, 0x76, 0x65, 0x72, 0x2d, 0x68, 0x65, 0x6c, 0x6c, 0x6f,
        // Key: key
        0xa3, 0x6b, 0x65, 0x79, // Val: Binary 32 bytes
        0xc4, 0x20, 0x01, 0x02, 0x03, 0x04, 0x05, 0x06, 0x07, 0x08, 0x09, 0x00, 0x01, 0x02, 0x03,
        0x04, 0x05, 0x06, 0x07, 0x08, 0x09, 0x00, 0x01, 0x02, 0x03, 0x04, 0x05, 0x06, 0x07, 0x08,
        0x09, 0x00, 0x63, 0xff,
    ]
}

#[test]
fn byte_box_from_slice() {
    let bytes = [
        1, 2, 3, 4, 5, 6, 7, 8, 8, 7, 6, 5, 4, 3, 2, 1, 1, 2, 3, 4, 5, 6, 7, 8, 9, 10,
    ];
    let bbox = ByteBox::from_slice(&bytes).unwrap();
    assert_eq!(bbox.nonce.csn().overflow_number(), (3 << 8) + 4);
    assert_eq!(
        bbox.nonce.csn().sequence_number(),
        (5 << 24) + (6 << 16) + (7 << 8) + 8
    );
    assert_eq!(bbox.bytes, vec![9, 10]);
}

#[test]
fn byte_box_from_slice_too_short() {
    let bytes_only_nonce = [
        1, 2, 3, 4, 5, 6, 7, 8, 8, 7, 6, 5, 4, 3, 2, 1, 1, 2, 3, 4, 5, 6, 7, 8,
    ];
    let bytes_not_even_nonce = [1, 2, 3, 4, 5, 6, 7, 8];

    let err1 = ByteBox::from_slice(&bytes_only_nonce).unwrap_err();
    let err2 = ByteBox::from_slice(&bytes_not_even_nonce).unwrap_err();
    assert_eq!(err1.to_string(), "decoding error: message is too short");
    assert_eq!(err2.to_string(), "decoding error: message is too short");
}

#[test]
fn byte_box_decode() {
    let nonce = create_test_nonce();
    let bbox = ByteBox::new(create_test_msg_bytes(), nonce);
    let obox = bbox.decode().unwrap();
    assert_eq!(obox.message.get_type(), "server-hello");
}

#[test]
fn byte_box_decrypt() {
    let nonce = create_test_nonce();
    let bytes = create_test_msg_bytes();
    let keystore_tx = KeyStore::new().unwrap();
    let keystore_rx = KeyStore::new().unwrap();
    let encrypted = keystore_tx.encrypt(&bytes, &nonce, keystore_rx.public_key());
    let bbox = ByteBox::new(encrypted, nonce);
    let obox = bbox.decrypt(&keystore_rx, keystore_tx.public_key()).unwrap();
    assert_eq!(obox.message.get_type(), "server-hello");
}

/// Sealing must actually transform the payload; opening with the wrong key
/// must fail with a decryption error.
#[test]
fn byte_box_decrypt_wrong_key() {
    let nonce = create_test_nonce();
    let bytes = create_test_msg_bytes();
    let keystore_tx = KeyStore::new().unwrap();
    let keystore_rx = KeyStore::new().unwrap();
    let other = KeyStore::new().unwrap();
    let encrypted = keystore_tx.encrypt(&bytes, &nonce, keystore_rx.public_key());
    assert_ne!(encrypted, bytes);
    let bbox = ByteBox::new(encrypted, nonce);
    let err = bbox.decrypt(&other, keystore_tx.public_key()).unwrap_err();
    assert_eq!(err, SignalingError::Decrypt);
}

/// A frame survives the trip through the wire bytes.
#[test]
fn frame_wire_roundtrip() {
    let nonce = create_test_nonce();
    let bbox = ByteBox::new(create_test_msg_bytes(), nonce);
    let wire = bbox.into_bytes();
    assert_eq!(wire.len(), 24 + create_test_msg_bytes().len());
    let back = ByteBox::from_slice(&wire).unwrap();
    assert_eq!(back.nonce, nonce);
    assert_eq!(back.bytes, create_test_msg_bytes());
}

/// A plaintext open box survives encoding and decoding.
#[test]
fn open_box_plain_roundtrip() {
    let nonce = create_test_nonce();
    let msg = ServerHello::random().into_message();
    let obox = OpenBox::new(msg.clone(), nonce);
    let bbox = obox.encode();
    let back = bbox.decode().unwrap();
    assert_eq!(back.message, msg);
    assert_eq!(back.nonce, nonce);
}

/// The secret-key box round-trips under the auth token.
#[test]
fn auth_token_roundtrip() {
    let token = AuthToken::new();
    let nonce = create_test_nonce();
    let msg = ServerHello::random().into_message();
    let obox = OpenBox::new(msg.clone(), nonce);
    let bbox = obox.encrypt_token(&token);
    assert_ne!(bbox.bytes, msg.to_msgpack());
    let back = bbox.decrypt_token(&token).unwrap();
    assert_eq!(back.message, msg);

    let wrong = AuthToken::new();
    let bbox2 = OpenBox::new(msg, nonce).encrypt_token(&token);
    assert_eq!(
        bbox2.decrypt_token(&wrong).unwrap_err(),
        SignalingError::Decrypt
    );
}

/// Public key derivation is a function of the secret key alone.
#[test]
fn keystore_public_key_deterministic() {
    let ks = KeyStore::new().unwrap();
    let again = KeyStore::from_private_key(*ks.private_key());
    assert_eq!(ks.public_key(), again.public_key());
}

#[test]
fn decrypt_garbage_fails() {
    let nonce = create_test_nonce();
    let keystore = KeyStore::new().unwrap();
    let other = KeyStore::new().unwrap();
    let bbox = ByteBox::new(vec![1, 2, 3, 4, 5], nonce);
    let err = bbox.decrypt(&keystore, other.public_key()).unwrap_err();
    assert_eq!(err, SignalingError::Decrypt);
}

//! Crypto boxes: an open box is a message with its nonce, a byte box is a
//! (possibly encrypted) byte payload with its nonce. A wire frame is the
//! nonce followed by the payload.

use vstd::prelude::*;

use crate::bytes::vec_range;
use crate::crypto::{
    spec_box_open, spec_box_seal, spec_secretbox_open, spec_secretbox_seal, pub_key_of, AuthToken,
    KeyStore, PublicKey,
};
use crate::errors::{SignalingError, SignalingResult};
use crate::messages::{spec_decode, spec_encode, wf_msg, DecodeOutcome, Message};
use crate::nonce::{lemma_nonce_bytes_injective, spec_nonce_bytes, Nonce};

verus! {

/// An unencrypted message together with the nonce it travels under.
#[derive(Debug, PartialEq)]
pub struct OpenBox {
    pub message: Message,
    pub nonce: Nonce,
}

impl OpenBox {
    pub fn new(message: Message, nonce: Nonce) -> (r: Self)
        ensures
            r.message == message,
            r.nonce == nonce,
    {
        OpenBox { message, nonce }
    }

    /// Encode without encryption. Only the first messages of the server
    /// handshake travel in the plain.
    pub fn encode(self) -> (r: ByteBox)
        requires
            wf_msg(self.message@),
        ensures
            r.bytes@ == spec_encode(self.message@),
            r.nonce == self.nonce,
    {
        let bytes = self.message.to_msgpack();
        ByteBox::new(bytes, self.nonce)
    }

    /// Encrypt the message for `other_key` using the public-key box.
    pub fn encrypt(self, keystore: &KeyStore, other_key: &PublicKey) -> (r: ByteBox)
        requires
            wf_msg(self.message@),
        ensures
            r.nonce == self.nonce,
            r.bytes@ == spec_box_seal(
                keystore.spec_private()@,
                other_key@,
                spec_nonce_bytes(self.nonce),
                spec_encode(self.message@),
            ),
            forall|sk2: Seq<u8>|
                pub_key_of(sk2) == other_key@ ==> #[trigger] spec_box_open(
                    sk2,
                    pub_key_of(keystore.spec_private()@),
                    spec_nonce_bytes(self.nonce),
                    r.bytes@,
                ) == Some(spec_encode(self.message@)),
    {
        let bytes = self.message.to_msgpack();
        let encrypted = keystore.encrypt(&bytes, &self.nonce, other_key);
        ByteBox::new(encrypted, self.nonce)
    }

    /// Encrypt the message with the one-shot auth token's secret-key box.
    pub fn encrypt_token(self, auth_token: &AuthToken) -> (r: ByteBox)
        requires
            wf_msg(self.message@),
        ensures
            r.nonce == self.nonce,
            r.bytes@ == spec_secretbox_seal(
                auth_token@,
                spec_nonce_bytes(self.nonce),
                spec_encode(self.message@),
            ),
            spec_secretbox_open(auth_token@, spec_nonce_bytes(self.nonce), r.bytes@) == Some(
                spec_encode(self.message@),
            ),
    {
        let bytes = self.message.to_msgpack();
        let encrypted = auth_token.encrypt(&bytes, &self.nonce);
        ByteBox::new(encrypted, self.nonce)
    }
}

/// A byte payload together with the nonce it travels under. The payload may
/// or may not be encrypted.
#[derive(Debug, PartialEq)]
pub struct ByteBox {
    pub bytes: Vec<u8>,
    pub nonce: Nonce,
}

impl ByteBox {
    pub fn new(bytes: Vec<u8>, nonce: Nonce) -> (r: Self)
        ensures
            r.bytes == bytes,
            r.nonce == nonce,
    {
        ByteBox { bytes, nonce }
    }

    /// Split a wire frame into nonce and payload. Fails exactly when the
    /// frame is no longer than a nonce.
    pub fn from_slice(bytes: &[u8]) -> (r: SignalingResult<Self>)
        ensures
            match r {
                Ok(bb) => {
                    &&& bytes@.len() > 24
                    &&& spec_nonce_bytes(bb.nonce) == bytes@.subrange(0, 24)
                    &&& bb.bytes@ == bytes@.skip(24)
                },
                Err(e) => {
                    &&& bytes@.len() <= 24
                    &&& e matches SignalingError::Decode(s) && s@ == "message is too short"@
                },
            },
    {
        let v = vstd::slice::slice_to_vec(bytes);
        if v.len() <= 24 {
            return Err(SignalingError::Decode(String::from_str("message is too short")));
        }
        let nb = vec_range(&v, 0, 24);
        let nonce = match Nonce::from_bytes(&nb) {
            Ok(n) => n,
            Err(_) => {
                proof {
                    assert(false);
                }
                return Err(SignalingError::Decode(String::from_str("cannot decode nonce")));
            },
        };
        let rest = vec_range(&v, 24, v.len() - 24);
        proof {
            assert(rest@ =~= bytes@.skip(24));
        }
        Ok(ByteBox::new(rest, nonce))
    }

    /// Decode an unencrypted payload into a message.
    pub fn decode(self) -> (r: SignalingResult<OpenBox>)
        ensures
            match r {
                Ok(ob) => {
                    &&& spec_decode(self.bytes@) == DecodeOutcome::Msg(ob.message@)
                    &&& ob.nonce == self.nonce
                },
                Err(e) => match spec_decode(self.bytes@) {
                    DecodeOutcome::Msg(_) => false,
                    DecodeOutcome::Malformed => e matches SignalingError::Decode(_),
                    DecodeOutcome::Invalid => e matches SignalingError::InvalidMessage(_),
                },
            },
    {
        let message = Message::from_msgpack(&self.bytes)?;
        Ok(OpenBox::new(message, self.nonce))
    }

    /// Decrypt a public-key box from `other_key` and decode the plaintext.
    /// Fails with `Decrypt` exactly when the box does not authenticate.
    pub fn decrypt(self, keystore: &KeyStore, other_key: &PublicKey) -> (r: SignalingResult<
        OpenBox,
    >)
        ensures
            ({
                let opened = spec_box_open(
                    keystore.spec_private()@,
                    other_key@,
                    spec_nonce_bytes(self.nonce),
                    self.bytes@,
                );
                match r {
                    Ok(ob) => {
                        &&& opened matches Some(m) && spec_decode(m) == DecodeOutcome::Msg(
                            ob.message@,
                        )
                        &&& ob.nonce == self.nonce
                    },
                    Err(e) => match opened {
                        None => e == SignalingError::Decrypt,
                        Some(m) => match spec_decode(m) {
                            DecodeOutcome::Msg(_) => false,
                            DecodeOutcome::Malformed => e matches SignalingError::Decode(_),
                            DecodeOutcome::Invalid => e matches SignalingError::InvalidMessage(_),
                        },
                    },
                }
            }),
    {
        let decrypted = keystore.decrypt(&self.bytes, &self.nonce, other_key)?;
        let message = Message::from_msgpack(&decrypted)?;
        Ok(OpenBox::new(message, self.nonce))
    }

    /// Decrypt a secret-key box sealed with the auth token and decode the
    /// plaintext.
    pub fn decrypt_token(self, auth_token: &AuthToken) -> (r: SignalingResult<OpenBox>)
        ensures
            ({
                let opened = spec_secretbox_open(
                    auth_token@,
                    spec_nonce_bytes(self.nonce),
                    self.bytes@,
                );
                match r {
                    Ok(ob) => {
                        &&& opened matches Some(m) && spec_decode(m) == DecodeOutcome::Msg(
                            ob.message@,
                        )
                        &&& ob.nonce == self.nonce
                    },
                    Err(e) => match opened {
                        None => e == SignalingError::Decrypt,
                        Some(m) => match spec_decode(m) {
                            DecodeOutcome::Msg(_) => false,
                            DecodeOutcome::Malformed => e matches SignalingError::Decode(_),
                            DecodeOutcome::Invalid => e matches SignalingError::InvalidMessage(_),
                        },
                    },
                }
            }),
    {
        let decrypted = auth_token.decrypt(&self.bytes, &self.nonce)?;
        let message = Message::from_msgpack(&decrypted)?;
        Ok(OpenBox::new(message, self.nonce))
    }

    /// The wire frame: the nonce's bytes followed by the payload.
    pub fn into_bytes(self) -> (r: Vec<u8>)
        ensures
            r@ == spec_nonce_bytes(self.nonce) + self.bytes@,
    {
        let mut out = self.nonce.to_bytes();
        let ghost nb = out@;
        let mut i: usize = 0;
        while i < self.bytes.len()
            invariant
                0 <= i <= self.bytes@.len(),
                out@ == nb + self.bytes@.subrange(0, i as int),
            decreases self.bytes@.len() - i,
        {
            out.push(self.bytes[i]);
            proof {
                assert(nb + self.bytes@.subrange(0, i as int) + seq![self.bytes@[i as int]] =~= nb
                    + self.bytes@.subrange(0, i + 1));
            }
            i += 1;
        }
        proof {
            assert(self.bytes@.subrange(0, self.bytes@.len() as int) =~= self.bytes@);
            assert(out@ =~= spec_nonce_bytes(self.nonce) + self.bytes@);
        }
        out
    }
}

/// A plain frame round-trips: the wire bytes of a message under a nonce
/// split back into that very nonce and decode back into that very message.
pub proof fn lemma_frame_roundtrip(n: Nonce, mv: crate::messages::MessageV)
    requires
        wf_msg(mv),
    ensures
        ({
            let w = spec_nonce_bytes(n) + spec_encode(mv);
            &&& w.len() > 24
            &&& w.subrange(0, 24) == spec_nonce_bytes(n)
            &&& spec_decode(w.skip(24)) == DecodeOutcome::Msg(mv)
            &&& forall|n2: Nonce|
                spec_nonce_bytes(n2) == w.subrange(0, 24) ==> n2 == n
        }),
{
    let w = spec_nonce_bytes(n) + spec_encode(mv);
    broadcast use crate::cookie::lemma_cookie_len;

    assert(spec_encode(mv).len() >= 1);
    assert(spec_nonce_bytes(n).len() == 24);
    assert(w.subrange(0, 24) =~= spec_nonce_bytes(n));
    assert(w.skip(24) =~= spec_encode(mv));
    crate::messages::lemma_codec_roundtrip(mv);
    assert forall|n2: Nonce| spec_nonce_bytes(n2) == w.subrange(0, 24) implies n2 == n by {
        lemma_nonce_bytes_injective(n2, n);
    }
}

} // verus!

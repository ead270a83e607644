//! Thin contracts over the NaCl-style primitives: key generation, the
//! public-key box and the secret-key box.
//!
//! The primitives themselves live in outside crates; each is reached through
//! one trusted wrapper whose contract names the result. Everything that is
//! proved about encrypted frames rests on these contracts.

use vstd::prelude::*;

use crypto_box::aead::Aead;
use crypto_secretbox::KeyInit;

use crate::bytes::{array_eq, array_from_vec};
use crate::errors::{SignalingError, SignalingResult};
use crate::nonce::{spec_nonce_bytes, Nonce};

verus! {

broadcast use vstd::array::group_array_axioms;

/// The X25519 public key derived from a 32-byte secret key.
pub uninterp spec fn pub_key_of(sk: Seq<u8>) -> Seq<u8>;

/// The NaCl public-key box: XSalsa20Poly1305 over an X25519 shared secret,
/// sealed with the sender's secret key for the receiver's public key.
pub uninterp spec fn spec_box_seal(sk: Seq<u8>, pk: Seq<u8>, nonce: Seq<u8>, msg: Seq<u8>) -> Seq<
    u8,
>;

/// Opening a NaCl public-key box with the receiver's secret key and the
/// sender's public key: the plaintext, or nothing when authentication fails.
pub uninterp spec fn spec_box_open(sk: Seq<u8>, pk: Seq<u8>, nonce: Seq<u8>, ct: Seq<u8>) -> Option<
    Seq<u8>,
>;

/// The NaCl secret-key box sealed with a 32-byte shared key.
pub uninterp spec fn spec_secretbox_seal(key: Seq<u8>, nonce: Seq<u8>, msg: Seq<u8>) -> Seq<u8>;

/// Opening a NaCl secret-key box: the plaintext, or nothing when
/// authentication fails.
pub uninterp spec fn spec_secretbox_open(key: Seq<u8>, nonce: Seq<u8>, ct: Seq<u8>) -> Option<
    Seq<u8>,
>;

/// Relies on getrandom::fill: fills the buffer from the operating system's
/// randomness source; aborts the process if that source fails.
#[verifier::external_body]
pub(crate) fn random_bytes(n: usize) -> (r: Vec<u8>)
    ensures
        r@.len() == n,
{
    let mut b = vec![0u8; n];
    getrandom::fill(&mut b).expect("system randomness source failed");
    b
}

/// Relies on crypto_box::SecretKey::public_key: the X25519 public key is a
/// function of the secret key bytes alone.
#[verifier::external_body]
fn derive_public_key(sk: &[u8; 32]) -> (r: [u8; 32])
    ensures
        r@ == pub_key_of(sk@),
{
    crypto_box::SecretKey::from_bytes(*sk).public_key().to_bytes()
}

/// Relies on crypto_box::SalsaBox (X25519 + XSalsa20Poly1305): sealing is a
/// function of keys, nonce and plaintext, it never fails without associated
/// data, and the box opens to the plaintext under the matching key pair.
#[verifier::external_body]
fn box_seal(msg: &Vec<u8>, nonce: &Vec<u8>, their_pk: &[u8; 32], our_sk: &[u8; 32]) -> (r: Vec<u8>)
    requires
        nonce@.len() == 24,
    ensures
        r@ == spec_box_seal(our_sk@, their_pk@, nonce@, msg@),
        forall|sk2: Seq<u8>|
            pub_key_of(sk2) == their_pk@ ==> #[trigger] spec_box_open(
                sk2,
                pub_key_of(our_sk@),
                nonce@,
                r@,
            ) == Some(msg@),
{
    let pk = crypto_box::PublicKey::from_bytes(*their_pk);
    let sk = crypto_box::SecretKey::from_bytes(*our_sk);
    let cipher = crypto_box::SalsaBox::new(&pk, &sk);
    cipher.encrypt(crypto_box::Nonce::from_slice(nonce.as_slice()), msg.as_slice()).expect(
        "sealing a box cannot fail",
    )
}

/// Relies on crypto_box::SalsaBox: opening returns the plaintext of a box
/// sealed under the matching key pair and nonce, and fails otherwise.
#[verifier::external_body]
fn box_open_raw(ct: &Vec<u8>, nonce: &Vec<u8>, their_pk: &[u8; 32], our_sk: &[u8; 32]) -> (r:
    Option<Vec<u8>>)
    requires
        nonce@.len() == 24,
    ensures
        match r {
            Some(m) => spec_box_open(our_sk@, their_pk@, nonce@, ct@) == Some(m@),
            None => spec_box_open(our_sk@, their_pk@, nonce@, ct@) is None,
        },
{
    let pk = crypto_box::PublicKey::from_bytes(*their_pk);
    let sk = crypto_box::SecretKey::from_bytes(*our_sk);
    let cipher = crypto_box::SalsaBox::new(&pk, &sk);
    cipher.decrypt(crypto_box::Nonce::from_slice(nonce.as_slice()), ct.as_slice()).ok()
}

/// Relies on crypto_secretbox::XSalsa20Poly1305: sealing is a function of
/// key, nonce and plaintext, it never fails without associated data, and the
/// box opens to the plaintext under the same key and nonce.
#[verifier::external_body]
fn secretbox_seal(msg: &Vec<u8>, nonce: &Vec<u8>, key: &[u8; 32]) -> (r: Vec<u8>)
    requires
        nonce@.len() == 24,
    ensures
        r@ == spec_secretbox_seal(key@, nonce@, msg@),
        spec_secretbox_open(key@, nonce@, r@) == Some(msg@),
{
    let cipher = crypto_secretbox::XSalsa20Poly1305::new(crypto_secretbox::Key::from_slice(key));
    cipher.encrypt(crypto_secretbox::Nonce::from_slice(nonce.as_slice()), msg.as_slice()).expect(
        "sealing a box cannot fail",
    )
}

/// Relies on crypto_secretbox::XSalsa20Poly1305: opening returns the
/// plaintext of a box sealed under the same key and nonce, and fails
/// otherwise.
#[verifier::external_body]
fn secretbox_open_raw(ct: &Vec<u8>, nonce: &Vec<u8>, key: &[u8; 32]) -> (r: Option<Vec<u8>>)
    requires
        nonce@.len() == 24,
    ensures
        match r {
            Some(m) => spec_secretbox_open(key@, nonce@, ct@) == Some(m@),
            None => spec_secretbox_open(key@, nonce@, ct@) is None,
        },
{
    let cipher = crypto_secretbox::XSalsa20Poly1305::new(crypto_secretbox::Key::from_slice(key));
    cipher.decrypt(crypto_secretbox::Nonce::from_slice(nonce.as_slice()), ct.as_slice()).ok()
}

/// A 32-byte public key.
#[derive(Debug, PartialEq, Eq, Copy, Clone, Hash)]
pub struct PublicKey([u8; 32]);

impl View for PublicKey {
    type V = Seq<u8>;

    closed spec fn view(&self) -> Seq<u8> {
        self.0@
    }
}

/// A public key always holds exactly 32 bytes.
pub broadcast proof fn lemma_public_key_len(k: PublicKey)
    ensures
        (#[trigger] k@).len() == 32,
{
}

/// Two public keys with the same bytes are the same key.
pub broadcast proof fn lemma_public_key_injective(a: PublicKey, b: PublicKey)
    requires
        #[trigger] a@ == #[trigger] b@,
    ensures
        a == b,
{
    assert(a.0@ =~= b.0@);
    assert(a.0 == b.0);
}

impl PublicKey {
    /// A public key made of the given bytes.
    pub fn new(bytes: [u8; 32]) -> (r: Self)
        ensures
            r@ == bytes@,
    {
        PublicKey(bytes)
    }

    /// A public key read from a slice; fails unless the slice holds exactly
    /// 32 bytes.
    pub fn from_slice(bytes: &[u8]) -> (r: Option<Self>)
        ensures
            match r {
                Some(k) => bytes@.len() == 32 && k@ == bytes@,
                None => bytes@.len() != 32,
            },
    {
        if bytes.len() == 32 {
            let v = vstd::slice::slice_to_vec(bytes);
            let a = array_from_vec::<32>(&v, 0);
            proof {
                assert(a@ =~= bytes@);
            }
            Some(PublicKey(a))
        } else {
            None
        }
    }

    /// The bytes of the key.
    pub fn as_bytes(&self) -> (r: &[u8; 32])
        ensures
            r@ == self@,
    {
        &self.0
    }

    /// Whether both keys hold the same bytes.
    pub fn same_as(&self, other: &PublicKey) -> (r: bool)
        ensures
            r == (self@ == other@),
    {
        array_eq(&self.0, &other.0)
    }
}

/// A 32-byte secret key.
#[derive(Debug, PartialEq, Eq, Copy, Clone)]
pub struct PrivateKey([u8; 32]);

impl View for PrivateKey {
    type V = Seq<u8>;

    closed spec fn view(&self) -> Seq<u8> {
        self.0@
    }
}

impl PrivateKey {
    /// A secret key made of the given bytes.
    pub fn new(bytes: [u8; 32]) -> (r: Self)
        ensures
            r@ == bytes@,
    {
        PrivateKey(bytes)
    }
}

/// An owned keypair: the public key is always the one derived from the
/// secret key.
#[derive(Debug, PartialEq, Eq, Copy, Clone)]
pub struct KeyStore {
    public: PublicKey,
    private: PrivateKey,
}

impl KeyStore {
    /// The keypair is consistent: the public key belongs to the secret key.
    pub open spec fn wf(self) -> bool {
        self.spec_public()@ == pub_key_of(self.spec_private()@)
    }

    /// The public half of the keypair.
    pub closed spec fn spec_public(self) -> PublicKey {
        self.public
    }

    /// The secret half of the keypair.
    pub closed spec fn spec_private(self) -> PrivateKey {
        self.private
    }

    /// A fresh keypair.
    pub fn new() -> (r: SignalingResult<KeyStore>)
        ensures
            r matches Ok(ks) && ks.wf(),
    {
        let v = random_bytes(32);
        let sk = array_from_vec::<32>(&v, 0);
        let public = PublicKey(derive_public_key(&sk));
        Ok(KeyStore { public, private: PrivateKey(sk) })
    }

    /// The keypair holding the given secret key.
    pub fn from_private_key(private: PrivateKey) -> (r: KeyStore)
        ensures
            r.wf(),
            r.spec_private() == private,
    {
        let public = PublicKey(derive_public_key(&private.0));
        KeyStore { public, private }
    }

    /// Our public key.
    pub fn public_key(&self) -> (r: &PublicKey)
        ensures
            *r == self.spec_public(),
    {
        &self.public
    }

    /// Our secret key.
    pub fn private_key(&self) -> (r: &PrivateKey)
        ensures
            *r == self.spec_private(),
    {
        &self.private
    }

    /// Whether both keystores hold the same secret key.
    pub fn same_keys(&self, other: &KeyStore) -> (r: bool)
        ensures
            r == (self.spec_private()@ == other.spec_private()@),
    {
        array_eq(&self.private.0, &other.private.0)
    }

    /// Seal a public-key box for `other_key` under the given nonce.
    pub fn encrypt(&self, data: &Vec<u8>, nonce: &Nonce, other_key: &PublicKey) -> (r: Vec<u8>)
        ensures
            r@ == spec_box_seal(self.spec_private()@, other_key@, spec_nonce_bytes(*nonce), data@),
            forall|sk2: Seq<u8>|
                pub_key_of(sk2) == other_key@ ==> #[trigger] spec_box_open(
                    sk2,
                    pub_key_of(self.spec_private()@),
                    spec_nonce_bytes(*nonce),
                    r@,
                ) == Some(data@),
    {
        let nb = nonce.to_bytes();
        box_seal(data, &nb, &other_key.0, &self.private.0)
    }

    /// Open a public-key box from `other_key` under the given nonce. Fails
    /// with `Decrypt` exactly when the box does not authenticate.
    pub fn decrypt(&self, data: &Vec<u8>, nonce: &Nonce, other_key: &PublicKey) -> (r:
        SignalingResult<Vec<u8>>)
        ensures
            match r {
                Ok(m) => spec_box_open(
                    self.spec_private()@,
                    other_key@,
                    spec_nonce_bytes(*nonce),
                    data@,
                ) == Some(m@),
                Err(e) => {
                    &&& spec_box_open(
                        self.spec_private()@,
                        other_key@,
                        spec_nonce_bytes(*nonce),
                        data@,
                    ) is None
                    &&& e == SignalingError::Decrypt
                },
            },
    {
        let nb = nonce.to_bytes();
        match box_open_raw(data, &nb, &other_key.0, &self.private.0) {
            Some(m) => Ok(m),
            None => Err(SignalingError::Decrypt),
        }
    }
}

/// A 32-byte shared secret, used at most once to authenticate the
/// responder's `token` message.
#[derive(Debug, PartialEq, Eq, Copy, Clone)]
pub struct AuthToken([u8; 32]);

impl View for AuthToken {
    type V = Seq<u8>;

    closed spec fn view(&self) -> Seq<u8> {
        self.0@
    }
}

impl AuthToken {
    /// A fresh random token.
    pub fn new() -> (r: Self) {
        let v = random_bytes(32);
        AuthToken(array_from_vec::<32>(&v, 0))
    }

    /// A token made of the given bytes.
    pub fn from_bytes(bytes: [u8; 32]) -> (r: Self)
        ensures
            r@ == bytes@,
    {
        AuthToken(bytes)
    }

    /// The bytes of the token, for out-of-band transfer.
    pub fn secret_bytes(&self) -> (r: &[u8; 32])
        ensures
            r@ == self@,
    {
        &self.0
    }

    /// Seal a secret-key box under the given nonce.
    pub fn encrypt(&self, data: &Vec<u8>, nonce: &Nonce) -> (r: Vec<u8>)
        ensures
            r@ == spec_secretbox_seal(self@, spec_nonce_bytes(*nonce), data@),
            spec_secretbox_open(self@, spec_nonce_bytes(*nonce), r@) == Some(data@),
    {
        let nb = nonce.to_bytes();
        secretbox_seal(data, &nb, &self.0)
    }

    /// Open a secret-key box under the given nonce. Fails with `Decrypt`
    /// exactly when the box does not authenticate.
    pub fn decrypt(&self, data: &Vec<u8>, nonce: &Nonce) -> (r: SignalingResult<Vec<u8>>)
        ensures
            match r {
                Ok(m) => spec_secretbox_open(self@, spec_nonce_bytes(*nonce), data@) == Some(m@),
                Err(e) => {
                    &&& spec_secretbox_open(self@, spec_nonce_bytes(*nonce), data@) is None
                    &&& e == SignalingError::Decrypt
                },
            },
    {
        let nb = nonce.to_bytes();
        match secretbox_open_raw(data, &nb, &self.0) {
            Some(m) => Ok(m),
            None => Err(SignalingError::Decrypt),
        }
    }
}

} // verus!

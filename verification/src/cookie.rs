//! Cookies: 16-byte random tokens that identify one side of a peer
//! relationship for the lifetime of that relationship.

use vstd::prelude::*;

use crate::crypto::random_bytes;
use crate::bytes::{array_eq, array_from_vec};

verus! {

broadcast use vstd::array::group_array_axioms;

/// A 16-byte cookie.
#[derive(Debug, PartialEq, Eq, Copy, Clone, Hash)]
pub struct Cookie([u8; 16]);

impl View for Cookie {
    type V = Seq<u8>;

    closed spec fn view(&self) -> Seq<u8> {
        self.0@
    }
}

/// A cookie always holds exactly 16 bytes.
pub broadcast proof fn lemma_cookie_len(c: Cookie)
    ensures
        (#[trigger] c@).len() == 16,
{
}

/// Two cookies with the same bytes are the same cookie.
pub broadcast proof fn lemma_cookie_injective(a: Cookie, b: Cookie)
    requires
        #[trigger] a@ == #[trigger] b@,
    ensures
        a == b,
{
    assert(a.0@ =~= b.0@);
    assert(a.0 == b.0);
}

impl Cookie {
    /// A cookie made of the given bytes.
    pub fn new(bytes: [u8; 16]) -> (r: Self)
        ensures
            r@ == bytes@,
    {
        Cookie(bytes)
    }

    /// A fresh random cookie.
    pub fn random() -> (r: Self) {
        let v = random_bytes(16);
        Cookie(array_from_vec::<16>(&v, 0))
    }

    /// Whether both cookies hold the same bytes.
    pub fn same_as(&self, other: &Cookie) -> (r: bool)
        ensures
            r == (self@ == other@),
    {
        array_eq(&self.0, &other.0)
    }

    /// The bytes of the cookie.
    pub fn as_bytes(&self) -> (r: &[u8; 16])
        ensures
            r@ == self@,
    {
        &self.0
    }
}

/// Our own cookie for a peer, and the peer's cookie once it is known.
#[derive(Debug, PartialEq, Eq, Copy, Clone)]
pub struct CookiePair {
    /// The cookie this side sends to the peer; fixed for the lifetime of the
    /// relationship.
    pub ours: Cookie,
    /// The peer's cookie, recorded on the first validated message.
    pub theirs: Option<Cookie>,
}

impl CookiePair {
    /// A pair with a fresh random cookie of our own and no peer cookie yet.
    pub fn new() -> (r: Self)
        ensures
            r.theirs is None,
    {
        CookiePair { ours: Cookie::random(), theirs: None }
    }
}

} // verus!

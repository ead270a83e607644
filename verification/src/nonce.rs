//! The 24-byte wire nonce: cookie, source and destination address, and the
//! combined sequence number, in big-endian layout.

use vstd::prelude::*;

use crate::bytes::{
    array_from_vec, lemma_be16_reconstruct, lemma_be32_reconstruct, push_array, push_be16,
    push_be32, read_be16, read_be32, spec_be16, spec_be32, spec_u16_of_be, spec_u32_of_be,
};
use crate::cookie::{lemma_cookie_injective, lemma_cookie_len, Cookie};
use crate::csn::CombinedSequenceSnapshot;
use crate::errors::{SignalingError, SignalingResult};
use crate::types::Address;

verus! {

broadcast use lemma_cookie_len;

/// A wire nonce: `cookie(16) ‖ src(1) ‖ dst(1) ‖ overflow(2) ‖ sequence(4)`,
/// all multi-byte integers big-endian. A plain value, freely copyable.
#[derive(Debug, PartialEq, Eq, Copy, Clone)]
pub struct Nonce {
    /// The sender's cookie.
    pub cookie: Cookie,
    /// The sender's address.
    pub source: Address,
    /// The receiver's address.
    pub destination: Address,
    /// The sender's combined sequence number for this frame.
    pub csn: CombinedSequenceSnapshot,
}

/// The 24 bytes of a nonce.
pub open spec fn spec_nonce_bytes(n: Nonce) -> Seq<u8> {
    n.cookie@ + seq![n.source.0, n.destination.0] + spec_be16(n.csn.overflow) + spec_be32(
        n.csn.sequence,
    )
}

/// Two nonces with the same bytes are the same nonce.
pub proof fn lemma_nonce_bytes_injective(a: Nonce, b: Nonce)
    requires
        spec_nonce_bytes(a) == spec_nonce_bytes(b),
    ensures
        a == b,
{
    let sa = spec_nonce_bytes(a);
    let sb = spec_nonce_bytes(b);
    assert forall|i: int| 0 <= i < 16 implies a.cookie@[i] == b.cookie@[i] by {
        assert(sa[i] == a.cookie@[i]);
        assert(sb[i] == b.cookie@[i]);
    }
    assert(a.cookie@ =~= b.cookie@);
    lemma_cookie_injective(a.cookie, b.cookie);
    assert(sa[16] == a.source.0 && sb[16] == b.source.0);
    assert(sa[17] == a.destination.0 && sb[17] == b.destination.0);
    assert(sa[18] == spec_be16(a.csn.overflow)[0] && sa[19] == spec_be16(a.csn.overflow)[1]);
    assert(sb[18] == spec_be16(b.csn.overflow)[0] && sb[19] == spec_be16(b.csn.overflow)[1]);
    assert(a.csn.overflow == b.csn.overflow) by {
        crate::bytes::lemma_be16_roundtrip(a.csn.overflow);
        crate::bytes::lemma_be16_roundtrip(b.csn.overflow);
    }
    assert(forall|i: int| 0 <= i < 4 ==> sa[20 + i] == spec_be32(a.csn.sequence)[i] && sb[20 + i]
        == spec_be32(b.csn.sequence)[i]);
    assert(a.csn.sequence == b.csn.sequence) by {
        crate::bytes::lemma_be32_roundtrip(a.csn.sequence);
        crate::bytes::lemma_be32_roundtrip(b.csn.sequence);
    }
}

impl Nonce {
    pub fn new(cookie: Cookie, source: Address, destination: Address,
        csn: CombinedSequenceSnapshot) -> (r: Self)
        ensures
            r == (Nonce { cookie, source, destination, csn }),
    {
        Nonce { cookie, source, destination, csn }
    }

    /// The sender's cookie.
    pub fn cookie(&self) -> (r: &Cookie)
        ensures
            *r == self.cookie,
    {
        &self.cookie
    }

    /// The sender's address.
    pub fn source(&self) -> (r: Address)
        ensures
            r == self.source,
    {
        self.source
    }

    /// The receiver's address.
    pub fn destination(&self) -> (r: Address)
        ensures
            r == self.destination,
    {
        self.destination
    }

    /// The sender's combined sequence number.
    pub fn csn(&self) -> (r: &CombinedSequenceSnapshot)
        ensures
            *r == self.csn,
    {
        &self.csn
    }

    /// The 24 bytes of the nonce.
    pub fn to_bytes(&self) -> (r: Vec<u8>)
        ensures
            r@ == spec_nonce_bytes(*self),
            r@.len() == 24,
    {
        let mut out: Vec<u8> = Vec::new();
        push_array::<16>(&mut out, self.cookie.as_bytes());
        out.push(self.source.0);
        out.push(self.destination.0);
        push_be16(&mut out, self.csn.overflow);
        push_be32(&mut out, self.csn.sequence);
        proof {
            assert(out@ =~= spec_nonce_bytes(*self));
        }
        out
    }

    /// Read a nonce from a byte sequence. Fails exactly when the sequence
    /// does not hold 24 bytes; the result is the unique nonce with those
    /// bytes.
    pub fn from_bytes(bytes: &Vec<u8>) -> (r: SignalingResult<Nonce>)
        ensures
            match r {
                Ok(n) => bytes@.len() == 24 && spec_nonce_bytes(n) == bytes@,
                Err(e) => {
                    &&& bytes@.len() != 24
                    &&& e matches SignalingError::Decode(s) && s@ == "cannot decode nonce"@
                },
            },
    {
        if bytes.len() != 24 {
            return Err(SignalingError::Decode(String::from_str("cannot decode nonce")));
        }
        let cookie = Cookie::new(array_from_vec::<16>(bytes, 0));
        let source = Address(bytes[16]);
        let destination = Address(bytes[17]);
        let overflow = read_be16(bytes, 18);
        let sequence = read_be32(bytes, 20);
        let n = Nonce {
            cookie,
            source,
            destination,
            csn: CombinedSequenceSnapshot { overflow, sequence },
        };
        proof {
            lemma_be16_reconstruct(bytes@[18], bytes@[19]);
            lemma_be32_reconstruct(bytes@[20], bytes@[21], bytes@[22], bytes@[23]);
            assert(spec_nonce_bytes(n) =~= bytes@);
        }
        Ok(n)
    }
}

} // verus!

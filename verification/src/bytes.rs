//! Verified helpers for moving bytes between fixed-size arrays, vectors and
//! big-endian integer fields.

use vstd::prelude::*;

verus! {

broadcast use vstd::array::group_array_axioms;

/// Whether two byte arrays hold the same bytes.
pub fn array_eq<const N: usize>(a: &[u8; N], b: &[u8; N]) -> (r: bool)
    ensures
        r == (a@ == b@),
{
    let mut i: usize = 0;
    while i < N
        invariant
            0 <= i <= N,
            forall|j: int| 0 <= j < i ==> a@[j] == b@[j],
        decreases N - i,
    {
        if a[i] != b[i] {
            assert(a@ != b@);
            return false;
        }
        i += 1;
    }
    proof {
        assert(a@ =~= b@);
    }
    true
}

/// The `N` bytes of `v` starting at `start`, as an array.
pub fn array_from_vec<const N: usize>(v: &Vec<u8>, start: usize) -> (r: [u8; N])
    requires
        start + N <= v@.len(),
    ensures
        r@ == v@.subrange(start as int, start + N),
{
    let vlen: usize = v.len();
    let mut a: [u8; N] = vstd::array::array_fill_for_copy_types::<u8, N>(0);
    let mut i: usize = 0;
    while i < N
        invariant
            0 <= i <= N,
            start + N <= vlen,
            vlen == v@.len(),
            a@.len() == N,
            forall|j: int| 0 <= j < i ==> a@[j] == v@[start + j],
        decreases N - i,
    {
        a[i] = v[start + i];
        i += 1;
    }
    proof {
        assert(a@ =~= v@.subrange(start as int, start + N));
    }
    a
}

/// Append the bytes of an array to a vector.
pub fn push_array<const N: usize>(out: &mut Vec<u8>, a: &[u8; N])
    ensures
        final(out)@ == old(out)@ + a@,
{
    let ghost orig = out@;
    let mut i: usize = 0;
    while i < N
        invariant
            0 <= i <= N,
            out@ == orig + a@.subrange(0, i as int),
        decreases N - i,
    {
        out.push(a[i]);
        proof {
            assert(orig + a@.subrange(0, i as int) + seq![a@[i as int]] =~= orig + a@.subrange(
                0,
                i + 1,
            ));
        }
        i += 1;
    }
    proof {
        assert(orig + a@.subrange(0, N as int) =~= orig + a@);
    }
}

/// The two big-endian bytes of a 16-bit value.
pub open spec fn spec_be16(v: u16) -> Seq<u8> {
    seq![(v / 0x100) as u8, (v % 0x100) as u8]
}

/// The four big-endian bytes of a 32-bit value.
pub open spec fn spec_be32(v: u32) -> Seq<u8> {
    seq![
        (v / 0x1000000) as u8,
        ((v / 0x10000) % 0x100) as u8,
        ((v / 0x100) % 0x100) as u8,
        (v % 0x100) as u8,
    ]
}

/// The 16-bit value read from two big-endian bytes.
pub open spec fn spec_u16_of_be(b0: u8, b1: u8) -> u16 {
    (b0 * 0x100 + b1) as u16
}

/// The 32-bit value read from four big-endian bytes.
pub open spec fn spec_u32_of_be(b0: u8, b1: u8, b2: u8, b3: u8) -> u32 {
    (b0 * 0x1000000 + b1 * 0x10000 + b2 * 0x100 + b3) as u32
}

/// Reading the big-endian bytes of a 16-bit value gives the value back.
pub proof fn lemma_be16_roundtrip(v: u16)
    ensures
        spec_u16_of_be(spec_be16(v)[0], spec_be16(v)[1]) == v,
{
}

/// Reading the big-endian bytes of a 32-bit value gives the value back.
pub proof fn lemma_be32_roundtrip(v: u32)
    ensures
        spec_u32_of_be(spec_be32(v)[0], spec_be32(v)[1], spec_be32(v)[2], spec_be32(v)[3]) == v,
{
}

/// Writing the 16-bit value read from two bytes gives the bytes back.
pub proof fn lemma_be16_reconstruct(b0: u8, b1: u8)
    ensures
        spec_be16(spec_u16_of_be(b0, b1)) =~= seq![b0, b1],
{
}

/// Writing the 32-bit value read from four bytes gives the bytes back.
pub proof fn lemma_be32_reconstruct(b0: u8, b1: u8, b2: u8, b3: u8)
    ensures
        spec_be32(spec_u32_of_be(b0, b1, b2, b3)) =~= seq![b0, b1, b2, b3],
{
}

/// Append the two big-endian bytes of a 16-bit value.
pub fn push_be16(out: &mut Vec<u8>, v: u16)
    ensures
        final(out)@ == old(out)@ + spec_be16(v),
{
    let ghost orig = out@;
    out.push((v / 0x100) as u8);
    out.push((v % 0x100) as u8);
    proof {
        assert(out@ =~= orig + spec_be16(v));
    }
}

/// Append the four big-endian bytes of a 32-bit value.
pub fn push_be32(out: &mut Vec<u8>, v: u32)
    ensures
        final(out)@ == old(out)@ + spec_be32(v),
{
    let ghost orig = out@;
    out.push((v / 0x1000000) as u8);
    out.push(((v / 0x10000) % 0x100) as u8);
    out.push(((v / 0x100) % 0x100) as u8);
    out.push((v % 0x100) as u8);
    proof {
        assert(out@ =~= orig + spec_be32(v));
    }
}

/// Read a 16-bit big-endian value from two bytes of a vector.
pub fn read_be16(v: &Vec<u8>, start: usize) -> (r: u16)
    requires
        start + 2 <= v@.len(),
    ensures
        r == spec_u16_of_be(v@[start as int], v@[start + 1]),
{
    let vlen: usize = v.len();
    let b0: u8 = v[start];
    let b1: u8 = v[start + 1];
    (b0 as u16) * 0x100 + (b1 as u16)
}

/// Read a 32-bit big-endian value from four bytes of a vector.
pub fn read_be32(v: &Vec<u8>, start: usize) -> (r: u32)
    requires
        start + 4 <= v@.len(),
    ensures
        r == spec_u32_of_be(v@[start as int], v@[start + 1], v@[start + 2], v@[start + 3]),
{
    let vlen: usize = v.len();
    let b0: u8 = v[start];
    let b1: u8 = v[start + 1];
    let b2: u8 = v[start + 2];
    let b3: u8 = v[start + 3];
    (b0 as u32) * 0x1000000 + (b1 as u32) * 0x10000 + (b2 as u32) * 0x100 + (b3 as u32)
}

/// The `len` bytes of `v` starting at `start`, as a fresh vector.
pub fn vec_range(v: &Vec<u8>, start: usize, len: usize) -> (r: Vec<u8>)
    requires
        start + len <= v@.len(),
    ensures
        r@ == v@.subrange(start as int, start + len),
{
    let vlen: usize = v.len();
    let mut r: Vec<u8> = Vec::new();
    let mut i: usize = 0;
    while i < len
        invariant
            0 <= i <= len,
            start + len <= vlen,
            vlen == v@.len(),
            r@ == v@.subrange(start as int, start + i),
        decreases len - i,
    {
        r.push(v[start + i]);
        proof {
            assert(v@.subrange(start as int, start + i as int) + seq![v@[start + i]] =~= v@
                .subrange(start as int, start + i + 1));
        }
        i += 1;
    }
    r
}

/// Whether two byte vectors hold the same bytes.
pub fn vec_eq(a: &Vec<u8>, b: &Vec<u8>) -> (r: bool)
    ensures
        r == (a@ == b@),
{
    if a.len() != b.len() {
        assert(a@ != b@);
        return false;
    }
    let mut i: usize = 0;
    while i < a.len()
        invariant
            0 <= i <= a@.len(),
            a@.len() == b@.len(),
            forall|j: int| 0 <= j < i ==> a@[j] == b@[j],
        decreases a@.len() - i,
    {
        if a[i] != b[i] {
            assert(a@ != b@);
            return false;
        }
        i += 1;
    }
    proof {
        assert(a@ =~= b@);
    }
    true
}

} // verus!

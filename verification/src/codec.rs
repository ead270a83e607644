//! The wire form of signaling messages: a self-describing binary map format
//! (a msgpack subset) with string keys, binary blobs, unsigned integers,
//! booleans and arrays.
//!
//! Everything here is verified: the spec-level encoders and parsers define
//! the format, the executable functions are proved to match them, and the
//! inversion lemmas show that parsing undoes encoding.

use vstd::prelude::*;

use crate::bytes::{
    push_be16, push_be32, read_be16, read_be32, spec_be16, spec_be32, spec_u16_of_be,
    spec_u32_of_be, vec_range,
};

verus! {

// ---------------------------------------------------------------------------
// Spec-level encoders
// ---------------------------------------------------------------------------
/// An unsigned integer in its shortest form: positive fixint, uint 8,
/// uint 16 or uint 32.
pub open spec fn sp_enc_uint(v: u32) -> Seq<u8> {
    if v <= 0x7f {
        seq![v as u8]
    } else if v <= 0xff {
        seq![0xccu8, v as u8]
    } else if v <= 0xffff {
        seq![0xcdu8] + spec_be16(v as u16)
    } else {
        seq![0xceu8] + spec_be32(v)
    }
}

pub open spec fn sp_enc_bool(b: bool) -> Seq<u8> {
    if b {
        seq![0xc3u8]
    } else {
        seq![0xc2u8]
    }
}

/// A binary blob of at most 255 bytes: the bin 8 form.
pub open spec fn sp_enc_bin(s: Seq<u8>) -> Seq<u8>
    recommends
        s.len() <= 255,
{
    seq![0xc4u8, s.len() as u8] + s
}

/// A string of at most 255 bytes: fixstr where it fits, else str 8.
pub open spec fn sp_enc_str(s: Seq<u8>) -> Seq<u8>
    recommends
        s.len() <= 255,
{
    if s.len() <= 31 {
        seq![(0xa0 + s.len()) as u8] + s
    } else {
        seq![0xd9u8, s.len() as u8] + s
    }
}

/// An array header: fixarray where it fits, else array 16.
pub open spec fn sp_enc_array_header(n: int) -> Seq<u8>
    recommends
        0 <= n <= 0xffff,
{
    if n <= 15 {
        seq![(0x90 + n) as u8]
    } else {
        seq![0xdcu8] + spec_be16(n as u16)
    }
}

/// A map header: always the fixmap form (messages have few fields).
pub open spec fn sp_enc_map_header(n: int) -> Seq<u8>
    recommends
        0 <= n <= 15,
{
    seq![(0x80 + n) as u8]
}

/// The strings of `xs` from index `i` on, each encoded, concatenated.
pub open spec fn sp_enc_strs_from(xs: Seq<Seq<u8>>, i: int) -> Seq<u8>
    decreases xs.len() - i,
{
    if i < 0 || i >= xs.len() {
        Seq::empty()
    } else {
        sp_enc_str(xs[i]) + sp_enc_strs_from(xs, i + 1)
    }
}

/// An array of strings.
pub open spec fn sp_enc_str_array(xs: Seq<Seq<u8>>) -> Seq<u8> {
    sp_enc_array_header(xs.len() as int) + sp_enc_strs_from(xs, 0)
}

/// The bytes of `xs` from index `i` on, each encoded as an unsigned
/// integer, concatenated.
pub open spec fn sp_enc_uints_from(xs: Seq<u8>, i: int) -> Seq<u8>
    decreases xs.len() - i,
{
    if i < 0 || i >= xs.len() {
        Seq::empty()
    } else {
        sp_enc_uint(xs[i] as u32) + sp_enc_uints_from(xs, i + 1)
    }
}

/// An array of byte-sized unsigned integers.
pub open spec fn sp_enc_u8_array(xs: Seq<u8>) -> Seq<u8> {
    sp_enc_array_header(xs.len() as int) + sp_enc_uints_from(xs, 0)
}

// ---------------------------------------------------------------------------
// Spec-level parsers, remainder style: each takes the not-yet-consumed
// bytes and returns the parsed value and the remainder, or nothing when the
// bytes are malformed.
// ---------------------------------------------------------------------------
pub open spec fn sp_uint(s: Seq<u8>) -> Option<(u32, Seq<u8>)> {
    if s.len() == 0 {
        None
    } else if s[0] <= 0x7f {
        Some(((s[0] as u32), s.skip(1)))
    } else if s[0] == 0xcc {
        if s.len() >= 2 {
            Some(((s[1] as u32), s.skip(2)))
        } else {
            None
        }
    } else if s[0] == 0xcd {
        if s.len() >= 3 {
            Some(((spec_u16_of_be(s[1], s[2]) as u32), s.skip(3)))
        } else {
            None
        }
    } else if s[0] == 0xce {
        if s.len() >= 5 {
            Some((spec_u32_of_be(s[1], s[2], s[3], s[4]), s.skip(5)))
        } else {
            None
        }
    } else {
        None
    }
}

pub open spec fn sp_bool(s: Seq<u8>) -> Option<(bool, Seq<u8>)> {
    if s.len() == 0 {
        None
    } else if s[0] == 0xc2 {
        Some((false, s.skip(1)))
    } else if s[0] == 0xc3 {
        Some((true, s.skip(1)))
    } else {
        None
    }
}

pub open spec fn sp_bin(s: Seq<u8>) -> Option<(Seq<u8>, Seq<u8>)> {
    if s.len() >= 2 && s[0] == 0xc4 {
        let n = s[1] as int;
        if s.len() >= 2 + n {
            Some((s.subrange(2, 2 + n), s.skip(2 + n)))
        } else {
            None
        }
    } else {
        None
    }
}

pub open spec fn sp_str(s: Seq<u8>) -> Option<(Seq<u8>, Seq<u8>)> {
    if s.len() >= 1 && 0xa0 <= s[0] <= 0xbf {
        let n = s[0] - 0xa0;
        if s.len() >= 1 + n {
            Some((s.subrange(1, 1 + n), s.skip(1 + n)))
        } else {
            None
        }
    } else if s.len() >= 2 && s[0] == 0xd9 {
        let n = s[1] as int;
        if s.len() >= 2 + n {
            Some((s.subrange(2, 2 + n), s.skip(2 + n)))
        } else {
            None
        }
    } else {
        None
    }
}

pub open spec fn sp_array_header(s: Seq<u8>) -> Option<(u32, Seq<u8>)> {
    if s.len() >= 1 && 0x90 <= s[0] <= 0x9f {
        Some((((s[0] - 0x90) as u32), s.skip(1)))
    } else if s.len() >= 3 && s[0] == 0xdc {
        Some(((spec_u16_of_be(s[1], s[2]) as u32), s.skip(3)))
    } else {
        None
    }
}

pub open spec fn sp_map_header(s: Seq<u8>) -> Option<(u32, Seq<u8>)> {
    if s.len() >= 1 && 0x80 <= s[0] <= 0x8f {
        Some((((s[0] - 0x80) as u32), s.skip(1)))
    } else {
        None
    }
}

/// Skip one value of a shape this codec never writes itself: nil, booleans,
/// integers of either sign, floating markers, strings and binary blobs.
/// Containers in unknown fields are not accepted.
pub open spec fn sp_skip(s: Seq<u8>) -> Option<Seq<u8>> {
    if s.len() == 0 {
        None
    } else {
        let b = s[0];
        if b <= 0x7f || b >= 0xe0 || b == 0xc0 || b == 0xc2 || b == 0xc3 {
            Some(s.skip(1))
        } else if b == 0xcc || b == 0xd0 {
            if s.len() >= 2 {
                Some(s.skip(2))
            } else {
                None
            }
        } else if b == 0xcd || b == 0xd1 {
            if s.len() >= 3 {
                Some(s.skip(3))
            } else {
                None
            }
        } else if b == 0xce || b == 0xd2 || b == 0xca {
            if s.len() >= 5 {
                Some(s.skip(5))
            } else {
                None
            }
        } else if b == 0xcf || b == 0xd3 || b == 0xcb {
            if s.len() >= 9 {
                Some(s.skip(9))
            } else {
                None
            }
        } else if 0xa0 <= b <= 0xbf {
            let n = b - 0xa0;
            if s.len() >= 1 + n {
                Some(s.skip(1 + n))
            } else {
                None
            }
        } else if b == 0xd9 || b == 0xc4 {
            if s.len() >= 2 && s.len() >= 2 + s[1] {
                Some(s.skip(2 + s[1]))
            } else {
                None
            }
        } else if b == 0xda || b == 0xc5 {
            if s.len() >= 3 && s.len() >= 3 + spec_u16_of_be(s[1], s[2]) {
                Some(s.skip(3 + spec_u16_of_be(s[1], s[2])))
            } else {
                None
            }
        } else {
            None
        }
    }
}

/// Parse `n` strings in a row.
pub open spec fn sp_str_list(s: Seq<u8>, n: nat) -> Option<(Seq<Seq<u8>>, Seq<u8>)>
    decreases n,
{
    if n == 0 {
        Some((Seq::empty(), s))
    } else {
        match sp_str(s) {
            None => None,
            Some((x, r)) => match sp_str_list(r, (n - 1) as nat) {
                None => None,
                Some((xs, r2)) => Some((seq![x] + xs, r2)),
            },
        }
    }
}

/// Parse `n` byte-sized unsigned integers in a row; a value above 255 is
/// malformed here.
pub open spec fn sp_u8_list(s: Seq<u8>, n: nat) -> Option<(Seq<u8>, Seq<u8>)>
    decreases n,
{
    if n == 0 {
        Some((Seq::empty(), s))
    } else {
        match sp_uint(s) {
            None => None,
            Some((v, r)) => if v > 0xff {
                None
            } else {
                match sp_u8_list(r, (n - 1) as nat) {
                    None => None,
                    Some((xs, r2)) => Some((seq![v as u8] + xs, r2)),
                }
            },
        }
    }
}

// ---------------------------------------------------------------------------
// Inversion lemmas: parsing undoes encoding, whatever follows.
// ---------------------------------------------------------------------------
pub proof fn lemma_inv_uint(v: u32, rest: Seq<u8>)
    ensures
        sp_uint(sp_enc_uint(v) + rest) == Some((v, rest)),
{
    let s = sp_enc_uint(v) + rest;
    if v <= 0x7f {
        assert(s.skip(1) =~= rest);
    } else if v <= 0xff {
        assert(s.skip(2) =~= rest);
    } else if v <= 0xffff {
        crate::bytes::lemma_be16_roundtrip(v as u16);
        assert(s.skip(3) =~= rest);
    } else {
        crate::bytes::lemma_be32_roundtrip(v);
        assert(s.skip(5) =~= rest);
    }
}

pub proof fn lemma_inv_bool(b: bool, rest: Seq<u8>)
    ensures
        sp_bool(sp_enc_bool(b) + rest) == Some((b, rest)),
{
    let s = sp_enc_bool(b) + rest;
    assert(s.skip(1) =~= rest);
}

pub proof fn lemma_inv_bin(x: Seq<u8>, rest: Seq<u8>)
    requires
        x.len() <= 255,
    ensures
        sp_bin(sp_enc_bin(x) + rest) == Some((x, rest)),
{
    let s = sp_enc_bin(x) + rest;
    let n = x.len() as int;
    assert(s.subrange(2, 2 + n) =~= x);
    assert(s.skip(2 + n) =~= rest);
}

pub proof fn lemma_inv_str(x: Seq<u8>, rest: Seq<u8>)
    requires
        x.len() <= 255,
    ensures
        sp_str(sp_enc_str(x) + rest) == Some((x, rest)),
{
    let s = sp_enc_str(x) + rest;
    let n = x.len() as int;
    if x.len() <= 31 {
        assert(s[0] == 0xa0 + n);
        assert(s.subrange(1, 1 + n) =~= x);
        assert(s.skip(1 + n) =~= rest);
    } else {
        assert(s.subrange(2, 2 + n) =~= x);
        assert(s.skip(2 + n) =~= rest);
    }
}

pub proof fn lemma_inv_array_header(n: int, rest: Seq<u8>)
    requires
        0 <= n <= 0xffff,
    ensures
        sp_array_header(sp_enc_array_header(n) + rest) == Some((n as u32, rest)),
{
    let s = sp_enc_array_header(n) + rest;
    if n <= 15 {
        assert(s.skip(1) =~= rest);
    } else {
        crate::bytes::lemma_be16_roundtrip(n as u16);
        assert(s.skip(3) =~= rest);
    }
}

pub proof fn lemma_inv_map_header(n: int, rest: Seq<u8>)
    requires
        0 <= n <= 15,
    ensures
        sp_map_header(sp_enc_map_header(n) + rest) == Some((n as u32, rest)),
{
    let s = sp_enc_map_header(n) + rest;
    assert(s.skip(1) =~= rest);
}

pub proof fn lemma_inv_str_list(xs: Seq<Seq<u8>>, i: int, rest: Seq<u8>)
    requires
        0 <= i <= xs.len(),
        forall|j: int| 0 <= j < xs.len() ==> #[trigger] xs[j].len() <= 255,
    ensures
        sp_str_list(sp_enc_strs_from(xs, i) + rest, (xs.len() - i) as nat) == Some(
            (xs.skip(i), rest),
        ),
    decreases xs.len() - i,
{
    if i == xs.len() {
        assert(sp_enc_strs_from(xs, i) + rest =~= rest);
        assert(xs.skip(i) =~= Seq::<Seq<u8>>::empty());
    } else {
        lemma_inv_str_list(xs, i + 1, rest);
        assert(sp_enc_strs_from(xs, i) + rest =~= sp_enc_str(xs[i]) + (sp_enc_strs_from(xs, i + 1)
            + rest));
        lemma_inv_str(xs[i], sp_enc_strs_from(xs, i + 1) + rest);
        assert(seq![xs[i]] + xs.skip(i + 1) =~= xs.skip(i));
    }
}

pub proof fn lemma_inv_u8_list(xs: Seq<u8>, i: int, rest: Seq<u8>)
    requires
        0 <= i <= xs.len(),
    ensures
        sp_u8_list(sp_enc_uints_from(xs, i) + rest, (xs.len() - i) as nat) == Some(
            (xs.skip(i), rest),
        ),
    decreases xs.len() - i,
{
    if i == xs.len() {
        assert(sp_enc_uints_from(xs, i) + rest =~= rest);
        assert(xs.skip(i) =~= Seq::<u8>::empty());
    } else {
        lemma_inv_u8_list(xs, i + 1, rest);
        assert(sp_enc_uints_from(xs, i) + rest =~= sp_enc_uint(xs[i] as u32) + (sp_enc_uints_from(
            xs,
            i + 1,
        ) + rest));
        lemma_inv_uint(xs[i] as u32, sp_enc_uints_from(xs, i + 1) + rest);
        assert(seq![xs[i]] + xs.skip(i + 1) =~= xs.skip(i));
    }
}

// ---------------------------------------------------------------------------
// Executable encoders
// ---------------------------------------------------------------------------
pub fn enc_uint(out: &mut Vec<u8>, v: u32)
    ensures
        final(out)@ == old(out)@ + sp_enc_uint(v),
{
    let ghost orig = out@;
    if v <= 0x7f {
        out.push(v as u8);
    } else if v <= 0xff {
        out.push(0xcc);
        out.push(v as u8);
    } else if v <= 0xffff {
        out.push(0xcd);
        push_be16(out, v as u16);
    } else {
        out.push(0xce);
        push_be32(out, v);
    }
    proof {
        assert(out@ =~= orig + sp_enc_uint(v));
    }
}

pub fn enc_bool(out: &mut Vec<u8>, b: bool)
    ensures
        final(out)@ == old(out)@ + sp_enc_bool(b),
{
    let ghost orig = out@;
    if b {
        out.push(0xc3);
    } else {
        out.push(0xc2);
    }
    proof {
        assert(out@ =~= orig + sp_enc_bool(b));
    }
}

pub fn enc_bin(out: &mut Vec<u8>, x: &Vec<u8>)
    requires
        x@.len() <= 255,
    ensures
        final(out)@ == old(out)@ + sp_enc_bin(x@),
{
    let ghost orig = out@;
    out.push(0xc4);
    out.push(x.len() as u8);
    let mut i: usize = 0;
    while i < x.len()
        invariant
            0 <= i <= x@.len(),
            out@ == orig + seq![0xc4u8, x@.len() as u8] + x@.subrange(0, i as int),
        decreases x@.len() - i,
    {
        out.push(x[i]);
        proof {
            assert(orig + seq![0xc4u8, x@.len() as u8] + x@.subrange(0, i as int) + seq![x@[i as int]]
                =~= orig + seq![0xc4u8, x@.len() as u8] + x@.subrange(0, i + 1));
        }
        i += 1;
    }
    proof {
        assert(x@.subrange(0, x@.len() as int) =~= x@);
        assert(out@ =~= orig + sp_enc_bin(x@));
    }
}

pub fn enc_str(out: &mut Vec<u8>, x: &Vec<u8>)
    requires
        x@.len() <= 255,
    ensures
        final(out)@ == old(out)@ + sp_enc_str(x@),
{
    let ghost orig = out@;
    let ghost hdr: Seq<u8> = if x@.len() <= 31 {
        seq![(0xa0 + x@.len()) as u8]
    } else {
        seq![0xd9u8, x@.len() as u8]
    };
    if x.len() <= 31 {
        out.push(0xa0 + x.len() as u8);
    } else {
        out.push(0xd9);
        out.push(x.len() as u8);
    }
    proof {
        assert(out@ =~= orig + hdr);
    }
    let mut i: usize = 0;
    while i < x.len()
        invariant
            0 <= i <= x@.len(),
            hdr == (if x@.len() <= 31 {
                seq![(0xa0 + x@.len()) as u8]
            } else {
                seq![0xd9u8, x@.len() as u8]
            }),
            out@ == orig + hdr + x@.subrange(0, i as int),
        decreases x@.len() - i,
    {
        out.push(x[i]);
        proof {
            assert(orig + hdr + x@.subrange(0, i as int) + seq![x@[i as int]] =~= orig + hdr + x@
                .subrange(0, i + 1));
        }
        i += 1;
    }
    proof {
        assert(x@.subrange(0, x@.len() as int) =~= x@);
        assert(out@ =~= orig + sp_enc_str(x@));
    }
}

pub fn enc_array_header(out: &mut Vec<u8>, n: usize)
    requires
        n <= 0xffff,
    ensures
        final(out)@ == old(out)@ + sp_enc_array_header(n as int),
{
    let ghost orig = out@;
    if n <= 15 {
        out.push(0x90 + n as u8);
    } else {
        out.push(0xdc);
        push_be16(out, n as u16);
    }
    proof {
        assert(out@ =~= orig + sp_enc_array_header(n as int));
    }
}

pub fn enc_map_header(out: &mut Vec<u8>, n: usize)
    requires
        n <= 15,
    ensures
        final(out)@ == old(out)@ + sp_enc_map_header(n as int),
{
    let ghost orig = out@;
    out.push(0x80 + n as u8);
    proof {
        assert(out@ =~= orig + sp_enc_map_header(n as int));
    }
}

// ---------------------------------------------------------------------------
// Executable parsers, each proved to agree with its spec-level parser on
// the suffix of the input that starts at `pos`.
// ---------------------------------------------------------------------------
pub fn p_uint(bytes: &Vec<u8>, pos: usize) -> (r: Option<(u32, usize)>)
    requires
        pos <= bytes@.len(),
    ensures
        match r {
            Some((v, p)) => pos <= p <= bytes@.len() && sp_uint(bytes@.skip(pos as int)) == Some(
                (v, bytes@.skip(p as int)),
            ),
            None => sp_uint(bytes@.skip(pos as int)) is None,
        },
{
    let len: usize = bytes.len();
    let ghost s = bytes@.skip(pos as int);
    if pos >= len {
        return None;
    }
    let b = bytes[pos];
    assert(s[0] == b);
    if b <= 0x7f {
        proof {
            assert(s.skip(1) =~= bytes@.skip(pos + 1));
        }
        Some((b as u32, pos + 1))
    } else if b == 0xcc {
        if len - pos < 2 {
            return None;
        }
        let v = bytes[pos + 1];
        proof {
            assert(s[1] == v);
            assert(s.skip(2) =~= bytes@.skip(pos + 2));
        }
        Some((v as u32, pos + 2))
    } else if b == 0xcd {
        if len - pos < 3 {
            return None;
        }
        let v = read_be16(bytes, pos + 1);
        proof {
            assert(s[1] == bytes@[pos + 1] && s[2] == bytes@[pos + 2]);
            assert(s.skip(3) =~= bytes@.skip(pos + 3));
        }
        Some((v as u32, pos + 3))
    } else if b == 0xce {
        if len - pos < 5 {
            return None;
        }
        let v = read_be32(bytes, pos + 1);
        proof {
            assert(s[1] == bytes@[pos + 1] && s[2] == bytes@[pos + 2] && s[3] == bytes@[pos + 3]
                && s[4] == bytes@[pos + 4]);
            assert(s.skip(5) =~= bytes@.skip(pos + 5));
        }
        Some((v, pos + 5))
    } else {
        None
    }
}

pub fn p_bool(bytes: &Vec<u8>, pos: usize) -> (r: Option<(bool, usize)>)
    requires
        pos <= bytes@.len(),
    ensures
        match r {
            Some((v, p)) => pos <= p <= bytes@.len() && sp_bool(bytes@.skip(pos as int)) == Some(
                (v, bytes@.skip(p as int)),
            ),
            None => sp_bool(bytes@.skip(pos as int)) is None,
        },
{
    let len: usize = bytes.len();
    let ghost s = bytes@.skip(pos as int);
    if pos >= len {
        return None;
    }
    let b = bytes[pos];
    assert(s[0] == b);
    if b == 0xc2 || b == 0xc3 {
        proof {
            assert(s.skip(1) =~= bytes@.skip(pos + 1));
        }
        Some((b == 0xc3, pos + 1))
    } else {
        None
    }
}

pub fn p_bin(bytes: &Vec<u8>, pos: usize) -> (r: Option<(Vec<u8>, usize)>)
    requires
        pos <= bytes@.len(),
    ensures
        match r {
            Some((v, p)) => pos <= p <= bytes@.len() && sp_bin(bytes@.skip(pos as int)) == Some(
                (v@, bytes@.skip(p as int)),
            ),
            None => sp_bin(bytes@.skip(pos as int)) is None,
        },
{
    let len: usize = bytes.len();
    let ghost s = bytes@.skip(pos as int);
    if len - pos < 2 {
        return None;
    }
    let b = bytes[pos];
    assert(s[0] == b && s[1] == bytes@[pos + 1]);
    if b != 0xc4 {
        return None;
    }
    let n = bytes[pos + 1] as usize;
    if n > len - (pos + 2) {
        return None;
    }
    let v = vec_range(bytes, pos + 2, n);
    proof {
        assert(v@ =~= s.subrange(2, 2 + n));
        assert(s.skip(2 + n) =~= bytes@.skip(pos + 2 + n));
    }
    Some((v, pos + 2 + n))
}

pub fn p_str(bytes: &Vec<u8>, pos: usize) -> (r: Option<(Vec<u8>, usize)>)
    requires
        pos <= bytes@.len(),
    ensures
        match r {
            Some((v, p)) => pos <= p <= bytes@.len() && sp_str(bytes@.skip(pos as int)) == Some(
                (v@, bytes@.skip(p as int)),
            ),
            None => sp_str(bytes@.skip(pos as int)) is None,
        },
{
    let len: usize = bytes.len();
    let ghost s = bytes@.skip(pos as int);
    if pos >= len {
        return None;
    }
    let b = bytes[pos];
    assert(s[0] == b);
    if 0xa0 <= b && b <= 0xbf {
        let n = (b - 0xa0) as usize;
        if n > len - (pos + 1) {
            return None;
        }
        let v = vec_range(bytes, pos + 1, n);
        proof {
            assert(v@ =~= s.subrange(1, 1 + n));
            assert(s.skip(1 + n) =~= bytes@.skip(pos + 1 + n));
        }
        Some((v, pos + 1 + n))
    } else if b == 0xd9 {
        if len - pos < 2 {
            return None;
        }
        let n = bytes[pos + 1] as usize;
        assert(s[1] == bytes@[pos + 1]);
        if n > len - (pos + 2) {
            return None;
        }
        let v = vec_range(bytes, pos + 2, n);
        proof {
            assert(v@ =~= s.subrange(2, 2 + n));
            assert(s.skip(2 + n) =~= bytes@.skip(pos + 2 + n));
        }
        Some((v, pos + 2 + n))
    } else {
        None
    }
}

pub fn p_array_header(bytes: &Vec<u8>, pos: usize) -> (r: Option<(u32, usize)>)
    requires
        pos <= bytes@.len(),
    ensures
        match r {
            Some((v, p)) => pos <= p <= bytes@.len() && sp_array_header(bytes@.skip(pos as int))
                == Some((v, bytes@.skip(p as int))),
            None => sp_array_header(bytes@.skip(pos as int)) is None,
        },
{
    let len: usize = bytes.len();
    let ghost s = bytes@.skip(pos as int);
    if pos >= len {
        return None;
    }
    let b = bytes[pos];
    assert(s[0] == b);
    if 0x90 <= b && b <= 0x9f {
        proof {
            assert(s.skip(1) =~= bytes@.skip(pos + 1));
        }
        Some(((b - 0x90) as u32, pos + 1))
    } else if b == 0xdc {
        if len - pos < 3 {
            return None;
        }
        let v = read_be16(bytes, pos + 1);
        proof {
            assert(s[1] == bytes@[pos + 1] && s[2] == bytes@[pos + 2]);
            assert(s.skip(3) =~= bytes@.skip(pos + 3));
        }
        Some((v as u32, pos + 3))
    } else {
        None
    }
}

pub fn p_map_header(bytes: &Vec<u8>, pos: usize) -> (r: Option<(u32, usize)>)
    requires
        pos <= bytes@.len(),
    ensures
        match r {
            Some((v, p)) => pos <= p <= bytes@.len() && sp_map_header(bytes@.skip(pos as int))
                == Some((v, bytes@.skip(p as int))),
            None => sp_map_header(bytes@.skip(pos as int)) is None,
        },
{
    let len: usize = bytes.len();
    let ghost s = bytes@.skip(pos as int);
    if pos >= len {
        return None;
    }
    let b = bytes[pos];
    assert(s[0] == b);
    if 0x80 <= b && b <= 0x8f {
        proof {
            assert(s.skip(1) =~= bytes@.skip(pos + 1));
        }
        Some(((b - 0x80) as u32, pos + 1))
    } else {
        None
    }
}

pub fn p_skip(bytes: &Vec<u8>, pos: usize) -> (r: Option<usize>)
    requires
        pos <= bytes@.len(),
    ensures
        match r {
            Some(p) => pos <= p <= bytes@.len() && sp_skip(bytes@.skip(pos as int)) == Some(
                bytes@.skip(p as int),
            ),
            None => sp_skip(bytes@.skip(pos as int)) is None,
        },
{
    let len: usize = bytes.len();
    let ghost s = bytes@.skip(pos as int);
    if pos >= len {
        return None;
    }
    let b = bytes[pos];
    assert(s[0] == b);
    let width: usize = if b <= 0x7f || b >= 0xe0 || b == 0xc0 || b == 0xc2 || b == 0xc3 {
        1
    } else if b == 0xcc || b == 0xd0 {
        2
    } else if b == 0xcd || b == 0xd1 {
        3
    } else if b == 0xce || b == 0xd2 || b == 0xca {
        5
    } else if b == 0xcf || b == 0xd3 || b == 0xcb {
        9
    } else if 0xa0 <= b && b <= 0xbf {
        1 + (b - 0xa0) as usize
    } else if b == 0xd9 || b == 0xc4 {
        if len - pos < 2 {
            return None;
        }
        assert(s[1] == bytes@[pos + 1]);
        2 + bytes[pos + 1] as usize
    } else if b == 0xda || b == 0xc5 {
        if len - pos < 3 {
            return None;
        }
        assert(s[1] == bytes@[pos + 1] && s[2] == bytes@[pos + 2]);
        3 + read_be16(bytes, pos + 1) as usize
    } else {
        return None;
    };
    if width > len - pos {
        return None;
    }
    proof {
        assert(s.skip(width as int) =~= bytes@.skip(pos + width));
    }
    Some(pos + width)
}


// ---------------------------------------------------------------------------
// The field names and type discriminators of the message format, as byte
// strings, each as a spec constant with the matching executable builder.
// ---------------------------------------------------------------------------
/// The bytes of `"type"`.
pub open spec fn spec_kw_type() -> Seq<u8> {
    seq![0x74u8, 0x79, 0x70, 0x65]
}

pub fn kw_type() -> (r: Vec<u8>)
    ensures
        r@ == spec_kw_type(),
{
    let mut v: Vec<u8> = Vec::new();
    v.push(0x74);
    v.push(0x79);
    v.push(0x70);
    v.push(0x65);
    proof {
        assert(v@ =~= spec_kw_type());
    }
    v
}

/// The bytes of `"key"`.
pub open spec fn spec_kw_key() -> Seq<u8> {
    seq![0x6bu8, 0x65, 0x79]
}

pub fn kw_key() -> (r: Vec<u8>)
    ensures
        r@ == spec_kw_key(),
{
    let mut v: Vec<u8> = Vec::new();
    v.push(0x6b);
    v.push(0x65);
    v.push(0x79);
    proof {
        assert(v@ =~= spec_kw_key());
    }
    v
}

/// The bytes of `"your_cookie"`.
pub open spec fn spec_kw_your_cookie() -> Seq<u8> {
    seq![0x79u8, 0x6f, 0x75, 0x72, 0x5f, 0x63, 0x6f, 0x6f, 0x6b, 0x69, 0x65]
}

pub fn kw_your_cookie() -> (r: Vec<u8>)
    ensures
        r@ == spec_kw_your_cookie(),
{
    let mut v: Vec<u8> = Vec::new();
    v.push(0x79);
    v.push(0x6f);
    v.push(0x75);
    v.push(0x72);
    v.push(0x5f);
    v.push(0x63);
    v.push(0x6f);
    v.push(0x6f);
    v.push(0x6b);
    v.push(0x69);
    v.push(0x65);
    proof {
        assert(v@ =~= spec_kw_your_cookie());
    }
    v
}

/// The bytes of `"subprotocols"`.
pub open spec fn spec_kw_subprotocols() -> Seq<u8> {
    seq![0x73u8, 0x75, 0x62, 0x70, 0x72, 0x6f, 0x74, 0x6f, 0x63, 0x6f, 0x6c, 0x73]
}

pub fn kw_subprotocols() -> (r: Vec<u8>)
    ensures
        r@ == spec_kw_subprotocols(),
{
    let mut v: Vec<u8> = Vec::new();
    v.push(0x73);
    v.push(0x75);
    v.push(0x62);
    v.push(0x70);
    v.push(0x72);
    v.push(0x6f);
    v.push(0x74);
    v.push(0x6f);
    v.push(0x63);
    v.push(0x6f);
    v.push(0x6c);
    v.push(0x73);
    proof {
        assert(v@ =~= spec_kw_subprotocols());
    }
    v
}

/// The bytes of `"ping_interval"`.
pub open spec fn spec_kw_ping_interval() -> Seq<u8> {
    seq![0x70u8, 0x69, 0x6e, 0x67, 0x5f, 0x69, 0x6e, 0x74, 0x65, 0x72, 0x76, 0x61, 0x6c]
}

pub fn kw_ping_interval() -> (r: Vec<u8>)
    ensures
        r@ == spec_kw_ping_interval(),
{
    let mut v: Vec<u8> = Vec::new();
    v.push(0x70);
    v.push(0x69);
    v.push(0x6e);
    v.push(0x67);
    v.push(0x5f);
    v.push(0x69);
    v.push(0x6e);
    v.push(0x74);
    v.push(0x65);
    v.push(0x72);
    v.push(0x76);
    v.push(0x61);
    v.push(0x6c);
    proof {
        assert(v@ =~= spec_kw_ping_interval());
    }
    v
}

/// The bytes of `"your_key"`.
pub open spec fn spec_kw_your_key() -> Seq<u8> {
    seq![0x79u8, 0x6f, 0x75, 0x72, 0x5f, 0x6b, 0x65, 0x79]
}

pub fn kw_your_key() -> (r: Vec<u8>)
    ensures
        r@ == spec_kw_your_key(),
{
    let mut v: Vec<u8> = Vec::new();
    v.push(0x79);
    v.push(0x6f);
    v.push(0x75);
    v.push(0x72);
    v.push(0x5f);
    v.push(0x6b);
    v.push(0x65);
    v.push(0x79);
    proof {
        assert(v@ =~= spec_kw_your_key());
    }
    v
}

/// The bytes of `"signed_keys"`.
pub open spec fn spec_kw_signed_keys() -> Seq<u8> {
    seq![0x73u8, 0x69, 0x67, 0x6e, 0x65, 0x64, 0x5f, 0x6b, 0x65, 0x79, 0x73]
}

pub fn kw_signed_keys() -> (r: Vec<u8>)
    ensures
        r@ == spec_kw_signed_keys(),
{
    let mut v: Vec<u8> = Vec::new();
    v.push(0x73);
    v.push(0x69);
    v.push(0x67);
    v.push(0x6e);
    v.push(0x65);
    v.push(0x64);
    v.push(0x5f);
    v.push(0x6b);
    v.push(0x65);
    v.push(0x79);
    v.push(0x73);
    proof {
        assert(v@ =~= spec_kw_signed_keys());
    }
    v
}

/// The bytes of `"responders"`.
pub open spec fn spec_kw_responders() -> Seq<u8> {
    seq![0x72u8, 0x65, 0x73, 0x70, 0x6f, 0x6e, 0x64, 0x65, 0x72, 0x73]
}

pub fn kw_responders() -> (r: Vec<u8>)
    ensures
        r@ == spec_kw_responders(),
{
    let mut v: Vec<u8> = Vec::new();
    v.push(0x72);
    v.push(0x65);
    v.push(0x73);
    v.push(0x70);
    v.push(0x6f);
    v.push(0x6e);
    v.push(0x64);
    v.push(0x65);
    v.push(0x72);
    v.push(0x73);
    proof {
        assert(v@ =~= spec_kw_responders());
    }
    v
}

/// The bytes of `"initiator_connected"`.
pub open spec fn spec_kw_initiator_connected() -> Seq<u8> {
    seq![0x69u8, 0x6e, 0x69, 0x74, 0x69, 0x61, 0x74, 0x6f, 0x72, 0x5f, 0x63, 0x6f, 0x6e, 0x6e, 0x65, 0x63, 0x74, 0x65, 0x64]
}

pub fn kw_initiator_connected() -> (r: Vec<u8>)
    ensures
        r@ == spec_kw_initiator_connected(),
{
    let mut v: Vec<u8> = Vec::new();
    v.push(0x69);
    v.push(0x6e);
    v.push(0x69);
    v.push(0x74);
    v.push(0x69);
    v.push(0x61);
    v.push(0x74);
    v.push(0x6f);
    v.push(0x72);
    v.push(0x5f);
    v.push(0x63);
    v.push(0x6f);
    v.push(0x6e);
    v.push(0x6e);
    v.push(0x65);
    v.push(0x63);
    v.push(0x74);
    v.push(0x65);
    v.push(0x64);
    proof {
        assert(v@ =~= spec_kw_initiator_connected());
    }
    v
}

/// The bytes of `"id"`.
pub open spec fn spec_kw_id() -> Seq<u8> {
    seq![0x69u8, 0x64]
}

pub fn kw_id() -> (r: Vec<u8>)
    ensures
        r@ == spec_kw_id(),
{
    let mut v: Vec<u8> = Vec::new();
    v.push(0x69);
    v.push(0x64);
    proof {
        assert(v@ =~= spec_kw_id());
    }
    v
}

/// The bytes of `"reason"`.
pub open spec fn spec_kw_reason() -> Seq<u8> {
    seq![0x72u8, 0x65, 0x61, 0x73, 0x6f, 0x6e]
}

pub fn kw_reason() -> (r: Vec<u8>)
    ensures
        r@ == spec_kw_reason(),
{
    let mut v: Vec<u8> = Vec::new();
    v.push(0x72);
    v.push(0x65);
    v.push(0x61);
    v.push(0x73);
    v.push(0x6f);
    v.push(0x6e);
    proof {
        assert(v@ =~= spec_kw_reason());
    }
    v
}

/// The bytes of `"server-hello"`.
pub open spec fn spec_tt_server_hello() -> Seq<u8> {
    seq![0x73u8, 0x65, 0x72, 0x76, 0x65, 0x72, 0x2d, 0x68, 0x65, 0x6c, 0x6c, 0x6f]
}

pub fn tt_server_hello() -> (r: Vec<u8>)
    ensures
        r@ == spec_tt_server_hello(),
{
    let mut v: Vec<u8> = Vec::new();
    v.push(0x73);
    v.push(0x65);
    v.push(0x72);
    v.push(0x76);
    v.push(0x65);
    v.push(0x72);
    v.push(0x2d);
    v.push(0x68);
    v.push(0x65);
    v.push(0x6c);
    v.push(0x6c);
    v.push(0x6f);
    proof {
        assert(v@ =~= spec_tt_server_hello());
    }
    v
}

/// The bytes of `"client-hello"`.
pub open spec fn spec_tt_client_hello() -> Seq<u8> {
    seq![0x63u8, 0x6c, 0x69, 0x65, 0x6e, 0x74, 0x2d, 0x68, 0x65, 0x6c, 0x6c, 0x6f]
}

pub fn tt_client_hello() -> (r: Vec<u8>)
    ensures
        r@ == spec_tt_client_hello(),
{
    let mut v: Vec<u8> = Vec::new();
    v.push(0x63);
    v.push(0x6c);
    v.push(0x69);
    v.push(0x65);
    v.push(0x6e);
    v.push(0x74);
    v.push(0x2d);
    v.push(0x68);
    v.push(0x65);
    v.push(0x6c);
    v.push(0x6c);
    v.push(0x6f);
    proof {
        assert(v@ =~= spec_tt_client_hello());
    }
    v
}

/// The bytes of `"client-auth"`.
pub open spec fn spec_tt_client_auth() -> Seq<u8> {
    seq![0x63u8, 0x6c, 0x69, 0x65, 0x6e, 0x74, 0x2d, 0x61, 0x75, 0x74, 0x68]
}

pub fn tt_client_auth() -> (r: Vec<u8>)
    ensures
        r@ == spec_tt_client_auth(),
{
    let mut v: Vec<u8> = Vec::new();
    v.push(0x63);
    v.push(0x6c);
    v.push(0x69);
    v.push(0x65);
    v.push(0x6e);
    v.push(0x74);
    v.push(0x2d);
    v.push(0x61);
    v.push(0x75);
    v.push(0x74);
    v.push(0x68);
    proof {
        assert(v@ =~= spec_tt_client_auth());
    }
    v
}

/// The bytes of `"server-auth"`.
pub open spec fn spec_tt_server_auth() -> Seq<u8> {
    seq![0x73u8, 0x65, 0x72, 0x76, 0x65, 0x72, 0x2d, 0x61, 0x75, 0x74, 0x68]
}

pub fn tt_server_auth() -> (r: Vec<u8>)
    ensures
        r@ == spec_tt_server_auth(),
{
    let mut v: Vec<u8> = Vec::new();
    v.push(0x73);
    v.push(0x65);
    v.push(0x72);
    v.push(0x76);
    v.push(0x65);
    v.push(0x72);
    v.push(0x2d);
    v.push(0x61);
    v.push(0x75);
    v.push(0x74);
    v.push(0x68);
    proof {
        assert(v@ =~= spec_tt_server_auth());
    }
    v
}

/// The bytes of `"new-responder"`.
pub open spec fn spec_tt_new_responder() -> Seq<u8> {
    seq![0x6eu8, 0x65, 0x77, 0x2d, 0x72, 0x65, 0x73, 0x70, 0x6f, 0x6e, 0x64, 0x65, 0x72]
}

pub fn tt_new_responder() -> (r: Vec<u8>)
    ensures
        r@ == spec_tt_new_responder(),
{
    let mut v: Vec<u8> = Vec::new();
    v.push(0x6e);
    v.push(0x65);
    v.push(0x77);
    v.push(0x2d);
    v.push(0x72);
    v.push(0x65);
    v.push(0x73);
    v.push(0x70);
    v.push(0x6f);
    v.push(0x6e);
    v.push(0x64);
    v.push(0x65);
    v.push(0x72);
    proof {
        assert(v@ =~= spec_tt_new_responder());
    }
    v
}

/// The bytes of `"drop-responder"`.
pub open spec fn spec_tt_drop_responder() -> Seq<u8> {
    seq![0x64u8, 0x72, 0x6f, 0x70, 0x2d, 0x72, 0x65, 0x73, 0x70, 0x6f, 0x6e, 0x64, 0x65, 0x72]
}

pub fn tt_drop_responder() -> (r: Vec<u8>)
    ensures
        r@ == spec_tt_drop_responder(),
{
    let mut v: Vec<u8> = Vec::new();
    v.push(0x64);
    v.push(0x72);
    v.push(0x6f);
    v.push(0x70);
    v.push(0x2d);
    v.push(0x72);
    v.push(0x65);
    v.push(0x73);
    v.push(0x70);
    v.push(0x6f);
    v.push(0x6e);
    v.push(0x64);
    v.push(0x65);
    v.push(0x72);
    proof {
        assert(v@ =~= spec_tt_drop_responder());
    }
    v
}

/// The bytes of `"send-error"`.
pub open spec fn spec_tt_send_error() -> Seq<u8> {
    seq![0x73u8, 0x65, 0x6e, 0x64, 0x2d, 0x65, 0x72, 0x72, 0x6f, 0x72]
}

pub fn tt_send_error() -> (r: Vec<u8>)
    ensures
        r@ == spec_tt_send_error(),
{
    let mut v: Vec<u8> = Vec::new();
    v.push(0x73);
    v.push(0x65);
    v.push(0x6e);
    v.push(0x64);
    v.push(0x2d);
    v.push(0x65);
    v.push(0x72);
    v.push(0x72);
    v.push(0x6f);
    v.push(0x72);
    proof {
        assert(v@ =~= spec_tt_send_error());
    }
    v
}

/// The bytes of `"token"`.
pub open spec fn spec_tt_token() -> Seq<u8> {
    seq![0x74u8, 0x6f, 0x6b, 0x65, 0x6e]
}

pub fn tt_token() -> (r: Vec<u8>)
    ensures
        r@ == spec_tt_token(),
{
    let mut v: Vec<u8> = Vec::new();
    v.push(0x74);
    v.push(0x6f);
    v.push(0x6b);
    v.push(0x65);
    v.push(0x6e);
    proof {
        assert(v@ =~= spec_tt_token());
    }
    v
}

} // verus!

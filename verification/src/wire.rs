//! Big-endian serialization of 64-bit integers and small byte-vector helpers.
//!
//! The token format stores its expiry timestamp as eight big-endian bytes;
//! the routines here state that encoding exactly and prove it reversible.

use vstd::prelude::*;

verus! {

/// The eight big-endian bytes of a 64-bit integer, most significant first.
pub open spec fn u64_be_bytes(v: u64) -> Seq<u8> {
    seq![
        (v >> 56) as u8,
        (v >> 48) as u8,
        (v >> 40) as u8,
        (v >> 32) as u8,
        (v >> 24) as u8,
        (v >> 16) as u8,
        (v >> 8) as u8,
        v as u8,
    ]
}

/// The 64-bit integer read from eight big-endian bytes.
pub open spec fn u64_from_be_bytes(b: Seq<u8>) -> u64
    recommends
        b.len() == 8,
{
    ((b[0] as u64) << 56) | ((b[1] as u64) << 48) | ((b[2] as u64) << 40) | ((b[3] as u64) << 32)
        | ((b[4] as u64) << 24) | ((b[5] as u64) << 16) | ((b[6] as u64) << 8) | (b[7] as u64)
}

/// Reading back the big-endian bytes of an integer restores the integer.
pub proof fn lemma_u64_be_round_trip(v: u64)
    ensures
        u64_from_be_bytes(u64_be_bytes(v)) == v,
{
    assert((((v >> 56) as u8 as u64) << 56) | (((v >> 48) as u8 as u64) << 48) | (((v
        >> 40) as u8 as u64) << 40) | (((v >> 32) as u8 as u64) << 32) | (((v
        >> 24) as u8 as u64) << 24) | (((v >> 16) as u8 as u64) << 16) | (((v
        >> 8) as u8 as u64) << 8) | ((v as u8) as u64) == v) by (bit_vector);
}

/// Re-serializing the integer read from eight bytes restores those bytes.
pub proof fn lemma_be_bytes_round_trip(b: Seq<u8>)
    requires
        b.len() == 8,
    ensures
        u64_be_bytes(u64_from_be_bytes(b)) == b,
{
    let b0 = b[0];
    let b1 = b[1];
    let b2 = b[2];
    let b3 = b[3];
    let b4 = b[4];
    let b5 = b[5];
    let b6 = b[6];
    let b7 = b[7];
    let v = u64_from_be_bytes(b);
    assert(v == ((b0 as u64) << 56) | ((b1 as u64) << 48) | ((b2 as u64) << 40) | ((b3 as u64)
        << 32) | ((b4 as u64) << 24) | ((b5 as u64) << 16) | ((b6 as u64) << 8) | (b7 as u64));
    assert(((((b0 as u64) << 56) | ((b1 as u64) << 48) | ((b2 as u64) << 40) | ((b3 as u64) << 32)
        | ((b4 as u64) << 24) | ((b5 as u64) << 16) | ((b6 as u64) << 8) | (b7 as u64)) >> 56) as u8
        == b0) by (bit_vector);
    assert(((((b0 as u64) << 56) | ((b1 as u64) << 48) | ((b2 as u64) << 40) | ((b3 as u64) << 32)
        | ((b4 as u64) << 24) | ((b5 as u64) << 16) | ((b6 as u64) << 8) | (b7 as u64)) >> 48) as u8
        == b1) by (bit_vector);
    assert(((((b0 as u64) << 56) | ((b1 as u64) << 48) | ((b2 as u64) << 40) | ((b3 as u64) << 32)
        | ((b4 as u64) << 24) | ((b5 as u64) << 16) | ((b6 as u64) << 8) | (b7 as u64)) >> 40) as u8
        == b2) by (bit_vector);
    assert(((((b0 as u64) << 56) | ((b1 as u64) << 48) | ((b2 as u64) << 40) | ((b3 as u64) << 32)
        | ((b4 as u64) << 24) | ((b5 as u64) << 16) | ((b6 as u64) << 8) | (b7 as u64)) >> 32) as u8
        == b3) by (bit_vector);
    assert(((((b0 as u64) << 56) | ((b1 as u64) << 48) | ((b2 as u64) << 40) | ((b3 as u64) << 32)
        | ((b4 as u64) << 24) | ((b5 as u64) << 16) | ((b6 as u64) << 8) | (b7 as u64)) >> 24) as u8
        == b4) by (bit_vector);
    assert(((((b0 as u64) << 56) | ((b1 as u64) << 48) | ((b2 as u64) << 40) | ((b3 as u64) << 32)
        | ((b4 as u64) << 24) | ((b5 as u64) << 16) | ((b6 as u64) << 8) | (b7 as u64)) >> 16) as u8
        == b5) by (bit_vector);
    assert(((((b0 as u64) << 56) | ((b1 as u64) << 48) | ((b2 as u64) << 40) | ((b3 as u64) << 32)
        | ((b4 as u64) << 24) | ((b5 as u64) << 16) | ((b6 as u64) << 8) | (b7 as u64)) >> 8) as u8
        == b6) by (bit_vector);
    assert((((b0 as u64) << 56) | ((b1 as u64) << 48) | ((b2 as u64) << 40) | ((b3 as u64) << 32)
        | ((b4 as u64) << 24) | ((b5 as u64) << 16) | ((b6 as u64) << 8) | (b7 as u64)) as u8
        == b7) by (bit_vector);
    assert(u64_be_bytes(v) =~= b);
}

/// Big-endian serialization of a 64-bit integer.
pub fn encode_u64_be(v: u64) -> (r: Vec<u8>)
    ensures
        r@ == u64_be_bytes(v),
{
    let mut r: Vec<u8> = Vec::new();
    r.push(#[verifier::truncate] ((v >> 56) as u8));
    r.push(#[verifier::truncate] ((v >> 48) as u8));
    r.push(#[verifier::truncate] ((v >> 40) as u8));
    r.push(#[verifier::truncate] ((v >> 32) as u8));
    r.push(#[verifier::truncate] ((v >> 24) as u8));
    r.push(#[verifier::truncate] ((v >> 16) as u8));
    r.push(#[verifier::truncate] ((v >> 8) as u8));
    r.push(#[verifier::truncate] (v as u8));
    proof {
        assert(r@ =~= u64_be_bytes(v));
    }
    r
}

/// Big-endian deserialization of a 64-bit integer.
pub fn decode_u64_be(b: &Vec<u8>) -> (r: u64)
    requires
        b@.len() == 8,
    ensures
        r == u64_from_be_bytes(b@),
{
    ((b[0] as u64) << 56) | ((b[1] as u64) << 48) | ((b[2] as u64) << 40) | ((b[3] as u64) << 32)
        | ((b[4] as u64) << 24) | ((b[5] as u64) << 16) | ((b[6] as u64) << 8) | (b[7] as u64)
}

/// Appends all bytes of `src` to `dst`.
pub fn append_bytes(dst: &mut Vec<u8>, src: &Vec<u8>)
    ensures
        final(dst)@ == old(dst)@ + src@,
{
    let mut i: usize = 0;
    while i < src.len()
        invariant
            i <= src@.len(),
            dst@ == old(dst)@ + src@.take(i as int),
        decreases src@.len() - i,
    {
        dst.push(src[i]);
        proof {
            assert(old(dst)@ + src@.take(i + 1 as int) =~= (old(dst)@ + src@.take(i as int)).push(
                src@[i as int],
            ));
        }
        i = i + 1;
    }
    proof {
        assert(src@.take(src@.len() as int) =~= src@);
    }
}

/// Copies the byte range `[start, end)` of `v` into a fresh vector.
pub fn sub_bytes(v: &Vec<u8>, start: usize, end: usize) -> (r: Vec<u8>)
    requires
        start <= end <= v@.len(),
    ensures
        r@ == v@.subrange(start as int, end as int),
{
    let mut r: Vec<u8> = Vec::new();
    let mut i: usize = start;
    while i < end
        invariant
            start <= i <= end <= v@.len(),
            r@ == v@.subrange(start as int, i as int),
        decreases end - i,
    {
        r.push(v[i]);
        proof {
            assert(v@.subrange(start as int, i + 1 as int) =~= v@.subrange(start as int, i as int)
                .push(v@[i as int]));
        }
        i = i + 1;
    }
    r
}

} // verus!

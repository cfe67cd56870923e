//! Little-endian byte encodings of fixed-width integers.
//!
//! Each width has a spec function giving its encoding, an encoder, a decoder
//! whose result re-encodes to the bytes it was given, and a lemma that the
//! encoding is injective, so that decoding undoes encoding.
use vstd::prelude::*;

verus! {

/// The two little-endian bytes of `x`.
pub open spec fn le_u16(x: u16) -> Seq<u8> {
    seq![x as u8, (x >> 8u16) as u8]
}

/// The four little-endian bytes of `x`.
pub open spec fn le_u32(x: u32) -> Seq<u8> {
    seq![x as u8, (x >> 8u32) as u8, (x >> 16u32) as u8, (x >> 24u32) as u8]
}

/// The eight little-endian bytes of `x`.
pub open spec fn le_u64(x: u64) -> Seq<u8> {
    seq![
        x as u8,
        (x >> 8u64) as u8,
        (x >> 16u64) as u8,
        (x >> 24u64) as u8,
        (x >> 32u64) as u8,
        (x >> 40u64) as u8,
        (x >> 48u64) as u8,
        (x >> 56u64) as u8,
    ]
}

/// The two little-endian bytes of the two's-complement form of `x`.
pub open spec fn le_i16(x: i16) -> Seq<u8> {
    le_u16(x as u16)
}

/// Concatenation of the little-endian encodings of a sequence of `i16`.
pub open spec fn le_i16_seq(xs: Seq<i16>) -> Seq<u8>
    decreases xs.len(),
{
    if xs.len() == 0 {
        Seq::empty()
    } else {
        le_i16_seq(xs.drop_last()) + le_i16(xs.last())
    }
}

pub proof fn lemma_le_u16_injective(a: u16, b: u16)
    requires
        le_u16(a) == le_u16(b),
    ensures
        a == b,
{
    assert(le_u16(a)[0] == le_u16(b)[0]);
    assert(le_u16(a)[1] == le_u16(b)[1]);
    let (a0, a1, b0, b1) = (a as u8, (a >> 8u16) as u8, b as u8, (b >> 8u16) as u8);
    assert(a0 == b0 && a1 == b1);
    assert(a as u8 == b as u8 && (a >> 8u16) as u8 == (b >> 8u16) as u8 ==> a == b) by (bit_vector);
}

pub proof fn lemma_le_i16_injective(a: i16, b: i16)
    requires
        le_i16(a) == le_i16(b),
    ensures
        a == b,
{
    lemma_le_u16_injective(a as u16, b as u16);
    assert(a as u16 == b as u16 ==> a == b) by (bit_vector);
}

pub proof fn lemma_le_u32_injective(a: u32, b: u32)
    requires
        le_u32(a) == le_u32(b),
    ensures
        a == b,
{
    assert(le_u32(a)[0] == le_u32(b)[0]);
    assert(le_u32(a)[1] == le_u32(b)[1]);
    assert(le_u32(a)[2] == le_u32(b)[2]);
    assert(le_u32(a)[3] == le_u32(b)[3]);
    assert(a as u8 == b as u8 && (a >> 8u32) as u8 == (b >> 8u32) as u8 && (a >> 16u32) as u8 == (
    b >> 16u32) as u8 && (a >> 24u32) as u8 == (b >> 24u32) as u8 ==> a == b) by (bit_vector);
}

pub proof fn lemma_le_u64_injective(a: u64, b: u64)
    requires
        le_u64(a) == le_u64(b),
    ensures
        a == b,
{
    assert(le_u64(a)[0] == le_u64(b)[0]);
    assert(le_u64(a)[1] == le_u64(b)[1]);
    assert(le_u64(a)[2] == le_u64(b)[2]);
    assert(le_u64(a)[3] == le_u64(b)[3]);
    assert(le_u64(a)[4] == le_u64(b)[4]);
    assert(le_u64(a)[5] == le_u64(b)[5]);
    assert(le_u64(a)[6] == le_u64(b)[6]);
    assert(le_u64(a)[7] == le_u64(b)[7]);
    assert(a as u8 == b as u8 && (a >> 8u64) as u8 == (b >> 8u64) as u8 && (a >> 16u64) as u8 == (
    b >> 16u64) as u8 && (a >> 24u64) as u8 == (b >> 24u64) as u8 && (a >> 32u64) as u8 == (b
        >> 32u64) as u8 && (a >> 40u64) as u8 == (b >> 40u64) as u8 && (a >> 48u64) as u8 == (b
        >> 48u64) as u8 && (a >> 56u64) as u8 == (b >> 56u64) as u8 ==> a == b) by (bit_vector);
}

/// The `u16` whose little-endian bytes are `b0, b1`.
pub open spec fn u16_of_le(b0: u8, b1: u8) -> u16 {
    (b0 as u16) | ((b1 as u16) << 8u16)
}

/// The `u32` whose little-endian bytes are `b0 .. b3`.
pub open spec fn u32_of_le(b0: u8, b1: u8, b2: u8, b3: u8) -> u32 {
    (b0 as u32) | ((b1 as u32) << 8u32) | ((b2 as u32) << 16u32) | ((b3 as u32) << 24u32)
}

/// The `u64` whose little-endian bytes are `b[0] .. b[7]`.
pub open spec fn u64_of_le(b: Seq<u8>) -> u64 {
    (b[0] as u64) | ((b[1] as u64) << 8u64) | ((b[2] as u64) << 16u64) | ((b[3] as u64) << 24u64)
        | ((b[4] as u64) << 32u64) | ((b[5] as u64) << 40u64) | ((b[6] as u64) << 48u64) | ((
    b[7] as u64) << 56u64)
}

pub proof fn lemma_u16_of_le(b0: u8, b1: u8)
    ensures
        le_u16(u16_of_le(b0, b1)) == seq![b0, b1],
{
    let r = u16_of_le(b0, b1);
    assert(r as u8 == b0 && (r >> 8u16) as u8 == b1) by (bit_vector)
        requires
            r == (b0 as u16) | ((b1 as u16) << 8u16),
    ;
    assert(le_u16(r) =~= seq![b0, b1]);
}

pub proof fn lemma_u32_of_le(b0: u8, b1: u8, b2: u8, b3: u8)
    ensures
        le_u32(u32_of_le(b0, b1, b2, b3)) == seq![b0, b1, b2, b3],
{
    let r = u32_of_le(b0, b1, b2, b3);
    assert(r as u8 == b0 && (r >> 8u32) as u8 == b1 && (r >> 16u32) as u8 == b2 && (r >> 24u32) as u8
        == b3) by (bit_vector)
        requires
            r == (b0 as u32) | ((b1 as u32) << 8u32) | ((b2 as u32) << 16u32) | ((b3 as u32) << 24u32),
    ;
    assert(le_u32(r) =~= seq![b0, b1, b2, b3]);
}

pub proof fn lemma_u64_of_le(b: Seq<u8>)
    requires
        b.len() == 8,
    ensures
        le_u64(u64_of_le(b)) == b,
{
    let r = u64_of_le(b);
    let (b0, b1, b2, b3, b4, b5, b6, b7) = (b[0], b[1], b[2], b[3], b[4], b[5], b[6], b[7]);
    assert(r as u8 == b0 && (r >> 8u64) as u8 == b1 && (r >> 16u64) as u8 == b2 && (r >> 24u64) as u8
        == b3 && (r >> 32u64) as u8 == b4 && (r >> 40u64) as u8 == b5 && (r >> 48u64) as u8 == b6 && (r
        >> 56u64) as u8 == b7) by (bit_vector)
        requires
            r == (b0 as u64) | ((b1 as u64) << 8u64) | ((b2 as u64) << 16u64) | ((b3 as u64) << 24u64)
                | ((b4 as u64) << 32u64) | ((b5 as u64) << 40u64) | ((b6 as u64) << 48u64) | ((
            b7 as u64) << 56u64),
    ;
    assert(le_u64(r) =~= b);
}

/// Decodes the `u16` whose little-endian bytes are `b0, b1`.
pub fn u16_from_le(b0: u8, b1: u8) -> (r: u16)
    ensures
        r == u16_of_le(b0, b1),
        le_u16(r) == seq![b0, b1],
{
    proof {
        lemma_u16_of_le(b0, b1);
    }
    (b0 as u16) | ((b1 as u16) << 8u16)
}

/// Decodes the `i16` whose little-endian two's-complement bytes are `b0, b1`.
pub fn i16_from_le(b0: u8, b1: u8) -> (r: i16)
    ensures
        r == u16_of_le(b0, b1) as i16,
        le_i16(r) == seq![b0, b1],
{
    let u = u16_from_le(b0, b1);
    let r = u as i16;
    assert(r as u16 == u) by (bit_vector)
        requires
            r == u as i16,
    ;
    r
}

/// Decodes the `u32` whose little-endian bytes are `b0 .. b3`.
pub fn u32_from_le(b0: u8, b1: u8, b2: u8, b3: u8) -> (r: u32)
    ensures
        r == u32_of_le(b0, b1, b2, b3),
        le_u32(r) == seq![b0, b1, b2, b3],
{
    proof {
        lemma_u32_of_le(b0, b1, b2, b3);
    }
    (b0 as u32) | ((b1 as u32) << 8u32) | ((b2 as u32) << 16u32) | ((b3 as u32) << 24u32)
}

/// Decodes the `u64` whose little-endian bytes are `b[0] .. b[7]`.
pub fn u64_from_le(b: [u8; 8]) -> (r: u64)
    ensures
        r == u64_of_le(b@),
        le_u64(r) == b@,
{
    proof {
        lemma_u64_of_le(b@);
    }
    (b[0] as u64) | ((b[1] as u64) << 8u64) | ((b[2] as u64) << 16u64) | ((b[3] as u64) << 24u64) | ((
    b[4] as u64) << 32u64) | ((b[5] as u64) << 40u64) | ((b[6] as u64) << 48u64) | ((b[7] as u64)
        << 56u64)
}

/// Appends the little-endian bytes of `x` to `out`.
pub fn push_u32_le(out: &mut Vec<u8>, x: u32)
    ensures
        final(out)@ == old(out)@ + le_u32(x),
{
    out.push(x as u8);
    out.push((x >> 8u32) as u8);
    out.push((x >> 16u32) as u8);
    out.push((x >> 24u32) as u8);
    assert(final(out)@ =~= old(out)@ + le_u32(x));
}

/// Appends the little-endian bytes of `x` to `out`.
pub fn push_u64_le(out: &mut Vec<u8>, x: u64)
    ensures
        final(out)@ == old(out)@ + le_u64(x),
{
    out.push(x as u8);
    out.push((x >> 8u64) as u8);
    out.push((x >> 16u64) as u8);
    out.push((x >> 24u64) as u8);
    out.push((x >> 32u64) as u8);
    out.push((x >> 40u64) as u8);
    out.push((x >> 48u64) as u8);
    out.push((x >> 56u64) as u8);
    assert(final(out)@ =~= old(out)@ + le_u64(x));
}

/// Appends the little-endian bytes of `x` to `out`.
pub fn push_i16_le(out: &mut Vec<u8>, x: i16)
    ensures
        final(out)@ == old(out)@ + le_i16(x),
{
    let u = x as u16;
    out.push(u as u8);
    out.push((u >> 8u16) as u8);
    assert(final(out)@ =~= old(out)@ + le_i16(x));
}

/// Appends the little-endian encodings of all of `values`, in order.
pub fn push_i16_slice_le(out: &mut Vec<u8>, values: &[i16])
    ensures
        final(out)@ == old(out)@ + le_i16_seq(values@),
{
    let ghost start = out@;
    let mut i: usize = 0;
    while i < values.len()
        invariant
            i <= values.len(),
            out@ == start + le_i16_seq(values@.take(i as int)),
        decreases values.len() - i,
    {
        proof {
            assert(values@.take(i + 1).drop_last() =~= values@.take(i as int));
        }
        push_i16_le(out, values[i]);
        i = i + 1;
        proof {
            assert(start + le_i16_seq(values@.take(i as int)) =~= start + le_i16_seq(
                values@.take(i - 1),
            ) + le_i16(values@[i - 1]));
        }
    }
    assert(values@.take(values.len() as int) =~= values@);
}

pub proof fn lemma_le_i16_seq_len(xs: Seq<i16>)
    ensures
        le_i16_seq(xs).len() == 2 * xs.len(),
    decreases xs.len(),
{
    if xs.len() > 0 {
        lemma_le_i16_seq_len(xs.drop_last());
    }
}

} // verus!

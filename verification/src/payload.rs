//! Byte layout of the feature cache payload.
//!
//! The payload holds, in order: the base F0, the F0 delta-quantization base
//! and scale (each an IEEE-754 double, carried here as its bit pattern), one
//! little-endian `i16` delta per frame, and then the quantized MGC and BAP
//! matrices. Each matrix starts with a mode byte (0 raw, 1 delta), then a
//! `(bias, scale)` pair of doubles per dimension, then `frames * dims`
//! little-endian `i16` values in row-major order.
use vstd::prelude::*;

use crate::bytes::{
    i16_from_le, le_i16, le_i16_seq, le_u64, lemma_le_i16_injective, lemma_le_i16_seq_len,
    lemma_le_u64_injective, push_i16_slice_le, push_u64_le, u64_from_le,
};

verus! {

/// How a quantized matrix stores its rows.
#[derive(Clone, Copy, PartialEq, Eq, Debug)]
pub enum MatrixMode {
    /// Each value is quantized directly.
    Raw,
    /// Row 0 is quantized directly, later rows as differences from the row before.
    Delta,
}

/// The mode byte written for `mode`.
pub open spec fn mode_byte(mode: MatrixMode) -> u8 {
    match mode {
        MatrixMode::Raw => 0,
        MatrixMode::Delta => 1,
    }
}

/// Per-dimension dequantization parameters, as the bit patterns of two doubles.
#[derive(Clone, Copy, PartialEq, Eq, Debug)]
pub struct QuantParamBits {
    pub bias_bits: u64,
    pub scale_bits: u64,
}

/// A quantized matrix as it is stored in the payload.
#[derive(Clone, Debug)]
pub struct QuantizedMatrix {
    pub mode: MatrixMode,
    pub params: Vec<QuantParamBits>,
    pub q: Vec<i16>,
}

/// Everything a payload stores, with each double carried as its bit pattern.
#[derive(Clone, Debug)]
pub struct PayloadParts {
    pub base_f0_bits: u64,
    pub f0_base_bits: u64,
    pub f0_scale_bits: u64,
    pub f0_q: Vec<i16>,
    pub mgc: QuantizedMatrix,
    pub bap: QuantizedMatrix,
}

/// Why a payload could not be decoded.
#[derive(Clone, Copy, PartialEq, Eq, Debug)]
pub enum PayloadError {
    /// The payload ends before everything its shape calls for was read.
    Truncated,
    /// A matrix mode byte is neither 0 nor 1.
    UnknownMatrixMode(u8),
}

/// Encoding of a sequence of dequantization parameters.
pub open spec fn params_bytes(ps: Seq<QuantParamBits>) -> Seq<u8>
    decreases ps.len(),
{
    if ps.len() == 0 {
        Seq::empty()
    } else {
        params_bytes(ps.drop_last()) + le_u64(ps.last().bias_bits) + le_u64(ps.last().scale_bits)
    }
}

/// Encoding of a quantized matrix.
pub open spec fn matrix_bytes(m: QuantizedMatrix) -> Seq<u8> {
    seq![mode_byte(m.mode)] + params_bytes(m.params@) + le_i16_seq(m.q@)
}

/// Encoding of a whole payload.
pub open spec fn payload_bytes(p: PayloadParts) -> Seq<u8> {
    le_u64(p.base_f0_bits) + le_u64(p.f0_base_bits) + le_u64(p.f0_scale_bits) + le_i16_seq(p.f0_q@)
        + matrix_bytes(p.mgc) + matrix_bytes(p.bap)
}

/// `m` has `dims` parameter pairs and `frames * dims` values.
pub open spec fn matrix_has_shape(m: QuantizedMatrix, frames: int, dims: int) -> bool {
    m.params@.len() == dims && m.q@.len() == frames * dims
}

/// `p` holds `frame_count` frames, `mgc_dims` MGC and `bap_dims` BAP dimensions.
pub open spec fn payload_has_shape(p: PayloadParts, frame_count: int, mgc_dims: int, bap_dims: int) -> bool {
    &&& p.f0_q@.len() == frame_count
    &&& matrix_has_shape(p.mgc, frame_count, mgc_dims)
    &&& matrix_has_shape(p.bap, frame_count, bap_dims)
}

/// Bytes taken by the scalar header fields and the F0 deltas.
pub open spec fn f0_section_len(frame_count: int) -> int {
    24 + 2 * frame_count
}

/// Bytes taken by one encoded matrix.
pub open spec fn matrix_section_len(frame_count: int, dims: int) -> int {
    1 + 16 * dims + 2 * (frame_count * dims)
}

/// What decoding `data` as a payload of the given shape gives: `None` when it
/// succeeds, or the error it stops with.
pub open spec fn payload_parse_error(data: Seq<u8>, frame_count: int, mgc_dims: int, bap_dims: int) -> Option<PayloadError> {
    let a = f0_section_len(frame_count);
    let b = a + matrix_section_len(frame_count, mgc_dims);
    let c = b + matrix_section_len(frame_count, bap_dims);
    if data.len() <= a {
        Some(PayloadError::Truncated)
    } else if data[a] > 1 {
        Some(PayloadError::UnknownMatrixMode(data[a]))
    } else if data.len() <= b {
        Some(PayloadError::Truncated)
    } else if data[b] > 1 {
        Some(PayloadError::UnknownMatrixMode(data[b]))
    } else if data.len() < c {
        Some(PayloadError::Truncated)
    } else {
        None
    }
}

/// Number of bytes a well-formed payload of this shape occupies.
pub open spec fn payload_len(frame_count: int, mgc_dims: int, bap_dims: int) -> int {
    f0_section_len(frame_count) + matrix_section_len(frame_count, mgc_dims) + matrix_section_len(
        frame_count,
        bap_dims,
    )
}

pub proof fn lemma_params_bytes_len(ps: Seq<QuantParamBits>)
    ensures
        params_bytes(ps).len() == 16 * ps.len(),
    decreases ps.len(),
{
    if ps.len() > 0 {
        lemma_params_bytes_len(ps.drop_last());
    }
}

pub proof fn lemma_matrix_bytes_len(m: QuantizedMatrix)
    ensures
        matrix_bytes(m).len() == 1 + 16 * m.params@.len() + 2 * m.q@.len(),
{
    lemma_params_bytes_len(m.params@);
    lemma_le_i16_seq_len(m.q@);
}

pub proof fn lemma_payload_bytes_len(p: PayloadParts)
    ensures
        payload_bytes(p).len() == 24 + 2 * p.f0_q@.len() + (1 + 16 * p.mgc.params@.len() + 2
            * p.mgc.q@.len()) + (1 + 16 * p.bap.params@.len() + 2 * p.bap.q@.len()),
{
    lemma_le_i16_seq_len(p.f0_q@);
    lemma_matrix_bytes_len(p.mgc);
    lemma_matrix_bytes_len(p.bap);
}

pub proof fn lemma_le_i16_seq_injective(a: Seq<i16>, b: Seq<i16>)
    requires
        a.len() == b.len(),
        le_i16_seq(a) == le_i16_seq(b),
    ensures
        a == b,
    decreases a.len(),
{
    if a.len() > 0 {
        lemma_le_i16_seq_len(a.drop_last());
        lemma_le_i16_seq_len(b.drop_last());
        let n = 2 * (a.len() - 1);
        assert(le_i16_seq(a).subrange(0, n) =~= le_i16_seq(a.drop_last()));
        assert(le_i16_seq(b).subrange(0, n) =~= le_i16_seq(b.drop_last()));
        assert(le_i16_seq(a).subrange(n, n + 2) =~= le_i16(a.last()));
        assert(le_i16_seq(b).subrange(n, n + 2) =~= le_i16(b.last()));
        lemma_le_i16_seq_injective(a.drop_last(), b.drop_last());
        lemma_le_i16_injective(a.last(), b.last());
        assert(a =~= a.drop_last().push(a.last()));
        assert(b =~= b.drop_last().push(b.last()));
    }
}

pub proof fn lemma_params_bytes_injective(a: Seq<QuantParamBits>, b: Seq<QuantParamBits>)
    requires
        a.len() == b.len(),
        params_bytes(a) == params_bytes(b),
    ensures
        a == b,
    decreases a.len(),
{
    if a.len() > 0 {
        lemma_params_bytes_len(a.drop_last());
        lemma_params_bytes_len(b.drop_last());
        let n = 16 * (a.len() - 1);
        assert(params_bytes(a).subrange(0, n) =~= params_bytes(a.drop_last()));
        assert(params_bytes(b).subrange(0, n) =~= params_bytes(b.drop_last()));
        assert(params_bytes(a).subrange(n, n + 8) =~= le_u64(a.last().bias_bits));
        assert(params_bytes(b).subrange(n, n + 8) =~= le_u64(b.last().bias_bits));
        assert(params_bytes(a).subrange(n + 8, n + 16) =~= le_u64(a.last().scale_bits));
        assert(params_bytes(b).subrange(n + 8, n + 16) =~= le_u64(b.last().scale_bits));
        lemma_params_bytes_injective(a.drop_last(), b.drop_last());
        lemma_le_u64_injective(a.last().bias_bits, b.last().bias_bits);
        lemma_le_u64_injective(a.last().scale_bits, b.last().scale_bits);
        assert(a =~= a.drop_last().push(a.last()));
        assert(b =~= b.drop_last().push(b.last()));
    }
}

pub proof fn lemma_matrix_bytes_injective(a: QuantizedMatrix, b: QuantizedMatrix)
    requires
        a.params@.len() == b.params@.len(),
        a.q@.len() == b.q@.len(),
        matrix_bytes(a) == matrix_bytes(b),
    ensures
        a.mode == b.mode,
        a.params@ == b.params@,
        a.q@ == b.q@,
{
    lemma_params_bytes_len(a.params@);
    lemma_params_bytes_len(b.params@);
    lemma_le_i16_seq_len(a.q@);
    lemma_le_i16_seq_len(b.q@);
    let n: int = 1 + 16 * (a.params@.len() as int);
    let m: int = n + 2 * (a.q@.len() as int);
    assert(matrix_bytes(a)[0] == mode_byte(a.mode));
    assert(matrix_bytes(b)[0] == mode_byte(b.mode));
    assert(matrix_bytes(a).subrange(1, n) =~= params_bytes(a.params@));
    assert(matrix_bytes(b).subrange(1, n) =~= params_bytes(b.params@));
    assert(matrix_bytes(a).subrange(n, m) =~= le_i16_seq(a.q@));
    assert(matrix_bytes(b).subrange(n, m) =~= le_i16_seq(b.q@));
    lemma_params_bytes_injective(a.params@, b.params@);
    lemma_le_i16_seq_injective(a.q@, b.q@);
}

/// Two payloads of the same shape with the same bytes hold the same values:
/// the payload encoding loses nothing.
pub proof fn lemma_payload_bytes_injective(p1: PayloadParts, p2: PayloadParts, frame_count: int, mgc_dims: int, bap_dims: int)
    requires
        payload_has_shape(p1, frame_count, mgc_dims, bap_dims),
        payload_has_shape(p2, frame_count, mgc_dims, bap_dims),
        payload_bytes(p1) == payload_bytes(p2),
    ensures
        p1.base_f0_bits == p2.base_f0_bits,
        p1.f0_base_bits == p2.f0_base_bits,
        p1.f0_scale_bits == p2.f0_scale_bits,
        p1.f0_q@ == p2.f0_q@,
        p1.mgc.mode == p2.mgc.mode,
        p1.mgc.params@ == p2.mgc.params@,
        p1.mgc.q@ == p2.mgc.q@,
        p1.bap.mode == p2.bap.mode,
        p1.bap.params@ == p2.bap.params@,
        p1.bap.q@ == p2.bap.q@,
{
    lemma_le_i16_seq_len(p1.f0_q@);
    lemma_le_i16_seq_len(p2.f0_q@);
    lemma_matrix_bytes_len(p1.mgc);
    lemma_matrix_bytes_len(p2.mgc);
    lemma_matrix_bytes_len(p1.bap);
    lemma_matrix_bytes_len(p2.bap);
    let x1 = payload_bytes(p1);
    let x2 = payload_bytes(p2);
    let a = 24 + 2 * frame_count;
    let b = a + matrix_bytes(p1.mgc).len();
    let c = b + matrix_bytes(p1.bap).len();
    assert(x1.subrange(0, 8) =~= le_u64(p1.base_f0_bits));
    assert(x2.subrange(0, 8) =~= le_u64(p2.base_f0_bits));
    assert(x1.subrange(8, 16) =~= le_u64(p1.f0_base_bits));
    assert(x2.subrange(8, 16) =~= le_u64(p2.f0_base_bits));
    assert(x1.subrange(16, 24) =~= le_u64(p1.f0_scale_bits));
    assert(x2.subrange(16, 24) =~= le_u64(p2.f0_scale_bits));
    assert(x1.subrange(24, a) =~= le_i16_seq(p1.f0_q@));
    assert(x2.subrange(24, a) =~= le_i16_seq(p2.f0_q@));
    assert(x1.subrange(a, b) =~= matrix_bytes(p1.mgc));
    assert(x2.subrange(a, b) =~= matrix_bytes(p2.mgc));
    assert(x1.subrange(b, c) =~= matrix_bytes(p1.bap));
    assert(x2.subrange(b, c) =~= matrix_bytes(p2.bap));
    lemma_le_u64_injective(p1.base_f0_bits, p2.base_f0_bits);
    lemma_le_u64_injective(p1.f0_base_bits, p2.f0_base_bits);
    lemma_le_u64_injective(p1.f0_scale_bits, p2.f0_scale_bits);
    lemma_le_i16_seq_injective(p1.f0_q@, p2.f0_q@);
    lemma_matrix_bytes_injective(p1.mgc, p2.mgc);
    lemma_matrix_bytes_injective(p1.bap, p2.bap);
}

/// Appends the encoding of `m` to `out`.
pub fn push_quantized_matrix(out: &mut Vec<u8>, m: &QuantizedMatrix)
    ensures
        final(out)@ == old(out)@ + matrix_bytes(*m),
{
    let ghost start = out@;
    match m.mode {
        MatrixMode::Raw => out.push(0u8),
        MatrixMode::Delta => out.push(1u8),
    }
    let mut i: usize = 0;
    while i < m.params.len()
        invariant
            i <= m.params@.len(),
            out@ == start + seq![mode_byte(m.mode)] + params_bytes(m.params@.take(i as int)),
        decreases m.params.len() - i,
    {
        let p = m.params[i];
        push_u64_le(out, p.bias_bits);
        push_u64_le(out, p.scale_bits);
        proof {
            assert(m.params@.take(i + 1).drop_last() =~= m.params@.take(i as int));
        }
        i = i + 1;
    }
    assert(m.params@.take(m.params.len() as int) =~= m.params@);
    push_i16_slice_le(out, m.q.as_slice());
    assert(out@ =~= start + matrix_bytes(*m));
}

/// Serializes a payload into the bytes that are compressed into a cache file.
pub fn serialize_v5_payload(parts: &PayloadParts) -> (r: Vec<u8>)
    ensures
        r@ == payload_bytes(*parts),
{
    let mut out: Vec<u8> = Vec::new();
    push_u64_le(&mut out, parts.base_f0_bits);
    push_u64_le(&mut out, parts.f0_base_bits);
    push_u64_le(&mut out, parts.f0_scale_bits);
    push_i16_slice_le(&mut out, parts.f0_q.as_slice());
    push_quantized_matrix(&mut out, &parts.mgc);
    push_quantized_matrix(&mut out, &parts.bap);
    assert(out@ =~= payload_bytes(*parts));
    out
}

/// Reads the little-endian double bit pattern at `at`.
fn read_u64_at(data: &[u8], at: usize) -> (r: u64)
    requires
        at + 8 <= data@.len(),
    ensures
        le_u64(r) == data@.subrange(at as int, at + 8),
{
    let r = u64_from_le(
        [
            data[at],
            data[at + 1],
            data[at + 2],
            data[at + 3],
            data[at + 4],
            data[at + 5],
            data[at + 6],
            data[at + 7],
        ],
    );
    assert(data@.subrange(at as int, at + 8) =~= seq![
        data@[at as int],
        data@[at + 1],
        data@[at + 2],
        data@[at + 3],
        data@[at + 4],
        data@[at + 5],
        data@[at + 6],
        data@[at + 7],
    ]);
    r
}

/// Reads `count` little-endian `i16` values starting at `at`.
pub fn read_i16_slice(data: &[u8], at: usize, count: usize) -> (r: Vec<i16>)
    requires
        at + 2 * count <= data@.len(),
    ensures
        r@.len() == count,
        le_i16_seq(r@) == data@.subrange(at as int, at + 2 * count),
{
    let mut out: Vec<i16> = Vec::new();
    let mut k: usize = 0;
    while k < count
        invariant
            k <= count,
            at + 2 * count <= data@.len(),
            out@.len() == k,
            le_i16_seq(out@) == data@.subrange(at as int, at + 2 * k),
            data@.len() == data.len(),
        decreases count - k,
    {
        assert(at + 2 * k + 2 <= at + 2 * count);
        let pos = at + 2 * k;
        let v = i16_from_le(data[pos], data[pos + 1]);
        let ghost before = out@;
        out.push(v);
        proof {
            assert(out@.drop_last() =~= before);
            assert(data@.subrange(at as int, pos + 2) =~= data@.subrange(at as int, pos as int)
                + seq![data@[pos as int], data@[pos + 1]]);
        }
        k = k + 1;
    }
    out
}

/// Reads `dims` dequantization parameter pairs starting at `at`.
fn read_params(data: &[u8], at: usize, dims: usize) -> (r: Vec<QuantParamBits>)
    requires
        at + 16 * dims <= data@.len(),
    ensures
        r@.len() == dims,
        params_bytes(r@) == data@.subrange(at as int, at + 16 * dims),
{
    let mut out: Vec<QuantParamBits> = Vec::new();
    let mut k: usize = 0;
    while k < dims
        invariant
            k <= dims,
            at + 16 * dims <= data@.len(),
            out@.len() == k,
            params_bytes(out@) == data@.subrange(at as int, at + 16 * k),
            data@.len() == data.len(),
        decreases dims - k,
    {
        assert(at + 16 * k + 16 <= at + 16 * dims);
        let pos = at + 16 * k;
        let bias_bits = read_u64_at(data, pos);
        let scale_bits = read_u64_at(data, pos + 8);
        let ghost before = out@;
        out.push(QuantParamBits { bias_bits, scale_bits });
        proof {
            assert(out@.drop_last() =~= before);
            assert(data@.subrange(at as int, pos + 16) =~= data@.subrange(at as int, pos as int)
                + data@.subrange(pos as int, pos + 8) + data@.subrange(pos + 8, pos + 16));
        }
        k = k + 1;
    }
    out
}

/// Decodes one matrix starting at `at`, given that its mode byte is known to
/// be 0 or 1 and that the whole section is present.
fn read_matrix(data: &[u8], at: usize, frames: usize, dims: usize) -> (r: QuantizedMatrix)
    requires
        at + matrix_section_len(frames as int, dims as int) <= data@.len(),
        data@[at as int] <= 1,
    ensures
        matrix_has_shape(r, frames as int, dims as int),
        matrix_bytes(r) == data@.subrange(
            at as int,
            at + matrix_section_len(frames as int, dims as int),
        ),
{
    let mode = if data[at] == 0 {
        MatrixMode::Raw
    } else {
        MatrixMode::Delta
    };
    proof {
        vstd::arithmetic::mul::lemma_mul_nonnegative(frames as int, dims as int);
    }
    let params = read_params(data, at + 1, dims);
    let n = frames * dims;
    let q = read_i16_slice(data, at + 1 + 16 * dims, n);
    let r = QuantizedMatrix { mode, params, q };
    let ghost end = at + matrix_section_len(frames as int, dims as int);
    assert(data@.subrange(at as int, end) =~= seq![data@[at as int]] + data@.subrange(
        at + 1,
        at + 1 + 16 * dims,
    ) + data@.subrange(at + 1 + 16 * dims, end));
    r
}

/// Decodes a payload of the given shape. It succeeds exactly when
/// [`payload_parse_error`] is `None`; then the result is the unique payload of
/// that shape whose encoding is the first [`payload_len`] bytes of `data`
/// (bytes after that are not looked at).
pub fn parse_v5_payload(data: &[u8], frame_count: usize, mgc_dims: usize, bap_dims: usize) -> (r: Result<PayloadParts, PayloadError>)
    requires
        payload_len(frame_count as int, mgc_dims as int, bap_dims as int) <= usize::MAX,
    ensures
        match r {
            Ok(p) => {
                &&& payload_parse_error(data@, frame_count as int, mgc_dims as int, bap_dims as int)
                    is None
                &&& payload_has_shape(p, frame_count as int, mgc_dims as int, bap_dims as int)
                &&& payload_bytes(p) == data@.take(
                    payload_len(frame_count as int, mgc_dims as int, bap_dims as int),
                )
            },
            Err(e) => payload_parse_error(
                data@,
                frame_count as int,
                mgc_dims as int,
                bap_dims as int,
            ) == Some(e),
        },
{
    proof {
        vstd::arithmetic::mul::lemma_mul_nonnegative(frame_count as int, mgc_dims as int);
        vstd::arithmetic::mul::lemma_mul_nonnegative(frame_count as int, bap_dims as int);
    }
    let len = data.len();
    let a = 24 + 2 * frame_count;
    if len <= a {
        return Err(PayloadError::Truncated);
    }
    if data[a] > 1 {
        return Err(PayloadError::UnknownMatrixMode(data[a]));
    }
    let b = a + (1 + 16 * mgc_dims + 2 * (frame_count * mgc_dims));
    if len <= b {
        return Err(PayloadError::Truncated);
    }
    if data[b] > 1 {
        return Err(PayloadError::UnknownMatrixMode(data[b]));
    }
    let c = b + (1 + 16 * bap_dims + 2 * (frame_count * bap_dims));
    if len < c {
        return Err(PayloadError::Truncated);
    }
    let base_f0_bits = read_u64_at(data, 0);
    let f0_base_bits = read_u64_at(data, 8);
    let f0_scale_bits = read_u64_at(data, 16);
    let f0_q = read_i16_slice(data, 24, frame_count);
    let mgc = read_matrix(data, a, frame_count, mgc_dims);
    let bap = read_matrix(data, b, frame_count, bap_dims);
    let p = PayloadParts { base_f0_bits, f0_base_bits, f0_scale_bits, f0_q, mgc, bap };
    assert(data@.take(c as int) =~= data@.subrange(0, 8) + data@.subrange(8, 16) + data@.subrange(
        16,
        24,
    ) + data@.subrange(24, a as int) + data@.subrange(a as int, b as int) + data@.subrange(
        b as int,
        c as int,
    ));
    Ok(p)
}

/// A payload of a given shape always serializes to exactly
/// [`payload_len`] bytes, `26 + 2f + (16 + 2f) * (m + b)` for `f` frames,
/// `m` MGC and `b` BAP dimensions, whichever matrix modes it uses: the size
/// bound of a shape is tight.
pub proof fn law_payload_length(p: PayloadParts, frame_count: int, mgc_dims: int, bap_dims: int)
    requires
        frame_count >= 0,
        mgc_dims >= 0,
        bap_dims >= 0,
        payload_has_shape(p, frame_count, mgc_dims, bap_dims),
    ensures
        payload_bytes(p).len() == payload_len(frame_count, mgc_dims, bap_dims),
        payload_len(frame_count, mgc_dims, bap_dims) == 26 + 2 * frame_count + (16 + 2
            * frame_count) * (mgc_dims + bap_dims),
{
    lemma_payload_bytes_len(p);
    assert((16 + 2 * frame_count) * (mgc_dims + bap_dims) == 16 * mgc_dims + 2 * (frame_count
        * mgc_dims) + 16 * bap_dims + 2 * (frame_count * bap_dims)) by (nonlinear_arith);
}

/// Serializing a payload and decoding the bytes with its own shape gives it
/// back, whatever bytes follow it.
pub proof fn law_payload_roundtrip(p: PayloadParts, trailing: Seq<u8>, frame_count: int, mgc_dims: int, bap_dims: int, decoded: PayloadParts)
    requires
        frame_count >= 0,
        mgc_dims >= 0,
        bap_dims >= 0,
        payload_has_shape(p, frame_count, mgc_dims, bap_dims),
        payload_has_shape(decoded, frame_count, mgc_dims, bap_dims),
        payload_bytes(decoded) == (payload_bytes(p) + trailing).take(
            payload_len(frame_count, mgc_dims, bap_dims),
        ),
    ensures
        payload_parse_error(payload_bytes(p) + trailing, frame_count, mgc_dims, bap_dims) is None,
        decoded.base_f0_bits == p.base_f0_bits,
        decoded.f0_base_bits == p.f0_base_bits,
        decoded.f0_scale_bits == p.f0_scale_bits,
        decoded.f0_q@ == p.f0_q@,
        decoded.mgc.mode == p.mgc.mode,
        decoded.mgc.params@ == p.mgc.params@,
        decoded.mgc.q@ == p.mgc.q@,
        decoded.bap.mode == p.bap.mode,
        decoded.bap.params@ == p.bap.params@,
        decoded.bap.q@ == p.bap.q@,
{
    lemma_payload_parse_ok(p, trailing, frame_count, mgc_dims, bap_dims);
    lemma_payload_bytes_len(p);
    let n = payload_len(frame_count, mgc_dims, bap_dims);
    assert((payload_bytes(p) + trailing).take(n) =~= payload_bytes(p));
    lemma_payload_bytes_injective(decoded, p, frame_count, mgc_dims, bap_dims);
}

proof fn lemma_payload_parse_ok(p: PayloadParts, trailing: Seq<u8>, frame_count: int, mgc_dims: int, bap_dims: int)
    requires
        frame_count >= 0,
        mgc_dims >= 0,
        bap_dims >= 0,
        payload_has_shape(p, frame_count, mgc_dims, bap_dims),
    ensures
        payload_parse_error(payload_bytes(p) + trailing, frame_count, mgc_dims, bap_dims) is None,
{
    lemma_le_i16_seq_len(p.f0_q@);
    lemma_matrix_bytes_len(p.mgc);
    lemma_matrix_bytes_len(p.bap);
    let head = le_u64(p.base_f0_bits) + le_u64(p.f0_base_bits) + le_u64(p.f0_scale_bits)
        + le_i16_seq(p.f0_q@);
    let x = payload_bytes(p);
    let d = x + trailing;
    let a = f0_section_len(frame_count);
    let b = a + matrix_section_len(frame_count, mgc_dims);
    assert(head.len() == a);
    assert(x =~= head + matrix_bytes(p.mgc) + matrix_bytes(p.bap));
    assert(x[a] == matrix_bytes(p.mgc)[0]);
    assert(x[b] == matrix_bytes(p.bap)[0]);
    assert(d[a] == x[a]);
    assert(d[b] == x[b]);
}

/// Length of the payload that a cache of this shape is written with.
pub fn v5_payload_size(frame_count: usize, mgc_dims: usize, bap_dims: usize) -> (r: usize)
    requires
        payload_len(frame_count as int, mgc_dims as int, bap_dims as int) <= usize::MAX,
    ensures
        r == payload_len(frame_count as int, mgc_dims as int, bap_dims as int),
{
    v5_payload_upper_bound(frame_count, mgc_dims, bap_dims)
}

/// Largest payload that a cache of this shape may hold.
pub fn v5_payload_upper_bound(frame_count: usize, mgc_dims: usize, bap_dims: usize) -> (r: usize)
    requires
        payload_len(frame_count as int, mgc_dims as int, bap_dims as int) <= usize::MAX,
    ensures
        r == payload_len(frame_count as int, mgc_dims as int, bap_dims as int),
{
    proof {
        vstd::arithmetic::mul::lemma_mul_nonnegative(frame_count as int, mgc_dims as int);
        vstd::arithmetic::mul::lemma_mul_nonnegative(frame_count as int, bap_dims as int);
        vstd::arithmetic::mul::lemma_mul_is_associative(2, frame_count as int, mgc_dims as int);
        vstd::arithmetic::mul::lemma_mul_is_associative(2, frame_count as int, bap_dims as int);
    }
    8 + 8 + 8 + 2 * frame_count + 1 + 16 * mgc_dims + 2 * frame_count * mgc_dims + 1 + 16 * bap_dims
        + 2 * frame_count * bap_dims
}

/// Whether a quantized value counts as near zero in the stream cost
/// estimate: `v.abs() <= 2` as compiled in release, where the absolute
/// value of `i16::MIN` wraps to `i16::MIN`.
pub open spec fn is_near_zero(v: i16) -> bool {
    (-2 <= v && v <= 2) || v == i16::MIN
}

/// The value a stream position is compared with: itself at 0, the one before it otherwise.
pub open spec fn prev_in_stream(q: Seq<i16>, i: int) -> i16 {
    if i == 0 {
        q[0]
    } else {
        q[i - 1]
    }
}

/// Number of the first `n` values that are near zero.
pub open spec fn count_near_zero(q: Seq<i16>, n: int) -> nat
    decreases n,
{
    if n <= 0 {
        0
    } else {
        count_near_zero(q, n - 1) + if is_near_zero(q[n - 1]) {
            1nat
        } else {
            0nat
        }
    }
}

/// Number of the first `n` positions whose value equals the one before it.
pub open spec fn count_repeats(q: Seq<i16>, n: int) -> nat
    decreases n,
{
    if n <= 0 {
        0
    } else {
        count_repeats(q, n - 1) + if q[n - 1] == prev_in_stream(q, n - 1) {
            1nat
        } else {
            0nat
        }
    }
}

/// Number of the first `n` positions whose sign differs from the one before it.
pub open spec fn count_sign_changes(q: Seq<i16>, n: int) -> nat
    decreases n,
{
    if n <= 0 {
        0
    } else {
        count_sign_changes(q, n - 1) + if (q[n - 1] < 0) != (prev_in_stream(q, n - 1) < 0) {
            1nat
        } else {
            0nat
        }
    }
}

/// The integer counts from which the stream cost estimate is weighed.
#[derive(Clone, Copy, PartialEq, Eq, Debug)]
pub struct QuantStreamStats {
    pub len: usize,
    pub near_zero: usize,
    pub repeats: usize,
    pub sign_changes: usize,
}

/// Counts, over a quantized stream, the values near zero, the values equal to
/// the one before them, and the sign changes. The first value counts as a
/// repeat of itself.
pub fn quant_stream_stats(q: &[i16]) -> (r: QuantStreamStats)
    ensures
        r.len == q@.len(),
        r.near_zero == count_near_zero(q@, q@.len() as int),
        r.repeats == count_repeats(q@, q@.len() as int),
        r.sign_changes == count_sign_changes(q@, q@.len() as int),
{
    let n = q.len();
    if n == 0 {
        return QuantStreamStats { len: 0, near_zero: 0, repeats: 0, sign_changes: 0 };
    }
    let mut near_zero: usize = 0;
    let mut repeats: usize = 0;
    let mut sign_changes: usize = 0;
    let mut prev = q[0];
    let mut i: usize = 0;
    while i < n
        invariant
            n == q@.len(),
            n > 0,
            i <= n,
            prev == prev_in_stream(q@, i as int) || i == n,
            i < n ==> prev == prev_in_stream(q@, i as int),
            near_zero == count_near_zero(q@, i as int),
            repeats == count_repeats(q@, i as int),
            sign_changes == count_sign_changes(q@, i as int),
            near_zero <= i,
            repeats <= i,
            sign_changes <= i,
        decreases n - i,
    {
        let v = q[i];
        if (-2 <= v && v <= 2) || v == i16::MIN {
            near_zero = near_zero + 1;
        }
        if v == prev {
            repeats = repeats + 1;
        }
        if (v < 0) != (prev < 0) {
            sign_changes = sign_changes + 1;
        }
        prev = v;
        i = i + 1;
    }
    QuantStreamStats { len: n, near_zero, repeats, sign_changes }
}

} // verus!

//! The fixed 40-byte header at the start of a feature cache file.
use vstd::prelude::*;

use crate::bytes::{
    le_u16, le_u32, le_u64, lemma_le_u16_injective, lemma_le_u32_injective, lemma_le_u64_injective, lemma_u16_of_le, lemma_u32_of_le, lemma_u64_of_le,
    u16_from_le, u16_of_le, u32_from_le, u32_of_le, u64_from_le, u64_of_le,
};

verus! {

broadcast use vstd::array::group_array_axioms;

/// Magic bytes that open every feature cache file.
pub const CACHE_V5_MAGIC: [u8; 4] = [0x4f, 0x47, 0x4e, 0x35];

/// Size in bytes of an encoded [`CacheV5Header`].
pub const CACHE_V5_HEADER_SIZE: usize = 40;

/// Version of the cache payload format that this library writes and accepts.
pub const CACHE_V5_FORMAT_VERSION: u32 = 6;

/// Header of a feature cache file. Every field is stored little-endian, in
/// declaration order, with no padding.
#[derive(Clone, Copy)]
pub struct CacheV5Header {
    pub magic: [u8; 4],
    pub format_version: u32,
    pub cache_key: u64,
    pub sample_rate: u32,
    pub frame_period_micros: u32,
    pub frame_count: u32,
    pub mgc_dims: u16,
    pub bap_dims: u16,
    pub payload_size: u32,
    pub _reserved: u32,
}

/// The bytes of `h` as it is stored on disk.
pub open spec fn header_bytes(h: CacheV5Header) -> Seq<u8> {
    h.magic@ + le_u32(h.format_version) + le_u64(h.cache_key) + le_u32(h.sample_rate) + le_u32(
        h.frame_period_micros,
    ) + le_u32(h.frame_count) + le_u16(h.mgc_dims) + le_u16(h.bap_dims) + le_u32(h.payload_size)
        + le_u32(h._reserved)
}

/// Every encoded header is exactly [`CACHE_V5_HEADER_SIZE`] bytes long.
pub proof fn lemma_header_bytes_len(h: CacheV5Header)
    ensures
        header_bytes(h).len() == CACHE_V5_HEADER_SIZE,
{
}

/// Two headers with the same encoding are the same header: decoding the
/// bytes that `to_bytes` wrote gives back the header that was written.
pub proof fn lemma_header_bytes_injective(h1: CacheV5Header, h2: CacheV5Header)
    requires
        header_bytes(h1) == header_bytes(h2),
    ensures
        h1 == h2,
{
    let b1 = header_bytes(h1);
    let b2 = header_bytes(h2);
    assert(b1.subrange(0, 4) =~= h1.magic@);
    assert(b2.subrange(0, 4) =~= h2.magic@);
    assert(h1.magic@ =~= h2.magic@);
    assert(b1.subrange(4, 8) =~= le_u32(h1.format_version));
    assert(b2.subrange(4, 8) =~= le_u32(h2.format_version));
    lemma_le_u32_injective(h1.format_version, h2.format_version);
    assert(b1.subrange(8, 16) =~= le_u64(h1.cache_key));
    assert(b2.subrange(8, 16) =~= le_u64(h2.cache_key));
    lemma_le_u64_injective(h1.cache_key, h2.cache_key);
    assert(b1.subrange(16, 20) =~= le_u32(h1.sample_rate));
    assert(b2.subrange(16, 20) =~= le_u32(h2.sample_rate));
    lemma_le_u32_injective(h1.sample_rate, h2.sample_rate);
    assert(b1.subrange(20, 24) =~= le_u32(h1.frame_period_micros));
    assert(b2.subrange(20, 24) =~= le_u32(h2.frame_period_micros));
    lemma_le_u32_injective(h1.frame_period_micros, h2.frame_period_micros);
    assert(b1.subrange(24, 28) =~= le_u32(h1.frame_count));
    assert(b2.subrange(24, 28) =~= le_u32(h2.frame_count));
    lemma_le_u32_injective(h1.frame_count, h2.frame_count);
    assert(b1.subrange(28, 30) =~= le_u16(h1.mgc_dims));
    assert(b2.subrange(28, 30) =~= le_u16(h2.mgc_dims));
    lemma_le_u16_injective(h1.mgc_dims, h2.mgc_dims);
    assert(b1.subrange(30, 32) =~= le_u16(h1.bap_dims));
    assert(b2.subrange(30, 32) =~= le_u16(h2.bap_dims));
    lemma_le_u16_injective(h1.bap_dims, h2.bap_dims);
    assert(b1.subrange(32, 36) =~= le_u32(h1.payload_size));
    assert(b2.subrange(32, 36) =~= le_u32(h2.payload_size));
    lemma_le_u32_injective(h1.payload_size, h2.payload_size);
    assert(b1.subrange(36, 40) =~= le_u32(h1._reserved));
    assert(b2.subrange(36, 40) =~= le_u32(h2._reserved));
    lemma_le_u32_injective(h1._reserved, h2._reserved);
    assert(h1.magic == h2.magic);
}

impl CacheV5Header {
    /// Encodes the header into its 40 on-disk bytes.
    pub fn to_bytes(&self) -> (r: [u8; CACHE_V5_HEADER_SIZE])
        ensures
            r@ == header_bytes(*self),
    {
        let m = self.magic;
        let fv = self.format_version;
        let ck = self.cache_key;
        let sr = self.sample_rate;
        let fp = self.frame_period_micros;
        let fc = self.frame_count;
        let md = self.mgc_dims;
        let bd = self.bap_dims;
        let ps = self.payload_size;
        let rs = self._reserved;
        let r: [u8; CACHE_V5_HEADER_SIZE] = [
            m[0],
            m[1],
            m[2],
            m[3],
            fv as u8,
            (fv >> 8u32) as u8,
            (fv >> 16u32) as u8,
            (fv >> 24u32) as u8,
            ck as u8,
            (ck >> 8u64) as u8,
            (ck >> 16u64) as u8,
            (ck >> 24u64) as u8,
            (ck >> 32u64) as u8,
            (ck >> 40u64) as u8,
            (ck >> 48u64) as u8,
            (ck >> 56u64) as u8,
            sr as u8,
            (sr >> 8u32) as u8,
            (sr >> 16u32) as u8,
            (sr >> 24u32) as u8,
            fp as u8,
            (fp >> 8u32) as u8,
            (fp >> 16u32) as u8,
            (fp >> 24u32) as u8,
            fc as u8,
            (fc >> 8u32) as u8,
            (fc >> 16u32) as u8,
            (fc >> 24u32) as u8,
            md as u8,
            (md >> 8u16) as u8,
            bd as u8,
            (bd >> 8u16) as u8,
            ps as u8,
            (ps >> 8u32) as u8,
            (ps >> 16u32) as u8,
            (ps >> 24u32) as u8,
            rs as u8,
            (rs >> 8u32) as u8,
            (rs >> 16u32) as u8,
            (rs >> 24u32) as u8,
        ];
        assert(r@ =~= header_bytes(*self));
        r
    }

    /// Decodes a header from its 40 on-disk bytes. Every byte pattern decodes;
    /// checking the fields is left to the caller.
    pub fn from_bytes(bytes: &[u8; CACHE_V5_HEADER_SIZE]) -> (r: Self)
        ensures
            r == decode_header(bytes@),
            header_bytes(r) == bytes@,
    {
        let r = header_from_slice(vstd::array::array_as_slice(bytes));
        assert(bytes@.take(40) =~= bytes@);
        r
    }
}

/// The header stored in the first 40 bytes of `b`.
pub open spec fn decode_header(b: Seq<u8>) -> CacheV5Header {
    CacheV5Header {
        magic: [b[0], b[1], b[2], b[3]],
        format_version: u32_of_le(b[4], b[5], b[6], b[7]),
        cache_key: u64_of_le(b.subrange(8, 16)),
        sample_rate: u32_of_le(b[16], b[17], b[18], b[19]),
        frame_period_micros: u32_of_le(b[20], b[21], b[22], b[23]),
        frame_count: u32_of_le(b[24], b[25], b[26], b[27]),
        mgc_dims: u16_of_le(b[28], b[29]),
        bap_dims: u16_of_le(b[30], b[31]),
        payload_size: u32_of_le(b[32], b[33], b[34], b[35]),
        _reserved: u32_of_le(b[36], b[37], b[38], b[39]),
    }
}

/// Encoding the header decoded from `b` gives back the first 40 bytes of `b`.
pub proof fn lemma_decode_header(b: Seq<u8>)
    requires
        b.len() >= CACHE_V5_HEADER_SIZE,
    ensures
        header_bytes(decode_header(b)) == b.take(CACHE_V5_HEADER_SIZE as int),
{
    let h = decode_header(b);
    lemma_u32_of_le(b[4], b[5], b[6], b[7]);
    lemma_u64_of_le(b.subrange(8, 16));
    lemma_u32_of_le(b[16], b[17], b[18], b[19]);
    lemma_u32_of_le(b[20], b[21], b[22], b[23]);
    lemma_u32_of_le(b[24], b[25], b[26], b[27]);
    lemma_u16_of_le(b[28], b[29]);
    lemma_u16_of_le(b[30], b[31]);
    lemma_u32_of_le(b[32], b[33], b[34], b[35]);
    lemma_u32_of_le(b[36], b[37], b[38], b[39]);
    assert(h.magic@ =~= seq![b[0], b[1], b[2], b[3]]);
    assert(header_bytes(h) =~= b.take(40));
}

/// Decoding the bytes of an encoded header gives back that header, for every
/// header.
pub proof fn law_header_roundtrip(h: CacheV5Header)
    ensures
        decode_header(header_bytes(h)) == h,
{
    let b = header_bytes(h);
    lemma_header_bytes_len(h);
    lemma_decode_header(b);
    assert(b.take(CACHE_V5_HEADER_SIZE as int) =~= b);
    lemma_header_bytes_injective(decode_header(b), h);
}

/// Decodes the header stored in the first 40 bytes of `b`.
pub fn header_from_slice(b: &[u8]) -> (r: CacheV5Header)
    requires
        b@.len() >= CACHE_V5_HEADER_SIZE,
    ensures
        r == decode_header(b@),
        header_bytes(r) == b@.take(CACHE_V5_HEADER_SIZE as int),
{
    let magic: [u8; 4] = [b[0], b[1], b[2], b[3]];
    let format_version = u32_from_le(b[4], b[5], b[6], b[7]);
    let cache_key = u64_from_le([b[8], b[9], b[10], b[11], b[12], b[13], b[14], b[15]]);
    let sample_rate = u32_from_le(b[16], b[17], b[18], b[19]);
    let frame_period_micros = u32_from_le(b[20], b[21], b[22], b[23]);
    let frame_count = u32_from_le(b[24], b[25], b[26], b[27]);
    let mgc_dims = u16_from_le(b[28], b[29]);
    let bap_dims = u16_from_le(b[30], b[31]);
    let payload_size = u32_from_le(b[32], b[33], b[34], b[35]);
    let reserved = u32_from_le(b[36], b[37], b[38], b[39]);
    let r = CacheV5Header {
        magic,
        format_version,
        cache_key,
        sample_rate,
        frame_period_micros,
        frame_count,
        mgc_dims,
        bap_dims,
        payload_size,
        _reserved: reserved,
    };
    assert(b@.subrange(8, 16) =~= seq![b@[8], b@[9], b@[10], b@[11], b@[12], b@[13], b@[14], b@[15]]);
    assert(r.magic@ =~= decode_header(b@).magic@);
    assert(header_bytes(r) =~= b@.take(40));
    r
}

} // verus!

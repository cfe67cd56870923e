use organum::cache_file::{
    read_cache_bytes, validate_features_shape_for_write, write_cache_bytes, CacheError,
    CacheSettings, FeatureShape,
};
use organum::cache_file::{expected_cache_key, read_v5_header};
use organum::cache_key::compute_cache_key;
use organum::config::{OrganumConfig, QualityPreset};
use organum::header::{CacheV5Header, CACHE_V5_FORMAT_VERSION, CACHE_V5_MAGIC};
use organum::matrix::{Matrix, MatrixError};
use organum::payload::{MatrixMode, PayloadParts, QuantParamBits, QuantizedMatrix};

#[test]
fn cache_header_roundtrip_is_stable() {
    let header = CacheV5Header {
        magic: CACHE_V5_MAGIC,
        format_version: CACHE_V5_FORMAT_VERSION,
        cache_key: 123456789,
        sample_rate: 44100,
        frame_period_micros: 5000,
        frame_count: 321,
        mgc_dims: 60,
        bap_dims: 5,
        payload_size: 9999,
        _reserved: 0,
    };

    let bytes = header.to_bytes();
    let decoded = CacheV5Header::from_bytes(&bytes);

    let decoded_format_version = decoded.format_version;
    let header_format_version = header.format_version;
    let decoded_cache_key = decoded.cache_key;
    let header_cache_key = header.cache_key;
    let decoded_sample_rate = decoded.sample_rate;
    let header_sample_rate = header.sample_rate;
    let decoded_frame_period_micros = decoded.frame_period_micros;
    let header_frame_period_micros = header.frame_period_micros;
    let decoded_frame_count = decoded.frame_count;
    let header_frame_count = header.frame_count;
    let decoded_mgc_dims = decoded.mgc_dims;
    let header_mgc_dims = header.mgc_dims;
    let decoded_bap_dims = decoded.bap_dims;
    let header_bap_dims = header.bap_dims;
    let decoded_payload_size = decoded.payload_size;
    let header_payload_size = header.payload_size;

    assert_eq!(decoded.magic, header.magic);
    assert_eq!(decoded_format_version, header_format_version);
    assert_eq!(decoded_cache_key, header_cache_key);
    assert_eq!(decoded_sample_rate, header_sample_rate);
    assert_eq!(decoded_frame_period_micros, header_frame_period_micros);
    assert_eq!(decoded_frame_count, header_frame_count);
    assert_eq!(decoded_mgc_dims, header_mgc_dims);
    assert_eq!(decoded_bap_dims, header_bap_dims);
    assert_eq!(decoded_payload_size, header_payload_size);
}

#[test]
fn header_bytes_are_little_endian_in_field_order() {
    let header = CacheV5Header {
        magic: CACHE_V5_MAGIC,
        format_version: 6,
        cache_key: 0x0102030405060708,
        sample_rate: 44100,
        frame_period_micros: 5000,
        frame_count: 3,
        mgc_dims: 0x0102,
        bap_dims: 2,
        payload_size: 0xAABBCCDD,
        _reserved: 0,
    };
    let b = header.to_bytes();
    assert_eq!(&b[0..4], b"OGN5");
    assert_eq!(&b[4..8], &[6, 0, 0, 0]);
    assert_eq!(&b[8..16], &[8, 7, 6, 5, 4, 3, 2, 1]);
    assert_eq!(&b[16..20], &44100u32.to_le_bytes());
    assert_eq!(&b[28..30], &[2, 1]);
    assert_eq!(&b[32..36], &[0xDD, 0xCC, 0xBB, 0xAA]);
}

#[test]
fn matrix_from_vecs_rejects_ragged_input() {
    let bad = vec![vec![1.0, 2.0], vec![3.0]];
    assert!(Matrix::<f64>::from_vecs(&bad).is_err());
    assert_eq!(Matrix::<f64>::from_vecs(&bad).err(), Some(MatrixError::RaggedRows));
}

#[test]
fn matrix_roundtrip() {
    let src = vec![vec![1.0, 2.0], vec![3.0, 4.0]];
    let m = Matrix::from_vecs(&src).expect("matrix should be valid");
    assert_eq!(m.rows, 2);
    assert_eq!(m.cols, 2);
    assert_eq!(m.to_vecs(), src);
    assert_eq!(m.row(1), vec![3.0, 4.0]);
}

#[test]
fn matrix_from_flat_checks_length() {
    assert!(Matrix::from_flat(vec![1.0, 2.0, 3.0], 2, 2).is_err());
    let m = Matrix::from_flat(vec![1.0, 2.0, 3.0, 4.0, 5.0, 6.0], 3, 2).expect("valid");
    assert_eq!(m.to_vecs(), vec![vec![1.0, 2.0], vec![3.0, 4.0], vec![5.0, 6.0]]);
}

#[test]
fn config_defaults_include_memory_cache_settings() {
    let config = OrganumConfig::default();
    assert!(config.memory_cache_enabled);
    assert_eq!(config.memory_cache_max_mb, 256);
    assert!(config.output_dither);
    assert_eq!(format!("{:?}", config.quality_preset), "Balanced");
    assert_eq!(config.feature_extension, "ogc");
    assert_eq!(config.sample_rate, 44100);
    assert_eq!(QualityPreset::default(), QualityPreset::Balanced);
    assert_eq!(config.memory_cache_capacity(), 256 * 1024 * 1024);
}

fn settings() -> CacheSettings {
    let config = OrganumConfig::default();
    config.cache_settings(5000)
}

fn sample_parts(frames: usize, mgc_dims: usize, bap_dims: usize) -> PayloadParts {
    let params = |n: usize| -> Vec<QuantParamBits> {
        (0..n)
            .map(|d| QuantParamBits {
                bias_bits: (0.25 * d as f64).to_bits(),
                scale_bits: (1.0f64 / 32767.0).to_bits(),
            })
            .collect()
    };
    PayloadParts {
        base_f0_bits: 440.0f64.to_bits(),
        f0_base_bits: 440.0f64.to_bits(),
        f0_scale_bits: (5.0f64 / 32767.0).to_bits(),
        f0_q: (0..frames).map(|i| (i as i16) * 100 - 50).collect(),
        mgc: QuantizedMatrix {
            mode: MatrixMode::Delta,
            params: params(mgc_dims),
            q: (0..frames * mgc_dims).map(|i| (i as i16) - 3).collect(),
        },
        bap: QuantizedMatrix {
            mode: MatrixMode::Raw,
            params: params(bap_dims),
            q: (0..frames * bap_dims).map(|i| -(i as i16)).collect(),
        },
    }
}

fn shape(frames: usize, mgc_dims: usize, bap_dims: usize) -> FeatureShape {
    FeatureShape {
        frame_count: frames,
        mgc_rows: frames,
        mgc_cols: mgc_dims,
        bap_rows: frames,
        bap_cols: bap_dims,
    }
}

fn same(a: &PayloadParts, b: &PayloadParts) -> bool {
    a.base_f0_bits == b.base_f0_bits
        && a.f0_base_bits == b.f0_base_bits
        && a.f0_scale_bits == b.f0_scale_bits
        && a.f0_q == b.f0_q
        && a.mgc.mode == b.mgc.mode
        && a.mgc.params == b.mgc.params
        && a.mgc.q == b.mgc.q
        && a.bap.mode == b.bap.mode
        && a.bap.params == b.bap.params
        && a.bap.q == b.bap.q
}

#[test]
fn features_test_features_roundtrip() {
    let parts = sample_parts(3, 3, 2);
    let bytes = write_cache_bytes(&shape(3, 3, 2), &parts, &settings(), 77, 3).expect("write");
    let back = read_cache_bytes(&bytes, &settings(), 77).expect("read");
    assert!(same(&parts, &back));

    let mut other = settings();
    other.sample_rate = 48000;
    assert_eq!(
        read_cache_bytes(&bytes, &other, 77).err(),
        Some(CacheError::SampleRateMismatch { expected: 48000, found: 44100 })
    );
}

#[test]
fn cache_key_is_checked_only_when_asked() {
    let parts = sample_parts(2, 1, 1);
    let mut strict = settings();
    strict.ignore_cache_hash_verification = false;
    let bytes = write_cache_bytes(&shape(2, 1, 1), &parts, &strict, 1, 1).expect("write");
    assert!(read_cache_bytes(&bytes, &strict, 1).is_ok());
    assert_eq!(read_cache_bytes(&bytes, &strict, 2).err(), Some(CacheError::CacheKeyMismatch));
    assert!(read_cache_bytes(&bytes, &settings(), 2).is_ok());
    assert_eq!(compute_cache_key(44100, 5000, 1), compute_cache_key(44100, 5000, 1));
    assert_ne!(compute_cache_key(44100, 5000, 1), compute_cache_key(44100, 5000, 2));
}

#[test]
fn write_features_rejects_mismatched_matrix_rows() {
    let s = FeatureShape { frame_count: 3, mgc_rows: 2, mgc_cols: 2, bap_rows: 3, bap_cols: 1 };
    assert_eq!(
        validate_features_shape_for_write(&s).err(),
        Some(CacheError::MgcRowsMismatch { rows: 2, frames: 3 })
    );
    let parts = PayloadParts {
        mgc: QuantizedMatrix { mode: MatrixMode::Raw, params: sample_parts(1, 2, 1).mgc.params, q: vec![0; 4] },
        ..sample_parts(3, 2, 1)
    };
    assert_eq!(
        write_cache_bytes(&s, &parts, &settings(), 0, 3).err(),
        Some(CacheError::MgcRowsMismatch { rows: 2, frames: 3 })
    );
}

#[test]
fn write_features_rejects_zero_matrix_dims() {
    let s = FeatureShape { frame_count: 1, mgc_rows: 1, mgc_cols: 0, bap_rows: 1, bap_cols: 1 };
    assert_eq!(
        validate_features_shape_for_write(&s).err(),
        Some(CacheError::MgcDimsOutOfRange { mgc_dims: 0 })
    );
    let parts = sample_parts(1, 0, 1);
    assert_eq!(
        write_cache_bytes(&s, &parts, &settings(), 0, 3).err(),
        Some(CacheError::MgcDimsOutOfRange { mgc_dims: 0 })
    );
}

fn test_header(source_hash: u64) -> CacheV5Header {
    CacheV5Header {
        magic: CACHE_V5_MAGIC,
        format_version: CACHE_V5_FORMAT_VERSION,
        cache_key: compute_cache_key(44100, 5000, source_hash),
        sample_rate: 44100,
        frame_period_micros: 5000,
        frame_count: 1,
        mgc_dims: 1,
        bap_dims: 1,
        payload_size: 0,
        _reserved: 0,
    }
}

#[test]
fn read_features_rejects_oversized_cache_header_before_decompression() {
    let mut header = test_header(9);
    header.frame_count = 120_001;
    let bytes = header.to_bytes();
    assert_eq!(
        read_cache_bytes(&bytes, &settings(), 9).err(),
        Some(CacheError::FrameCountTooLarge { frame_count: 120_001 })
    );
}

#[test]
fn read_features_rejects_decompressed_payload_larger_than_header() {
    let header = test_header(9);
    let mut bytes = Vec::from(header.to_bytes());
    bytes.extend(zstd::stream::encode_all(&[42_u8][..], 1).expect("zstd"));
    assert_eq!(
        read_cache_bytes(&bytes, &settings(), 9).err(),
        Some(CacheError::PayloadSizeMismatch { declared: 0, actual: 1 })
    );
}

#[test]
fn read_rejects_short_or_foreign_files() {
    assert_eq!(read_cache_bytes(&[0u8; 39], &settings(), 0).err(), Some(CacheError::TruncatedHeader));
    let mut header = test_header(0);
    header.magic = *b"OGN4";
    assert_eq!(read_cache_bytes(&header.to_bytes(), &settings(), 0).err(), Some(CacheError::BadMagic));
    let mut header = test_header(0);
    header.format_version = 5;
    assert_eq!(
        read_cache_bytes(&header.to_bytes(), &settings(), 0).err(),
        Some(CacheError::FormatVersionMismatch { found: 5 })
    );
    let header = test_header(0);
    let mut bytes = Vec::from(header.to_bytes());
    bytes.extend_from_slice(b"not zstd");
    assert_eq!(read_cache_bytes(&bytes, &settings(), 0).err(), Some(CacheError::Decompression));
}

#[test]
fn matrix_byte_size_counts_cells() {
    let m = Matrix::from_flat(vec![0.0f64; 6], 3, 2).expect("valid");
    assert_eq!(m.byte_size(), 48);
    let m = Matrix::from_flat(vec![0u16; 5], 5, 1).expect("valid");
    assert_eq!(m.byte_size(), 10);
}

#[test]
fn written_payload_is_a_zstd_frame_and_key_is_hashed() {
    let parts = sample_parts(2, 1, 1);
    let bytes = write_cache_bytes(&shape(2, 1, 1), &parts, &settings(), 5, 3).expect("write");
    assert_eq!(&bytes[40..44], &[0x28, 0xB5, 0x2F, 0xFD]);
    let header = CacheV5Header::from_bytes(bytes[..40].try_into().unwrap());
    let key = header.cache_key;
    assert_eq!(key, compute_cache_key(44100, 5000, 5));
    assert_ne!(compute_cache_key(44100, 5000, 5), 5);
    assert_ne!(compute_cache_key(44100, 5000, 5), compute_cache_key(48000, 5000, 5));
    assert_ne!(compute_cache_key(44100, 5000, 5), compute_cache_key(44100, 2500, 5));
    let payload_size = header.payload_size;
    assert_eq!(payload_size as usize, 24 + 4 + (1 + 16 + 4) * 2);
}

#[test]
fn header_is_read_from_the_front_of_a_file() {
    assert_eq!(read_v5_header(&[0u8; 12]).err(), Some(CacheError::TruncatedHeader));
    let header = test_header(3);
    let mut bytes = Vec::from(header.to_bytes());
    bytes.extend_from_slice(&[1, 2, 3]);
    let back = read_v5_header(&bytes).expect("header");
    let (key, frames) = (back.cache_key, back.frame_count);
    assert_eq!(key, expected_cache_key(&settings(), 3));
    assert_eq!(frames, 1);
}

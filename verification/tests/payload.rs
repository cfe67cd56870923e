use organum::payload::{
    parse_v5_payload, quant_stream_stats, serialize_v5_payload, v5_payload_size,
    v5_payload_upper_bound, MatrixMode, PayloadError, PayloadParts, QuantParamBits,
    QuantizedMatrix,
};

fn parts(frames: usize, mgc_dims: usize, bap_dims: usize, mgc_mode: MatrixMode) -> PayloadParts {
    let param = |i: usize| QuantParamBits {
        bias_bits: (0.25 * i as f64).to_bits(),
        scale_bits: (1.0 / 32767.0 + i as f64).to_bits(),
    };
    PayloadParts {
        base_f0_bits: 440.0f64.to_bits(),
        f0_base_bits: 440.0f64.to_bits(),
        f0_scale_bits: (5.0f64 / 32767.0).to_bits(),
        f0_q: (0..frames).map(|i| (i as i16) * 100 - 7).collect(),
        mgc: QuantizedMatrix {
            mode: mgc_mode,
            params: (0..mgc_dims).map(param).collect(),
            q: (0..frames * mgc_dims).map(|i| (i as i16) * -3 + 1).collect(),
        },
        bap: QuantizedMatrix {
            mode: MatrixMode::Raw,
            params: (0..bap_dims).map(|i| param(i + 10)).collect(),
            q: (0..frames * bap_dims).map(|i| i16::MAX - i as i16).collect(),
        },
    }
}

fn expected_bytes(p: &PayloadParts) -> Vec<u8> {
    let mut out = Vec::new();
    out.extend_from_slice(&p.base_f0_bits.to_le_bytes());
    out.extend_from_slice(&p.f0_base_bits.to_le_bytes());
    out.extend_from_slice(&p.f0_scale_bits.to_le_bytes());
    for d in &p.f0_q {
        out.extend_from_slice(&d.to_le_bytes());
    }
    for m in [&p.mgc, &p.bap] {
        out.push(match m.mode {
            MatrixMode::Raw => 0,
            MatrixMode::Delta => 1,
        });
        for param in &m.params {
            out.extend_from_slice(&param.bias_bits.to_le_bytes());
            out.extend_from_slice(&param.scale_bits.to_le_bytes());
        }
        for v in &m.q {
            out.extend_from_slice(&v.to_le_bytes());
        }
    }
    out
}

fn same(a: &PayloadParts, b: &PayloadParts) -> bool {
    a.base_f0_bits == b.base_f0_bits
        && a.f0_base_bits == b.f0_base_bits
        && a.f0_scale_bits == b.f0_scale_bits
        && a.f0_q == b.f0_q
        && a.mgc.mode == b.mgc.mode
        && a.mgc.params == b.mgc.params
        && a.mgc.q == b.mgc.q
        && a.bap.mode == b.bap.mode
        && a.bap.params == b.bap.params
        && a.bap.q == b.bap.q
}

#[test]
fn serialized_payload_follows_the_documented_layout() {
    let p = parts(3, 3, 2, MatrixMode::Raw);
    let bytes = serialize_v5_payload(&p);
    assert_eq!(bytes, expected_bytes(&p));
    assert_eq!(bytes.len(), v5_payload_size(3, 3, 2));
    assert_eq!(bytes.len(), 24 + 6 + 1 + 48 + 18 + 1 + 32 + 12);
}

#[test]
fn delta_mode_byte_follows_the_f0_section() {
    let p = parts(5, 3, 2, MatrixMode::Delta);
    let payload = serialize_v5_payload(&p);
    assert_eq!(payload, expected_bytes(&p));
    assert_eq!(payload[24 + 5 * std::mem::size_of::<i16>()], 1);
    let bap_mode_at = 24 + 10 + 1 + 16 * 3 + 2 * 15;
    assert_eq!(payload[bap_mode_at], 0);
}

#[test]
fn parse_gives_back_what_was_serialized() {
    for (frames, mgc_dims, bap_dims) in [(0, 0, 0), (1, 1, 1), (3, 3, 2), (7, 4, 5)] {
        let p = parts(frames, mgc_dims, bap_dims, MatrixMode::Delta);
        let mut bytes = serialize_v5_payload(&p);
        let decoded = parse_v5_payload(&bytes, frames, mgc_dims, bap_dims).unwrap();
        assert!(same(&p, &decoded));
        bytes.extend_from_slice(&[9, 9, 9]);
        let decoded = parse_v5_payload(&bytes, frames, mgc_dims, bap_dims).unwrap();
        assert!(same(&p, &decoded));
    }
}

#[test]
fn parse_reports_truncation_and_unknown_modes() {
    let p = parts(3, 3, 2, MatrixMode::Raw);
    let bytes = serialize_v5_payload(&p);
    for cut in [0, 10, 30, 31, 60, bytes.len() - 1] {
        assert_eq!(
            parse_v5_payload(&bytes[..cut], 3, 3, 2).unwrap_err(),
            PayloadError::Truncated,
            "cut={}",
            cut
        );
    }
    let mut bad = bytes.clone();
    bad[30] = 7;
    assert_eq!(
        parse_v5_payload(&bad, 3, 3, 2).unwrap_err(),
        PayloadError::UnknownMatrixMode(7)
    );
    let mut bad = bytes.clone();
    bad[30 + 1 + 48 + 18] = 2;
    assert_eq!(
        parse_v5_payload(&bad, 3, 3, 2).unwrap_err(),
        PayloadError::UnknownMatrixMode(2)
    );
}

#[test]
fn payload_bounds_match_the_formula() {
    assert_eq!(v5_payload_upper_bound(0, 0, 0), 26);
    assert_eq!(v5_payload_upper_bound(100, 60, 5), 24 + 200 + 1 + 960 + 12000 + 1 + 80 + 1000);
    assert_eq!(v5_payload_size(100, 60, 5), v5_payload_upper_bound(100, 60, 5));
}

#[test]
fn quant_stream_stats_counts_runs_and_signs() {
    let s = quant_stream_stats(&[]);
    assert_eq!((s.len, s.near_zero, s.repeats, s.sign_changes), (0, 0, 0, 0));
    let s = quant_stream_stats(&[0, 0, 3, -3, -3, 2, 100]);
    assert_eq!(s.len, 7);
    assert_eq!(s.near_zero, 3);
    assert_eq!(s.repeats, 3);
    assert_eq!(s.sign_changes, 2);
    let s = quant_stream_stats(&[-5]);
    assert_eq!((s.len, s.near_zero, s.repeats, s.sign_changes), (1, 0, 1, 0));
}

#[test]
fn payload_length_follows_the_closed_formula() {
    for (f, m, b) in [(0usize, 0usize, 0usize), (3, 3, 2), (5, 3, 2), (7, 4, 5)] {
        for mode in [MatrixMode::Raw, MatrixMode::Delta] {
            let p = parts(f, m, b, mode);
            let len = serialize_v5_payload(&p).len();
            assert_eq!(len, v5_payload_size(f, m, b));
            assert_eq!(len, 26 + 2 * f + (16 + 2 * f) * (m + b));
        }
    }
}

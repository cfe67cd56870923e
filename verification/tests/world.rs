use organum::world::{bit_reverse, get_number_of_aperiodicities, NativeRandnState, RandnState};
use std::f32::consts::PI;

const SAFE_GUARD_MINIMUM: f32 = 1.0e-12;

#[test]
fn test_blackman_logic() {
    // Test internal Blackman logic used in D4C
    let n = 100;
    for i in 0..n {
        let pos = (i as f32 - n as f32 / 2.0) / (n as f32 / 2.0);
        if pos.abs() < 1.0 {
            let x_win = PI * (pos + 1.0);
            let window = 0.42 - 0.5 * x_win.cos() + 0.08 * (2.0 * x_win).cos();
            assert!(window >= -1e-5 && window <= 1.0 + 1e-5);
        }
    }
}

#[test]
fn test_aperiodicity_db_conversion() {
    let linear = vec![0.1_f32, 0.5, 1.0, 0.0];
    let mut db = vec![0.0; 4];
    let mut back = vec![0.0; 4];

    for i in 0..4 {
        db[i] = 20.0 * linear[i].max(SAFE_GUARD_MINIMUM).log10();
        back[i] = 10.0_f32.powf(db[i] / 20.0);
        assert!((linear[i] - back[i]).abs() < 1e-5);
    }
}

#[test]
fn aperiodicity_band_counts() {
    assert_eq!(get_number_of_aperiodicities(44100), 5);
    assert_eq!(get_number_of_aperiodicities(48000), 5);
    assert_eq!(get_number_of_aperiodicities(24000), 3);
    assert_eq!(get_number_of_aperiodicities(22050), 2);
    assert_eq!(get_number_of_aperiodicities(16000), 1);
    assert_eq!(get_number_of_aperiodicities(8000), 1);
    assert_eq!(get_number_of_aperiodicities(0), 1);
    assert_eq!(get_number_of_aperiodicities(-50000), 1);
    assert_eq!(get_number_of_aperiodicities(i32::MAX), 5);
}

#[test]
fn aperiodicity_band_counts_agree_with_float_formula() {
    for fs in (-20000..100000).step_by(7) {
        let upper = (fs as f32 / 2.0 - 3000.0).min(15000.0);
        let expected = (upper / 3000.0).floor().max(1.0) as i32;
        assert_eq!(get_number_of_aperiodicities(fs), expected, "fs={}", fs);
    }
}

#[test]
fn bit_reverse_permutes_indices() {
    assert_eq!(bit_reverse(1, 3), 4);
    assert_eq!(bit_reverse(6, 3), 3);
    assert_eq!(bit_reverse(0b1011, 4), 0b1101);
    assert_eq!(bit_reverse(5, 0), 0);
    for bits in 1..10usize {
        let n = 1usize << bits;
        let mut seen = vec![false; n];
        for i in 0..n {
            let r = bit_reverse(i, bits);
            assert!(r < n);
            assert_eq!(bit_reverse(r, bits), i);
            seen[r] = true;
        }
        assert!(seen.iter().all(|s| *s));
    }
}

#[test]
fn unrolled_randn_matches_stepwise_generator() {
    let mut stepwise = RandnState::new();
    let mut unrolled = NativeRandnState::new();
    for _ in 0..1000 {
        let a = stepwise.randn_sum();
        let b = unrolled.randn_sum();
        assert_eq!(a, b);
        assert!(a <= 12 * ((1u32 << 28) - 1));
    }
}

#[test]
fn randn_first_output_matches_xorshift128() {
    let mut g = RandnState::new();
    let (x, y, z, w): (u32, u32, u32, u32) = (123456789, 362436069, 521288629, 88675123);
    let t = x ^ (x << 11);
    let expected = (w ^ (w >> 19)) ^ (t ^ (t >> 8));
    assert_eq!(g.next_u32(), expected);
    assert_eq!((g.x, g.y, g.z, g.w), (y, z, w, expected));
}

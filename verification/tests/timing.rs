use organum::config::QualityPreset;
use organum::timing::{
    boundary_f0_scale, fill_voiced_if_silent, smooth_vuv_majority, stabilize_vuv_runs,
    BoundaryScale,
};

#[test]
fn balanced_timing_suppresses_short_vuv_holes() {
    let mut classic = vec![1, 1, 0, 0, 1, 1];
    let mut balanced = classic.clone();

    stabilize_vuv_runs(&mut classic, 6, QualityPreset::Classic);
    stabilize_vuv_runs(&mut balanced, 6, QualityPreset::Balanced);

    assert_eq!(classic, vec![1, 1, 0, 0, 1, 1]);
    assert_eq!(balanced, vec![1, 1, 1, 1, 1, 1]);
}

#[test]
fn stabilize_keeps_long_runs_and_edges() {
    let mut long: Vec<u8> = vec![1; 30];
    for v in long.iter_mut().skip(10).take(2) {
        *v = 0;
    }
    let mut balanced = long.clone();
    stabilize_vuv_runs(&mut balanced, 30, QualityPreset::Balanced);
    assert_eq!(balanced, long);

    let mut clear = long.clone();
    stabilize_vuv_runs(&mut clear, 30, QualityPreset::Clear);
    assert_eq!(clear, vec![1; 30]);

    let mut edge = vec![0, 1, 1, 1, 1];
    stabilize_vuv_runs(&mut edge, 5, QualityPreset::BreathySafe);
    assert_eq!(edge, vec![0, 1, 1, 1, 1]);
}

#[test]
fn majority_smoothing_is_sequential() {
    let mut v = vec![1, 0, 1, 0, 0];
    smooth_vuv_majority(&mut v, 5);
    assert_eq!(v, vec![1, 1, 1, 0, 0]);
}

#[test]
fn all_unvoiced_falls_back_to_voiced() {
    let mut v = vec![0; 20];
    fill_voiced_if_silent(&mut v);
    assert_eq!(v, vec![1; 20]);
    let mut w = vec![0, 1, 0];
    fill_voiced_if_silent(&mut w);
    assert_eq!(w, vec![0, 1, 0]);
}

#[test]
fn boundary_scale_classifies_frames() {
    let vuv = [1, 0, 0, 0, 1];
    assert_eq!(boundary_f0_scale(0, &vuv, QualityPreset::Balanced), BoundaryScale::Voiced);
    assert_eq!(boundary_f0_scale(1, &vuv, QualityPreset::Balanced), BoundaryScale::Edge);
    assert_eq!(boundary_f0_scale(2, &vuv, QualityPreset::Balanced), BoundaryScale::Silent);
    assert_eq!(boundary_f0_scale(1, &vuv, QualityPreset::Classic), BoundaryScale::Silent);
    assert_eq!(boundary_f0_scale(9, &vuv, QualityPreset::Classic), BoundaryScale::Voiced);
}

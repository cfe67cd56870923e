use organum::cli::parse_runtime_log_options;
use organum::config::OrganumConfig;
use organum::device::{mark_gpu_unavailable, Device, DevicePolicy, GpuRuntime, WarpBackend};

fn strings(v: &[&str]) -> Vec<String> {
    v.iter().map(|s| s.to_string()).collect()
}

#[test]
fn log_options_are_split_off_the_front() {
    let (args, verbose, json) = parse_runtime_log_options(strings(&[
        "resampler",
        "--verbose",
        "--log-format",
        "JSON",
        "in.wav",
        "--verbose",
    ]));
    assert_eq!(args, strings(&["resampler", "in.wav", "--verbose"]));
    assert!(verbose);
    assert!(json);

    let (args, verbose, json) =
        parse_runtime_log_options(strings(&["resampler", "--log-format", "pretty", "a"]));
    assert_eq!(args, strings(&["resampler", "a"]));
    assert!(!verbose);
    assert!(!json);

    // A trailing --log-format without a value is an ordinary argument.
    let (args, _, json) = parse_runtime_log_options(strings(&["resampler", "--log-format"]));
    assert_eq!(args, strings(&["resampler", "--log-format"]));
    assert!(!json);

    let (args, verbose, json) = parse_runtime_log_options(strings(&["resampler"]));
    assert_eq!(args, strings(&["resampler"]));
    assert!(!verbose && !json);
}

#[test]
fn device_selection_follows_policy_and_runtime() {
    let config = OrganumConfig::default();
    let policy = DevicePolicy::from_config(&config);
    assert_eq!(policy.gpu_warp_enabled, config.gpu_warp_enabled);

    let on = DevicePolicy {
        gpu_warp_enabled: true,
        gpu_warp_min_frames: 100,
        gpu_ap_min_frames: 50,
    };
    let mut rt = GpuRuntime::new(true);
    assert_eq!(on.select(100, &mut rt), Device::Gpu);
    assert_eq!(on.select_warp(99, &mut rt), Device::Cpu);
    assert_eq!(on.select_aperiodicity(60, &mut rt), Device::Gpu);
    assert!(mark_gpu_unavailable(&mut rt));
    assert!(!mark_gpu_unavailable(&mut rt));
    assert_eq!(on.select(1000, &mut rt), Device::Cpu);

    let mut no_feature = GpuRuntime::new(false);
    assert_eq!(on.select(1000, &mut no_feature), Device::Cpu);
    assert!(no_feature.feature_warned);

    let off = DevicePolicy { gpu_warp_enabled: false, ..on };
    let mut rt2 = GpuRuntime::new(true);
    assert_eq!(off.select(1000, &mut rt2), Device::Cpu);
    assert!(!rt2.feature_warned);

    assert_eq!(Device::Gpu.as_warp_backend(), WarpBackend::Gpu);
    assert_eq!(Device::Cpu.as_warp_backend(), WarpBackend::Cpu);
}

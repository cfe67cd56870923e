use organum::lookup::{lookup_step, FeatureSource, LookupAction, LookupEvent, LookupStage};
use organum::route::{
    chunk_frames, classify_capacity, inflight_depth, simd_mode_from, simd_route_enabled,
    FrameCapacityClass, SimdMode,
};

#[test]
fn capacity_buckets_split_at_4096_frames() {
    assert_eq!(classify_capacity(0), FrameCapacityClass::Small);
    assert_eq!(classify_capacity(4096), FrameCapacityClass::Small);
    assert_eq!(classify_capacity(4097), FrameCapacityClass::Large);
}

#[test]
fn chunking_and_inflight_depth_are_clamped() {
    assert_eq!(chunk_frames(1000, None), 1000);
    assert_eq!(chunk_frames(0, None), 1);
    assert_eq!(chunk_frames(1000, Some(256)), 256);
    assert_eq!(chunk_frames(1000, Some(0)), 1);
    assert_eq!(chunk_frames(100, Some(5000)), 100);
    assert_eq!(inflight_depth(None), 2);
    assert_eq!(inflight_depth(Some(0)), 1);
    assert_eq!(inflight_depth(Some(5)), 5);
    assert_eq!(inflight_depth(Some(64)), 8);
}

#[test]
fn simd_setting_is_read_case_insensitively() {
    assert_eq!(simd_mode_from(None), SimdMode::Auto);
    assert_eq!(simd_mode_from(Some(" ON ")), SimdMode::On);
    assert_eq!(simd_mode_from(Some("1")), SimdMode::On);
    assert_eq!(simd_mode_from(Some("True")), SimdMode::On);
    assert_eq!(simd_mode_from(Some("off\n")), SimdMode::Off);
    assert_eq!(simd_mode_from(Some("0")), SimdMode::Off);
    assert_eq!(simd_mode_from(Some("FALSE")), SimdMode::Off);
    assert_eq!(simd_mode_from(Some("yes")), SimdMode::Auto);
    assert_eq!(simd_mode_from(Some("")), SimdMode::Auto);
    assert!(!simd_route_enabled(SimdMode::Off, true));
    assert!(simd_route_enabled(SimdMode::On, true));
    assert!(!simd_route_enabled(SimdMode::On, false));
    assert!(simd_route_enabled(SimdMode::Auto, true));
}

fn run(memory_enabled: bool, events: &[LookupEvent]) -> Vec<LookupAction> {
    let mut stage = LookupStage::Start;
    let mut actions = Vec::new();
    for &event in events {
        let (next, action) = lookup_step(stage, event, memory_enabled);
        stage = next;
        actions.push(action);
    }
    assert_eq!(stage, LookupStage::Done);
    actions
}

#[test]
fn lookup_tries_memory_then_file_then_analysis() {
    let hit = run(true, &[LookupEvent::Begin, LookupEvent::MemoryLookedUp { hit: true }]);
    assert_eq!(
        hit,
        vec![
            LookupAction::LookUpMemory,
            LookupAction::Deliver { source: FeatureSource::Memory, write_file: false, remember: false },
        ]
    );

    let file = run(
        true,
        &[
            LookupEvent::Begin,
            LookupEvent::MemoryLookedUp { hit: false },
            LookupEvent::FileProbed { exists: true },
            LookupEvent::FileRead { ok: true },
        ],
    );
    assert_eq!(
        file.last(),
        Some(&LookupAction::Deliver { source: FeatureSource::CacheFile, write_file: false, remember: true })
    );

    let fresh = run(
        false,
        &[
            LookupEvent::Begin,
            LookupEvent::FileProbed { exists: true },
            LookupEvent::FileRead { ok: false },
            LookupEvent::Analyzed { ok: true },
        ],
    );
    assert_eq!(
        fresh,
        vec![
            LookupAction::ProbeFile,
            LookupAction::ReadFile,
            LookupAction::Analyze,
            LookupAction::Deliver { source: FeatureSource::Analysis, write_file: true, remember: false },
        ]
    );

    let failed = run(false, &[LookupEvent::Begin, LookupEvent::FileProbed { exists: false }, LookupEvent::Analyzed { ok: false }]);
    assert_eq!(failed.last(), Some(&LookupAction::Fail));

    // An event that does not fit the stage ends the lookup.
    assert_eq!(
        lookup_step(LookupStage::Start, LookupEvent::Analyzed { ok: true }, true),
        (LookupStage::Done, LookupAction::Fail)
    );
}

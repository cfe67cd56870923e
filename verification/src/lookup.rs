//! The order in which the features of a recording are looked for: the
//! in-memory cache (when it is enabled), then the cache file, then a fresh
//! analysis. The caller performs each action and reports what happened;
//! this module decides what comes next.
use vstd::prelude::*;

verus! {

/// Where delivered features came from.
#[derive(Clone, Copy, PartialEq, Eq, Debug, Structural)]
pub enum FeatureSource {
    Memory,
    CacheFile,
    Analysis,
}

/// How far a lookup has got.
#[derive(Clone, Copy, PartialEq, Eq, Debug, Structural)]
pub enum LookupStage {
    /// Nothing has been tried yet.
    Start,
    /// Waiting for the in-memory cache lookup.
    Memory,
    /// Waiting to learn whether the cache file exists.
    FileProbe,
    /// Waiting for the cache file to be read.
    FileRead,
    /// Waiting for the analysis of the recording.
    Analysis,
    /// The lookup is over.
    Done,
}

/// What the caller observed after the last action.
#[derive(Clone, Copy, PartialEq, Eq, Debug, Structural)]
pub enum LookupEvent {
    /// The lookup begins.
    Begin,
    /// The in-memory cache held the features, or did not.
    MemoryLookedUp { hit: bool },
    /// The cache file exists, or does not.
    FileProbed { exists: bool },
    /// The cache file was read and accepted, or was refused.
    FileRead { ok: bool },
    /// The analysis produced features, or failed.
    Analyzed { ok: bool },
}

/// What the caller is to do next.
#[derive(Clone, Copy, PartialEq, Eq, Debug, Structural)]
pub enum LookupAction {
    /// Resize the in-memory cache to the configured capacity and look the
    /// features up in it.
    LookUpMemory,
    /// Check whether the cache file exists.
    ProbeFile,
    /// Read and check the cache file.
    ReadFile,
    /// Analyze the recording.
    Analyze,
    /// Hand the features over; first write them to the cache file and/or
    /// remember them in memory, as asked.
    Deliver { source: FeatureSource, write_file: bool, remember: bool },
    /// Give up with the analysis error.
    Fail,
}

/// The next stage and action after `event` in `stage`. An event that cannot
/// happen in a stage ends the lookup with a failure.
pub open spec fn lookup_transition(stage: LookupStage, event: LookupEvent, memory_enabled: bool) -> (LookupStage, LookupAction) {
    match (stage, event) {
        (LookupStage::Start, LookupEvent::Begin) => if memory_enabled {
            (LookupStage::Memory, LookupAction::LookUpMemory)
        } else {
            (LookupStage::FileProbe, LookupAction::ProbeFile)
        },
        (LookupStage::Memory, LookupEvent::MemoryLookedUp { hit }) => if hit {
            (
                LookupStage::Done,
                LookupAction::Deliver {
                    source: FeatureSource::Memory,
                    write_file: false,
                    remember: false,
                },
            )
        } else {
            (LookupStage::FileProbe, LookupAction::ProbeFile)
        },
        (LookupStage::FileProbe, LookupEvent::FileProbed { exists }) => if exists {
            (LookupStage::FileRead, LookupAction::ReadFile)
        } else {
            (LookupStage::Analysis, LookupAction::Analyze)
        },
        (LookupStage::FileRead, LookupEvent::FileRead { ok }) => if ok {
            (
                LookupStage::Done,
                LookupAction::Deliver {
                    source: FeatureSource::CacheFile,
                    write_file: false,
                    remember: memory_enabled,
                },
            )
        } else {
            (LookupStage::Analysis, LookupAction::Analyze)
        },
        (LookupStage::Analysis, LookupEvent::Analyzed { ok }) => if ok {
            (
                LookupStage::Done,
                LookupAction::Deliver {
                    source: FeatureSource::Analysis,
                    write_file: true,
                    remember: memory_enabled,
                },
            )
        } else {
            (LookupStage::Done, LookupAction::Fail)
        },
        _ => (LookupStage::Done, LookupAction::Fail),
    }
}

/// One step of a feature lookup.
pub fn lookup_step(stage: LookupStage, event: LookupEvent, memory_enabled: bool) -> (r: (LookupStage, LookupAction))
    ensures
        r == lookup_transition(stage, event, memory_enabled),
{
    match (stage, event) {
        (LookupStage::Start, LookupEvent::Begin) => if memory_enabled {
            (LookupStage::Memory, LookupAction::LookUpMemory)
        } else {
            (LookupStage::FileProbe, LookupAction::ProbeFile)
        },
        (LookupStage::Memory, LookupEvent::MemoryLookedUp { hit }) => if hit {
            (
                LookupStage::Done,
                LookupAction::Deliver {
                    source: FeatureSource::Memory,
                    write_file: false,
                    remember: false,
                },
            )
        } else {
            (LookupStage::FileProbe, LookupAction::ProbeFile)
        },
        (LookupStage::FileProbe, LookupEvent::FileProbed { exists }) => if exists {
            (LookupStage::FileRead, LookupAction::ReadFile)
        } else {
            (LookupStage::Analysis, LookupAction::Analyze)
        },
        (LookupStage::FileRead, LookupEvent::FileRead { ok }) => if ok {
            (
                LookupStage::Done,
                LookupAction::Deliver {
                    source: FeatureSource::CacheFile,
                    write_file: false,
                    remember: memory_enabled,
                },
            )
        } else {
            (LookupStage::Analysis, LookupAction::Analyze)
        },
        (LookupStage::Analysis, LookupEvent::Analyzed { ok }) => if ok {
            (
                LookupStage::Done,
                LookupAction::Deliver {
                    source: FeatureSource::Analysis,
                    write_file: true,
                    remember: memory_enabled,
                },
            )
        } else {
            (LookupStage::Done, LookupAction::Fail)
        },
        _ => (LookupStage::Done, LookupAction::Fail),
    }
}

/// Features are remembered in memory exactly when the memory cache is
/// enabled and they did not come from it; only freshly analyzed features are
/// written to the cache file.
pub proof fn law_delivery_policy(stage: LookupStage, event: LookupEvent, memory_enabled: bool)
    ensures
        ({
            let (next, action) = lookup_transition(stage, event, memory_enabled);
            action matches LookupAction::Deliver { source, write_file, remember } ==> {
                &&& next == LookupStage::Done
                &&& remember == (memory_enabled && source != FeatureSource::Memory)
                &&& write_file == (source == FeatureSource::Analysis)
            }
        }),
{
}

/// How many stages at most are left before the lookup is over.
pub open spec fn stages_left(stage: LookupStage) -> nat {
    match stage {
        LookupStage::Start => 5,
        LookupStage::Memory => 4,
        LookupStage::FileProbe => 3,
        LookupStage::FileRead => 2,
        LookupStage::Analysis => 1,
        LookupStage::Done => 0,
    }
}

/// Every event moves an unfinished lookup forward, so a lookup is over after
/// at most five events; the in-memory cache is consulted only when enabled.
pub proof fn law_lookup_progresses(stage: LookupStage, event: LookupEvent, memory_enabled: bool)
    requires
        stage != LookupStage::Done,
    ensures
        ({
            let (next, action) = lookup_transition(stage, event, memory_enabled);
            &&& stages_left(next) < stages_left(stage)
            &&& action == LookupAction::LookUpMemory ==> memory_enabled
            &&& next == LookupStage::Done <==> (action is Deliver || action is Fail)
        }),
{
}

/// Whether `event` is one that can answer the action taken in `stage`.
pub open spec fn event_fits(stage: LookupStage, event: LookupEvent) -> bool {
    match (stage, event) {
        (LookupStage::Start, LookupEvent::Begin) => true,
        (LookupStage::Memory, LookupEvent::MemoryLookedUp { .. }) => true,
        (LookupStage::FileProbe, LookupEvent::FileProbed { .. }) => true,
        (LookupStage::FileRead, LookupEvent::FileRead { .. }) => true,
        (LookupStage::Analysis, LookupEvent::Analyzed { .. }) => true,
        _ => false,
    }
}

/// A lookup gives up only when the analysis itself fails (or an event does
/// not fit the stage): a miss in memory, a missing cache file or a refused
/// cache file all lead on to the next source. Features are delivered only
/// after the source they come from succeeded, and the recording is analysed
/// exactly after the cache file turned out missing or unusable.
pub proof fn law_lookup_fails_only_when_analysis_fails(stage: LookupStage, event: LookupEvent, memory_enabled: bool)
    ensures
        ({
            let (next, action) = lookup_transition(stage, event, memory_enabled);
            &&& action == LookupAction::Fail ==> (!event_fits(stage, event) || event
                == LookupEvent::Analyzed { ok: false })
            &&& (event_fits(stage, event) && event != LookupEvent::Analyzed { ok: false })
                ==> action != LookupAction::Fail
            &&& (action matches LookupAction::Deliver { source, .. } ==> match source {
                FeatureSource::Memory => event == LookupEvent::MemoryLookedUp { hit: true },
                FeatureSource::CacheFile => event == LookupEvent::FileRead { ok: true },
                FeatureSource::Analysis => event == LookupEvent::Analyzed { ok: true },
            })
            &&& (event_fits(stage, event) ==> (action == LookupAction::Analyze <==> (event
                == LookupEvent::FileProbed { exists: false } || event == LookupEvent::FileRead {
                ok: false,
            })))
            &&& (event_fits(stage, event) ==> (action == LookupAction::ReadFile <==> event
                == LookupEvent::FileProbed { exists: true }))
            &&& (event_fits(stage, event) ==> (action == LookupAction::ProbeFile <==> (event
                == LookupEvent::MemoryLookedUp { hit: false } || (event == LookupEvent::Begin
                && !memory_enabled))))
        }),
{
}

} // verus!

//! Choice between CPU and GPU for the two GPU-capable render stages.
use vstd::prelude::*;

use crate::config::OrganumConfig;

verus! {

/// Where a render stage runs.
#[derive(Clone, Copy, Debug, PartialEq, Eq, Structural)]
pub enum Device {
    Cpu,
    Gpu,
}

/// Backend of the spectral warp stage.
#[derive(Clone, Copy, Debug, PartialEq, Eq, Structural)]
pub enum WarpBackend {
    Cpu,
    Gpu,
}

impl Device {
    /// The warp backend that runs on this device.
    pub fn as_warp_backend(self) -> (r: WarpBackend)
        ensures
            r == match self {
                Device::Cpu => WarpBackend::Cpu,
                Device::Gpu => WarpBackend::Gpu,
            },
    {
        match self {
            Device::Cpu => WarpBackend::Cpu,
            Device::Gpu => WarpBackend::Gpu,
        }
    }
}

/// Process-wide GPU state that the device choice depends on.
#[derive(Clone, Copy, Debug, PartialEq, Eq)]
pub struct GpuRuntime {
    /// This build includes the GPU backend.
    pub gpu_feature_built: bool,
    /// The GPU was found unusable and is not tried again.
    pub runtime_disabled: bool,
    /// The warning that GPU use was asked for in a build without it was given.
    pub feature_warned: bool,
}

impl GpuRuntime {
    /// The state at process start.
    pub fn new(gpu_feature_built: bool) -> (r: Self)
        ensures
            r.gpu_feature_built == gpu_feature_built,
            !r.runtime_disabled,
            !r.feature_warned,
    {
        GpuRuntime { gpu_feature_built, runtime_disabled: false, feature_warned: false }
    }
}

/// Marks the GPU as unusable for the rest of the process. Returns whether
/// this call disabled it, so that the reason is reported once.
pub fn mark_gpu_unavailable(runtime: &mut GpuRuntime) -> (r: bool)
    ensures
        r == !old(runtime).runtime_disabled,
        final(runtime).runtime_disabled,
        final(runtime).gpu_feature_built == old(runtime).gpu_feature_built,
        final(runtime).feature_warned == old(runtime).feature_warned,
{
    let was = runtime.runtime_disabled;
    runtime.runtime_disabled = true;
    !was
}

/// When the GPU may be used for the render stages.
#[derive(Clone, Copy, Debug)]
pub struct DevicePolicy {
    pub gpu_warp_enabled: bool,
    pub gpu_warp_min_frames: usize,
    pub gpu_ap_min_frames: usize,
}

/// The device for a render of `render_length` frames when the GPU takes
/// renders of at least `min_frames` frames: the GPU only if it is enabled,
/// built in, not disabled, and the render is long enough.
pub open spec fn device_for(policy: DevicePolicy, runtime: GpuRuntime, render_length: usize, min_frames: usize) -> Device {
    if policy.gpu_warp_enabled && runtime.gpu_feature_built && !runtime.runtime_disabled
        && render_length >= min_frames {
        Device::Gpu
    } else {
        Device::Cpu
    }
}

/// Once the GPU has been marked unavailable, every later selection, for
/// either stage and any render length, falls back to the CPU.
pub proof fn law_unavailable_gpu_selects_cpu(policy: DevicePolicy, runtime: GpuRuntime, render_length: usize, min_frames: usize)
    requires
        runtime.runtime_disabled,
    ensures
        device_for(policy, runtime, render_length, min_frames) == Device::Cpu,
{
}

impl DevicePolicy {
    /// The policy these settings describe.
    pub fn from_config(config: &OrganumConfig) -> (r: Self)
        ensures
            r.gpu_warp_enabled == config.gpu_warp_enabled,
            r.gpu_warp_min_frames == config.gpu_warp_min_frames,
            r.gpu_ap_min_frames == config.gpu_ap_min_frames,
    {
        DevicePolicy {
            gpu_warp_enabled: config.gpu_warp_enabled,
            gpu_warp_min_frames: config.gpu_warp_min_frames,
            gpu_ap_min_frames: config.gpu_ap_min_frames,
        }
    }

    /// Device for the warp stage.
    pub fn select(self, render_length: usize, runtime: &mut GpuRuntime) -> (r: Device)
        ensures
            r == device_for(self, *old(runtime), render_length, self.gpu_warp_min_frames),
            final(runtime).gpu_feature_built == old(runtime).gpu_feature_built,
            final(runtime).runtime_disabled == old(runtime).runtime_disabled,
            final(runtime).feature_warned == (old(runtime).feature_warned || (
            self.gpu_warp_enabled && !old(runtime).gpu_feature_built)),
    {
        self.select_warp(render_length, runtime)
    }

    /// Device for the warp stage.
    pub fn select_warp(self, render_length: usize, runtime: &mut GpuRuntime) -> (r: Device)
        ensures
            r == device_for(self, *old(runtime), render_length, self.gpu_warp_min_frames),
            final(runtime).gpu_feature_built == old(runtime).gpu_feature_built,
            final(runtime).runtime_disabled == old(runtime).runtime_disabled,
            final(runtime).feature_warned == (old(runtime).feature_warned || (
            self.gpu_warp_enabled && !old(runtime).gpu_feature_built)),
    {
        self.select_with_threshold(render_length, self.gpu_warp_min_frames, runtime)
    }

    /// Device for the aperiodicity stage.
    pub fn select_aperiodicity(self, render_length: usize, runtime: &mut GpuRuntime) -> (r: Device)
        ensures
            r == device_for(self, *old(runtime), render_length, self.gpu_ap_min_frames),
            final(runtime).gpu_feature_built == old(runtime).gpu_feature_built,
            final(runtime).runtime_disabled == old(runtime).runtime_disabled,
            final(runtime).feature_warned == (old(runtime).feature_warned || (
            self.gpu_warp_enabled && !old(runtime).gpu_feature_built)),
    {
        self.select_with_threshold(render_length, self.gpu_ap_min_frames, runtime)
    }

    /// Picks the device for a render of `render_length` frames. When GPU use
    /// is enabled in a build without the GPU backend, records that the
    /// warning about it is due.
    fn select_with_threshold(self, render_length: usize, min_frames: usize, runtime: &mut GpuRuntime) -> (r: Device)
        ensures
            r == device_for(self, *old(runtime), render_length, min_frames),
            final(runtime).gpu_feature_built == old(runtime).gpu_feature_built,
            final(runtime).runtime_disabled == old(runtime).runtime_disabled,
            final(runtime).feature_warned == (old(runtime).feature_warned || (
            self.gpu_warp_enabled && !old(runtime).gpu_feature_built)),
    {
        if !self.gpu_warp_enabled {
            Device::Cpu
        } else if !runtime.gpu_feature_built {
            runtime.feature_warned = true;
            Device::Cpu
        } else if runtime.runtime_disabled {
            Device::Cpu
        } else if render_length >= min_frames {
            Device::Gpu
        } else {
            Device::Cpu
        }
    }
}

} // verus!

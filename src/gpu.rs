use vstd::prelude::*;

verus! {

/// A snapshot of the acceleration hardware, taken once per process. Absent
/// hardware is all false and zero.
#[derive(Debug, Clone, Copy, PartialEq, Eq, Structural)]
pub struct GpuCapabilities {
    pub has_cuda: bool,
    pub has_opencl: bool,
    pub has_compute: bool,
    pub has_memory_pool: bool,
    pub memory_size: usize,
    pub compute_capability: i32,
    pub max_threads: usize,
}

impl GpuCapabilities {
    /// The snapshot of a machine without acceleration hardware.
    pub fn none() -> (r: Self)
        ensures
            r == (GpuCapabilities {
                has_cuda: false,
                has_opencl: false,
                has_compute: false,
                has_memory_pool: false,
                memory_size: 0,
                compute_capability: 0,
                max_threads: 0,
            }),
            !r.spec_available(),
    {
        GpuCapabilities {
            has_cuda: false,
            has_opencl: false,
            has_compute: false,
            has_memory_pool: false,
            memory_size: 0,
            compute_capability: 0,
            max_threads: 0,
        }
    }

    /// Some backend is present.
    pub open spec fn spec_available(self) -> bool {
        self.has_cuda || self.has_opencl
    }

    pub fn available(&self) -> (r: bool)
        ensures
            r == self.spec_available(),
    {
        self.has_cuda || self.has_opencl
    }
}

/// The GPU snapshot together with its availability, as reported to callers.
#[derive(Debug, Clone, Copy, PartialEq, Eq, Structural)]
pub struct GpuInfo {
    pub available: bool,
    pub has_cuda: bool,
    pub has_opencl: bool,
    pub has_compute: bool,
    pub memory_size: usize,
    pub compute_capability: i32,
    pub max_threads: usize,
}

pub open spec fn gpu_info_of(c: GpuCapabilities) -> GpuInfo {
    GpuInfo {
        available: c.spec_available(),
        has_cuda: c.has_cuda,
        has_opencl: c.has_opencl,
        has_compute: c.has_compute,
        memory_size: c.memory_size,
        compute_capability: c.compute_capability,
        max_threads: c.max_threads,
    }
}

impl GpuInfo {
    pub fn from_capabilities(c: &GpuCapabilities) -> (r: Self)
        ensures
            r == gpu_info_of(*c),
    {
        GpuInfo {
            available: c.available(),
            has_cuda: c.has_cuda,
            has_opencl: c.has_opencl,
            has_compute: c.has_compute,
            memory_size: c.memory_size,
            compute_capability: c.compute_capability,
            max_threads: c.max_threads,
        }
    }
}

/// The controller's current targets and the GPU snapshot.
#[derive(Debug, Clone, Copy, PartialEq, Eq, Structural)]
pub struct ScalingStatus {
    pub optimal_producers: u32,
    pub optimal_consumers: u32,
    pub gpu_info: GpuInfo,
}

} // verus!

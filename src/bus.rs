use vstd::prelude::*;
use crate::envelope::{UniversalData, LanguageType};
use crate::error::{UMSBBError, UMSBBResult};
use crate::buffer::{BufferView, BufferStats, SegmentedBuffer, MAX_SEGMENTS, auto_segment_count_spec};
use crate::scaling::{ScalingConfig, ScalingController, ControllerView, LoadSample, ScaleDecision};
use crate::gpu::{GpuCapabilities, GpuInfo, ScalingStatus, gpu_info_of};

verus! {

/// A bus: one segmented buffer, a scaling controller fed by its load, and the
/// GPU snapshot that informs scheduling.
pub struct DirectUniversalBus {
    buffer: SegmentedBuffer,
    buffer_size: usize,
    segment_count: u32,
    gpu_enabled: bool,
    gpu: GpuCapabilities,
    auto_scale: bool,
    controller: ScalingController,
}

/// The abstract state of a bus.
pub ghost struct BusView {
    pub buffer: BufferView,
    pub gpu: GpuCapabilities,
    pub gpu_enabled: bool,
    pub auto_scale: bool,
    pub controller: ControllerView,
}

impl View for DirectUniversalBus {
    type V = BusView;

    closed spec fn view(&self) -> BusView {
        BusView {
            buffer: self.buffer@,
            gpu: self.gpu,
            gpu_enabled: self.gpu_enabled,
            auto_scale: self.auto_scale,
            controller: self.controller@,
        }
    }
}

impl BusView {
    /// The sample that an evaluation at `now_ms` hands to the controller.
    pub open spec fn sample_at(self, now_ms: u64) -> LoadSample {
        LoadSample {
            pending_messages: self.buffer.pending() as u64,
            capacity_messages: self.buffer.message_capacity() as u64,
            now_ms,
            gpu_available: self.gpu.spec_available(),
        }
    }
}

impl DirectUniversalBus {
    pub open spec fn wf(&self) -> bool {
        &&& self@.buffer.wf()
        &&& !self@.buffer.destroyed
        &&& self@.controller.wf()
        &&& self.inv()
    }

    pub closed spec fn inv(&self) -> bool {
        self.buffer.wf()
    }

    /// Creates a bus whose buffer is `SegmentedBuffer::new(buffer_size,
    /// segment_count, parallelism)`, with the standard scaling policy. The GPU
    /// is used only when preferred and the snapshot shows a backend.
    pub fn new(
        buffer_size: usize,
        segment_count: u32,
        gpu_preferred: bool,
        auto_scale: bool,
        gpu: GpuCapabilities,
        parallelism: u32,
    ) -> (r: Result<Self, UMSBBError>)
        ensures
            (buffer_size > 0 && segment_count <= MAX_SEGMENTS) <==> r is Ok,
            r is Err ==> r == Err::<Self, UMSBBError>(UMSBBError::InvalidParams),
            r matches Ok(b) ==> {
                &&& b.wf()
                &&& b@.buffer.pending() == 0
                &&& b@.buffer.segments.len() == if segment_count == 0 {
                    auto_segment_count_spec(buffer_size as int, parallelism as int)
                } else {
                    segment_count as int
                }
                &&& b@.gpu == gpu
                &&& b@.gpu_enabled == (gpu_preferred && gpu.spec_available())
                &&& b@.auto_scale == auto_scale
                &&& b@.controller.config.gpu_preferred == gpu_preferred
                &&& b@.controller.producers == b@.controller.config.min_producers
                &&& b@.controller.consumers == b@.controller.config.min_consumers
                &&& b@.controller.last_applied is None
            },
    {
        let config = ScalingConfig::standard(gpu_preferred);
        let controller = match ScalingController::new(config) {
            Ok(c) => c,
            Err(e) => {
                return Err(e);
            },
        };
        let buffer = match SegmentedBuffer::new(buffer_size, segment_count, parallelism) {
            Ok(b) => b,
            Err(e) => {
                return Err(e);
            },
        };
        proof {
            crate::buffer::lemma_empty_pending(buffer@);
        }
        let gpu_enabled = gpu_preferred && gpu.available();
        Ok(
            DirectUniversalBus {
                buffer,
                buffer_size,
                segment_count,
                gpu_enabled,
                gpu,
                auto_scale,
                controller,
            },
        )
    }

    pub fn buffer_size(&self) -> (r: usize) {
        self.buffer_size
    }

    pub fn segment_count(&self) -> (r: u32) {
        self.segment_count
    }

    pub fn gpu_enabled(&self) -> (r: bool)
        ensures
            r == self@.gpu_enabled,
    {
        self.gpu_enabled
    }

    /// Sends a copy of `data` tagged with `type_id`.
    pub fn send(&mut self, data: &[u8], type_id: u32) -> (r: UMSBBResult<()>)
        requires
            old(self).wf(),
        ensures
            final(self).wf(),
            r == old(self)@.buffer.write_outcome(data@.len() as int),
            exists|e: UniversalData|
                e.data@ == data@ && e.type_id == type_id && e.source_lang == LanguageType::Rust
                    && final(self)@ == (BusView {
                    buffer: old(self)@.buffer.after_write(e),
                    ..old(self)@
                }),
    {
        let e = UniversalData::new(vstd::slice::slice_to_vec(data), type_id, LanguageType::Rust);
        let ghost eg = e;
        let r = self.buffer.write(e);
        assert(self@ == (BusView { buffer: old(self)@.buffer.after_write(eg), ..old(self)@ }));
        r
    }

    /// Receives the next message's bytes, or `None` when nothing is waiting.
    pub fn receive(&mut self) -> (r: Option<Vec<u8>>)
        requires
            old(self).wf(),
        ensures
            final(self).wf(),
            final(self)@ == (BusView { buffer: old(self)@.buffer.after_read(), ..old(self)@ }),
            match old(self)@.buffer.read_outcome() {
                Ok(Some(e)) => r matches Some(v) && v@ == e.data@,
                _ => r is None,
            },
    {
        match self.buffer.read() {
            Ok(Some(e)) => Some(e.data),
            _ => None,
        }
    }

    /// Current statistics of the buffer.
    pub fn stats(&self) -> (r: BufferStats)
        requires
            self.wf(),
        ensures
            r == self@.buffer.stats(),
    {
        match self.buffer.stats() {
            Ok(s) => s,
            Err(_) => BufferStats {
                total_messages: 0,
                total_bytes: 0,
                pending_messages: 0,
                active_segments: 0,
            },
        }
    }

    pub fn get_gpu_info(&self) -> (r: GpuInfo)
        ensures
            r == gpu_info_of(self@.gpu),
    {
        GpuInfo::from_capabilities(&self.gpu)
    }

    /// The controller's targets and the GPU snapshot.
    pub fn get_scaling_status(&self) -> (r: ScalingStatus)
        ensures
            r.optimal_producers == self@.controller.producers,
            r.optimal_consumers == self@.controller.consumers,
            r.gpu_info == gpu_info_of(self@.gpu),
    {
        ScalingStatus {
            optimal_producers: self.controller.optimal_producer_count(),
            optimal_consumers: self.controller.optimal_consumer_count(),
            gpu_info: self.get_gpu_info(),
        }
    }

    /// Evaluates the current load at `now_ms` when auto-scaling is on; with
    /// auto-scaling off nothing changes.
    pub fn trigger_scale_evaluation(&mut self, now_ms: u64) -> (r: ScaleDecision)
        requires
            old(self).wf(),
        ensures
            final(self).wf(),
            old(self)@.auto_scale ==> final(self)@ == (BusView {
                controller: old(self)@.controller.step(old(self)@.sample_at(now_ms)).0,
                ..old(self)@
            }) && r == old(self)@.controller.step(old(self)@.sample_at(now_ms)).1,
            !old(self)@.auto_scale ==> final(self)@ == old(self)@ && r == ScaleDecision::Held,
    {
        if !self.auto_scale {
            return ScaleDecision::Held;
        }
        let pending = self.buffer.pending_count();
        let capacity = self.buffer.message_capacity();
        proof {
            self.buffer.lemma_pending_fits();
        }
        let sample = LoadSample {
            pending_messages: pending as u64,
            capacity_messages: capacity,
            now_ms,
            gpu_available: self.gpu.available(),
        };
        self.controller.evaluate(sample)
    }
}

} // verus!

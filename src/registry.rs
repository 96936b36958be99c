use vstd::prelude::*;
use crate::envelope::UniversalData;
use crate::error::{UMSBBError, UMSBBResult};
use crate::buffer::{BufferView, BufferStats, SegmentedBuffer, MAX_SEGMENTS};

verus! {

/// Refers to one buffer of a registry: its slot and the slot's generation
/// when the buffer was created.
#[derive(Debug, Clone, Copy, PartialEq, Eq, Structural)]
pub struct BufferHandle {
    pub index: u32,
    pub generation: u32,
}

/// One slot of the registry: its generation and the buffer it holds, if any.
pub ghost struct SlotView {
    pub generation: nat,
    pub buffer: Option<BufferView>,
}

pub ghost struct RegistryView {
    pub slots: Seq<SlotView>,
}

impl RegistryView {
    /// The handle names a live buffer.
    pub open spec fn valid(self, h: BufferHandle) -> bool {
        &&& h.index < self.slots.len()
        &&& self.slots[h.index as int].generation == h.generation
        &&& self.slots[h.index as int].buffer is Some
    }

    /// The handle's buffer is gone: its slot is empty at that generation or
    /// has moved on to a later one.
    pub open spec fn retired(self, h: BufferHandle) -> bool {
        &&& h.index < self.slots.len()
        &&& {
            ||| self.slots[h.index as int].generation > h.generation
            ||| self.slots[h.index as int].generation == h.generation
                && self.slots[h.index as int].buffer is None
        }
    }

    /// Slot `i` is empty and can move to a new generation.
    pub open spec fn is_free(self, i: int) -> bool {
        &&& self.slots[i].buffer is None
        &&& self.slots[i].generation < u32::MAX
    }

    pub open spec fn buffer_of(self, h: BufferHandle) -> BufferView {
        self.slots[h.index as int].buffer->Some_0
    }

    /// The registry with the buffer of `h` replaced by `b`.
    pub open spec fn with_buffer(self, h: BufferHandle, b: BufferView) -> RegistryView {
        RegistryView {
            slots: self.slots.update(
                h.index as int,
                SlotView { generation: h.generation as nat, buffer: Some(b) },
            ),
        }
    }

    /// Slots only ever move to later generations, and an empty slot stays
    /// empty until its generation moves on; so a retired handle stays retired.
    pub open spec fn keeps_retired(self, other: RegistryView) -> bool {
        forall|h: BufferHandle| self.retired(h) ==> #[trigger] other.retired(h)
    }
}

/// Owns every buffer of the process, each behind a generation-checked handle,
/// so that a handle used after its buffer was destroyed is refused.
pub struct BufferRegistry {
    generations: Vec<u32>,
    buffers: Vec<Option<SegmentedBuffer>>,
}

impl View for BufferRegistry {
    type V = RegistryView;

    closed spec fn view(&self) -> RegistryView {
        RegistryView {
            slots: Seq::new(
                self.generations@.len(),
                |i: int|
                    SlotView {
                        generation: self.generations@[i] as nat,
                        buffer: match self.buffers@[i] {
                            Some(b) => Some(b@),
                            None => None,
                        },
                    },
            ),
        }
    }
}

impl BufferRegistry {
    pub open spec fn wf(&self) -> bool {
        &&& self.inv()
        &&& forall|i: int|
            0 <= i < self@.slots.len() ==> ((#[trigger] self@.slots[i]).buffer matches Some(b)
                ==> b.wf() && !b.destroyed)
    }

    pub closed spec fn inv(&self) -> bool {
        &&& self.generations@.len() == self.buffers@.len()
        &&& self.generations@.len() <= u32::MAX
        &&& forall|i: int|
            0 <= i < self.buffers@.len() ==> ((#[trigger] self.buffers@[i]) matches Some(b)
                ==> b.wf())
    }

    pub fn new() -> (r: Self)
        ensures
            r.wf(),
            r@.slots.len() == 0,
    {
        let r = BufferRegistry { generations: Vec::new(), buffers: Vec::new() };
        assert(r@.slots =~= Seq::<SlotView>::empty());
        r
    }

    /// Index of the first empty slot that can move to a new generation.
    fn free_slot(&self) -> (r: Option<usize>)
        requires
            self.wf(),
        ensures
            r matches Some(i) ==> i < self@.slots.len() && self@.is_free(i as int) && forall|j: int|
                0 <= j < i ==> !self@.is_free(j),
            r is None ==> forall|j: int| 0 <= j < self@.slots.len() ==> !self@.is_free(j),
    {
        let mut i: usize = 0;
        while i < self.buffers.len()
            invariant
                self.wf(),
                i <= self.buffers@.len(),
                forall|j: int| 0 <= j < i ==> !self@.is_free(j),
            decreases self.buffers@.len() - i,
        {
            if self.buffers[i].is_none() && self.generations[i] < u32::MAX {
                assert(self@.slots[i as int].buffer is None);
                return Some(i);
            }
            i = i + 1;
        }
        None
    }

    /// Creates a buffer as `SegmentedBuffer::new` does and registers it in
    /// an empty slot at its next generation, or in a new slot.
    /// `MemoryAllocation` when no slot is left.
    pub fn create(&mut self, buffer_size: usize, segment_count: u32, parallelism: u32) -> (r:
        UMSBBResult<BufferHandle>)
        requires
            old(self).wf(),
        ensures
            final(self).wf(),
            (buffer_size == 0 || segment_count > MAX_SEGMENTS) ==> r == Err::<
                BufferHandle,
                UMSBBError,
            >(UMSBBError::InvalidParams),
            (buffer_size > 0 && segment_count <= MAX_SEGMENTS && old(self)@.slots.len() < u32::MAX)
                ==> r is Ok,
            r is Err ==> final(self)@ == old(self)@,
            r is Err ==> r == Err::<BufferHandle, UMSBBError>(UMSBBError::InvalidParams) || r
                == Err::<BufferHandle, UMSBBError>(UMSBBError::MemoryAllocation),
            r matches Ok(h) ==> {
                &&& buffer_size > 0 && segment_count <= MAX_SEGMENTS
                &&& final(self)@.valid(h)
                &&& final(self)@.buffer_of(h).pending() == 0
                &&& final(self)@.slots.len() == if h.index < old(self)@.slots.len() {
                    old(self)@.slots.len()
                } else {
                    old(self)@.slots.len() + 1
                }
                &&& forall|j: int|
                    0 <= j < h.index && j < old(self)@.slots.len() ==> !old(self)@.is_free(j)
                &&& h.index >= old(self)@.slots.len() ==> forall|j: int|
                    0 <= j < old(self)@.slots.len() ==> !old(self)@.is_free(j)
                &&& forall|j: int|
                    0 <= j < old(self)@.slots.len() && j != h.index ==> #[trigger] final(self)@.slots[j]
                        == old(self)@.slots[j]
                &&& h.index < old(self)@.slots.len() ==> old(self)@.is_free(h.index as int)
                    && h.generation == old(self)@.slots[h.index as int].generation + 1
                &&& h.index >= old(self)@.slots.len() ==> h.index == old(self)@.slots.len()
                    && h.generation == 0
            },
            old(self)@.keeps_retired(final(self)@),
    {
        let b = match SegmentedBuffer::new(buffer_size, segment_count, parallelism) {
            Ok(b) => b,
            Err(e) => {
                return Err(e);
            },
        };
        proof {
            crate::buffer::lemma_empty_pending(b@);
        }
        let ghost bv = b@;
        match self.free_slot() {
            Some(i) => {
                let g = self.generations[i] + 1;
                self.generations.set(i, g);
                self.buffers.set(i, Some(b));
                let h = BufferHandle { index: i as u32, generation: g };
                proof {
                    assert(self@.slots =~= old(self)@.slots.update(
                        i as int,
                        SlotView { generation: g as nat, buffer: Some(bv) },
                    ));
                }
                Ok(h)
            },
            None => {
                if self.generations.len() >= u32::MAX as usize {
                    return Err(UMSBBError::MemoryAllocation);
                }
                let i = self.generations.len();
                self.generations.push(0);
                self.buffers.push(Some(b));
                proof {
                    assert(self@.slots =~= old(self)@.slots.push(
                        SlotView { generation: 0, buffer: Some(bv) },
                    ));
                }
                Ok(BufferHandle { index: i as u32, generation: 0 })
            },
        }
    }

    fn is_valid(&self, h: BufferHandle) -> (r: bool)
        requires
            self.wf(),
        ensures
            r == self@.valid(h),
    {
        let i = h.index as usize;
        i < self.generations.len() && self.generations[i] == h.generation
            && self.buffers[i].is_some()
    }

    /// Writes an envelope to the buffer of `h`; `InvalidHandle` unless `h` is live.
    pub fn write(&mut self, h: BufferHandle, e: UniversalData) -> (r: UMSBBResult<()>)
        requires
            old(self).wf(),
        ensures
            final(self).wf(),
            !old(self)@.valid(h) ==> r == Err::<(), UMSBBError>(UMSBBError::InvalidHandle)
                && final(self)@ == old(self)@,
            old(self)@.valid(h) ==> r == old(self)@.buffer_of(h).write_outcome(
                e.data@.len() as int,
            ) && final(self)@ == old(self)@.with_buffer(
                h,
                old(self)@.buffer_of(h).after_write(e),
            ),
            old(self)@.keeps_retired(final(self)@),
    {
        if !self.is_valid(h) {
            return Err(UMSBBError::InvalidHandle);
        }
        let i = h.index as usize;
        let taken = self.buffers[i].take();
        match taken {
            Some(mut b) => {
                let ghost e_g = e;
                let r = b.write(e);
                self.buffers.set(i, Some(b));
                proof {
                    let w = old(self)@.with_buffer(h, old(self)@.buffer_of(h).after_write(e_g));
                    assert(self@.slots =~= w.slots);
                }
                r
            },
            None => Err(UMSBBError::InvalidHandle),
        }
    }

    /// Reads from the buffer of `h`; `InvalidHandle` unless `h` is live.
    pub fn read(&mut self, h: BufferHandle) -> (r: UMSBBResult<Option<UniversalData>>)
        requires
            old(self).wf(),
        ensures
            final(self).wf(),
            !old(self)@.valid(h) ==> r == Err::<Option<UniversalData>, UMSBBError>(
                UMSBBError::InvalidHandle,
            ) && final(self)@ == old(self)@,
            old(self)@.valid(h) ==> r == old(self)@.buffer_of(h).read_outcome() && final(self)@
                == old(self)@.with_buffer(h, old(self)@.buffer_of(h).after_read()),
            old(self)@.keeps_retired(final(self)@),
    {
        if !self.is_valid(h) {
            return Err(UMSBBError::InvalidHandle);
        }
        let i = h.index as usize;
        let taken = self.buffers[i].take();
        match taken {
            Some(mut b) => {
                let r = b.read();
                self.buffers.set(i, Some(b));
                proof {
                    let w = old(self)@.with_buffer(h, old(self)@.buffer_of(h).after_read());
                    assert(self@.slots =~= w.slots);
                }
                r
            },
            None => Err(UMSBBError::InvalidHandle),
        }
    }

    /// Statistics of the buffer of `h`; `InvalidHandle` unless `h` is live.
    pub fn stats(&self, h: BufferHandle) -> (r: UMSBBResult<BufferStats>)
        requires
            self.wf(),
        ensures
            !self@.valid(h) ==> r == Err::<BufferStats, UMSBBError>(UMSBBError::InvalidHandle),
            self@.valid(h) ==> r == Ok::<BufferStats, UMSBBError>(self@.buffer_of(h).stats()),
    {
        if !self.is_valid(h) {
            return Err(UMSBBError::InvalidHandle);
        }
        let i = h.index as usize;
        match &self.buffers[i] {
            Some(b) => b.stats(),
            None => Err(UMSBBError::InvalidHandle),
        }
    }

    /// Destroys the buffer of `h` and reports how many messages were lost;
    /// `InvalidHandle` unless `h` is live, so a second destroy is refused.
    pub fn destroy(&mut self, h: BufferHandle) -> (r: UMSBBResult<usize>)
        requires
            old(self).wf(),
        ensures
            final(self).wf(),
            !old(self)@.valid(h) ==> r == Err::<usize, UMSBBError>(UMSBBError::InvalidHandle)
                && final(self)@ == old(self)@,
            old(self)@.valid(h) ==> r == Ok::<usize, UMSBBError>(
                old(self)@.buffer_of(h).pending() as usize,
            ) && final(self)@ == (RegistryView {
                slots: old(self)@.slots.update(
                    h.index as int,
                    SlotView { generation: h.generation as nat, buffer: None },
                ),
            }),
            final(self)@.retired(h) || !old(self)@.valid(h),
            old(self)@.keeps_retired(final(self)@),
    {
        if !self.is_valid(h) {
            return Err(UMSBBError::InvalidHandle);
        }
        let i = h.index as usize;
        let taken = self.buffers[i].take();
        match taken {
            Some(mut b) => {
                let r = b.destroy();
                proof {
                    assert(self@.slots =~= old(self)@.slots.update(
                        h.index as int,
                        SlotView { generation: h.generation as nat, buffer: None },
                    ));
                }
                r
            },
            None => Err(UMSBBError::InvalidHandle),
        }
    }
}

/// A retired handle is never valid, so every operation of the registry
/// refuses it.
pub proof fn lemma_retired_handle_refused(v: RegistryView, h: BufferHandle)
    requires
        v.retired(h),
    ensures
        !v.valid(h),
{
}

} // verus!

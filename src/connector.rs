use vstd::prelude::*;
use vstd::utf8::{valid_utf8, decode_utf8};
use vstd::string::StringSliceAdditionalSpecFns;
use crate::envelope::{UniversalData, LanguageType};
use crate::error::{UMSBBError, UMSBBResult};
use crate::buffer::{BufferView, BufferStats, SegmentedBuffer, MAX_SEGMENT_BYTES};

verus! {

/// Largest buffer, in MB, that `UMSBBBuffer::new` accepts.
pub const MAX_BUFFER_MB: u32 = 64;

/// Relies on `String::from_utf8`: the bytes become a string exactly when they
/// are valid UTF-8, and the string is what they encode.
#[verifier::external_body]
fn string_from_utf8(bytes: Vec<u8>) -> (r: Option<String>)
    ensures
        r is Some <==> valid_utf8(bytes@),
        r matches Some(s) ==> s@ == decode_utf8(bytes@),
{
    String::from_utf8(bytes).ok()
}

/// What a read of raw bytes returns for a given outcome of the buffer.
pub open spec fn bytes_read_matches(
    outcome: UMSBBResult<Option<UniversalData>>,
    r: UMSBBResult<Option<Vec<u8>>>,
) -> bool {
    match outcome {
        Err(x) => r == Err::<Option<Vec<u8>>, UMSBBError>(x),
        Ok(None) => r == Ok::<Option<Vec<u8>>, UMSBBError>(None),
        Ok(Some(e)) => r matches Ok(Some(v)) && v@ == e.data@,
    }
}

/// What a read of a string returns for a given outcome of the buffer.
pub open spec fn string_read_matches(
    outcome: UMSBBResult<Option<UniversalData>>,
    r: UMSBBResult<Option<String>>,
) -> bool {
    match outcome {
        Err(x) => r == Err::<Option<String>, UMSBBError>(x),
        Ok(None) => r == Ok::<Option<String>, UMSBBError>(None),
        Ok(Some(e)) => if valid_utf8(e.data@) {
            r matches Ok(Some(s)) && s@ == decode_utf8(e.data@)
        } else {
            r == Err::<Option<String>, UMSBBError>(UMSBBError::CorruptedData)
        },
    }
}

/// A bus buffer sized in MB: one 1MB segment per MB, written and read as raw bytes.
pub struct UMSBBBuffer {
    buffer: SegmentedBuffer,
}

impl View for UMSBBBuffer {
    type V = BufferView;

    closed spec fn view(&self) -> BufferView {
        self.buffer@
    }
}

impl UMSBBBuffer {
    pub open spec fn wf(&self) -> bool {
        self@.wf() && self.inv()
    }

    pub closed spec fn inv(&self) -> bool {
        self.buffer.wf()
    }

    /// Creates a buffer of `size_mb` MB; only 1 to 64 are accepted.
    pub fn new(size_mb: u32) -> (r: UMSBBResult<Self>)
        ensures
            (1 <= size_mb <= MAX_BUFFER_MB) <==> r is Ok,
            r is Err ==> r == Err::<Self, UMSBBError>(UMSBBError::InvalidParams),
            r matches Ok(b) ==> {
                &&& b.wf()
                &&& !b@.destroyed
                &&& b@.segments.len() == size_mb
                &&& b@.pending() == 0
                &&& b@.capacity_bytes == MAX_SEGMENT_BYTES
                &&& b@.total_messages == 0
                &&& b@.total_bytes == 0
            },
    {
        if size_mb < 1 || size_mb > MAX_BUFFER_MB {
            return Err(UMSBBError::InvalidParams);
        }
        match SegmentedBuffer::new(MAX_SEGMENT_BYTES, size_mb, 1) {
            Ok(buffer) => {
                proof {
                    crate::buffer::lemma_empty_pending(buffer@);
                }
                Ok(UMSBBBuffer { buffer })
            },
            Err(e) => Err(e),
        }
    }

    /// Writes a copy of `data` as one message.
    pub fn write(&mut self, data: &[u8]) -> (r: UMSBBResult<()>)
        requires
            old(self).wf(),
        ensures
            final(self).wf(),
            r == old(self)@.write_outcome(data@.len() as int),
            exists|e: UniversalData|
                e.data@ == data@ && final(self)@ == old(self)@.after_write(e),
    {
        let e = UniversalData::new(vstd::slice::slice_to_vec(data), 0, LanguageType::Rust);
        let ghost eg = e;
        let r = self.buffer.write(e);
        assert(self@ == old(self)@.after_write(eg));
        r
    }

    /// Writes the UTF-8 bytes of `data` as one message.
    pub fn write_string(&mut self, data: &str) -> (r: UMSBBResult<()>)
        requires
            old(self).wf(),
        ensures
            final(self).wf(),
            r == old(self)@.write_outcome(data.spec_bytes().len() as int),
            exists|e: UniversalData|
                e.data@ == data.spec_bytes() && final(self)@ == old(self)@.after_write(e),
    {
        self.write(data.as_bytes())
    }

    /// Reads the next message; `Ok(None)` when the buffer is empty.
    pub fn read(&mut self) -> (r: UMSBBResult<Option<Vec<u8>>>)
        requires
            old(self).wf(),
        ensures
            final(self).wf(),
            bytes_read_matches(old(self)@.read_outcome(), r),
            final(self)@ == old(self)@.after_read(),
    {
        match self.buffer.read() {
            Ok(Some(e)) => Ok(Some(e.data)),
            Ok(None) => Ok(None),
            Err(x) => Err(x),
        }
    }

    /// Reads the next message as a string; `CorruptedData` when it is not UTF-8.
    pub fn read_string(&mut self) -> (r: UMSBBResult<Option<String>>)
        requires
            old(self).wf(),
        ensures
            final(self).wf(),
            string_read_matches(old(self)@.read_outcome(), r),
            final(self)@ == old(self)@.after_read(),
    {
        match self.read() {
            Ok(Some(data)) => match string_from_utf8(data) {
                Some(s) => Ok(Some(s)),
                None => Err(UMSBBError::CorruptedData),
            },
            Ok(None) => Ok(None),
            Err(x) => Err(x),
        }
    }

    /// Current counters of the buffer (all zero but the totals after a destroy).
    pub fn get_stats(&self) -> (r: BufferStats)
        requires
            self.wf(),
        ensures
            r == self@.stats(),
    {
        match self.buffer.stats() {
            Ok(s) => s,
            Err(_) => {
                proof {
                    assert(self@.segments.len() == 0);
                    assert(self@.pending() == 0);
                }
                BufferStats {
                    total_messages: self.buffer.total_messages(),
                    total_bytes: self.buffer.total_bytes(),
                    pending_messages: 0,
                    active_segments: 0,
                }
            },
        }
    }

    pub fn is_empty(&self) -> (r: bool)
        requires
            self.wf(),
        ensures
            r == (self@.pending() == 0),
    {
        proof {
            self.buffer.lemma_pending_fits();
        }
        self.get_stats().pending_messages == 0
    }

    pub fn pending_count(&self) -> (r: u32)
        requires
            self.wf(),
        ensures
            r == self@.pending(),
    {
        proof {
            self.buffer.lemma_pending_fits();
        }
        self.get_stats().pending_messages
    }

    /// Releases the buffer; reports how many messages were lost, and fails
    /// with `InvalidHandle` when it was already released.
    pub fn destroy(&mut self) -> (r: UMSBBResult<usize>)
        requires
            old(self).wf(),
        ensures
            final(self).wf(),
            r == old(self)@.destroy_outcome(),
            old(self)@.destroyed ==> final(self)@ == old(self)@,
            !old(self)@.destroyed ==> final(self)@ == old(self)@.after_destroy(),
    {
        self.buffer.destroy()
    }
}

/// Creates a buffer of `size_mb` MB, as `UMSBBBuffer::new`.
pub fn create_buffer(size_mb: u32) -> (r: UMSBBResult<UMSBBBuffer>)
    ensures
        (1 <= size_mb <= MAX_BUFFER_MB) <==> r is Ok,
        r is Err ==> r == Err::<UMSBBBuffer, UMSBBError>(UMSBBError::InvalidParams),
        r matches Ok(b) ==> {
            &&& b.wf()
            &&& !b@.destroyed
            &&& b@.segments.len() == size_mb
            &&& b@.pending() == 0
            &&& b@.capacity_bytes == MAX_SEGMENT_BYTES
            &&& b@.total_messages == 0
            &&& b@.total_bytes == 0
        },
{
    UMSBBBuffer::new(size_mb)
}

} // verus!

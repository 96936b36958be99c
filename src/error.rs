use vstd::prelude::*;

verus! {

/// The error codes of the bus.
#[derive(Debug, Clone, Copy, PartialEq, Eq, Structural)]
pub enum UMSBBError {
    Success,
    InvalidParams,
    BufferFull,
    BufferEmpty,
    InvalidHandle,
    MemoryAllocation,
    CorruptedData,
}

/// Result of a bus operation.
pub type UMSBBResult<T> = Result<T, UMSBBError>;

impl UMSBBError {
    /// The human-readable description of each error code.
    pub open spec fn text(self) -> Seq<char> {
        match self {
            UMSBBError::Success => "Success"@,
            UMSBBError::InvalidParams => "Invalid parameters"@,
            UMSBBError::BufferFull => "Buffer is full"@,
            UMSBBError::BufferEmpty => "Buffer is empty"@,
            UMSBBError::InvalidHandle => "Invalid buffer handle"@,
            UMSBBError::MemoryAllocation => "Memory allocation failed"@,
            UMSBBError::CorruptedData => "Corrupted data detected"@,
        }
    }

    pub fn as_str(&self) -> (r: &'static str)
        ensures
            r@ == self.text(),
    {
        match self {
            UMSBBError::Success => "Success",
            UMSBBError::InvalidParams => "Invalid parameters",
            UMSBBError::BufferFull => "Buffer is full",
            UMSBBError::BufferEmpty => "Buffer is empty",
            UMSBBError::InvalidHandle => "Invalid buffer handle",
            UMSBBError::MemoryAllocation => "Memory allocation failed",
            UMSBBError::CorruptedData => "Corrupted data detected",
        }
    }
}

} // verus!

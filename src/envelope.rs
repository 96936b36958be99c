use vstd::prelude::*;

verus! {

/// The language or source that produced an envelope (informational only).
#[derive(Debug, Clone, Copy, PartialEq, Eq, Structural)]
pub enum LanguageType {
    C,
    Cpp,
    Python,
    Javascript,
    Rust,
    Go,
    Java,
    CSharp,
    Kotlin,
    Swift,
}

/// A self-describing unit of transfer: payload bytes, a routing tag and an
/// origin tag. Ownership moves into the buffer on write and out on read.
#[derive(Debug)]
pub struct UniversalData {
    pub data: Vec<u8>,
    pub type_id: u32,
    pub source_lang: LanguageType,
}

impl UniversalData {
    pub fn new(data: Vec<u8>, type_id: u32, source_lang: LanguageType) -> (r: Self)
        ensures
            r.data@ == data@,
            r.type_id == type_id,
            r.source_lang == source_lang,
    {
        UniversalData { data, type_id, source_lang }
    }

    /// Number of payload bytes.
    pub fn size(&self) -> (r: usize)
        ensures
            r == self.data@.len(),
    {
        self.data.len()
    }
}

} // verus!

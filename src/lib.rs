//! A bounded, segmented message bus: tagged byte envelopes are stored in
//! fixed-capacity FIFO segments, and a scaling controller decides how many
//! producer and consumer workers should be active.

pub mod error;
pub mod envelope;
pub mod segment;
pub mod buffer;
pub mod buffer_laws;
pub mod connector;
pub mod scaling;
pub mod gpu;
pub mod bus;
pub mod pool;
pub mod registry;

//! Signal-level input: bit primitives, frame model, reader and timing.

pub mod backend;
pub mod bits;
pub mod frame;
pub mod reader;
pub mod timer;
pub mod weigand;

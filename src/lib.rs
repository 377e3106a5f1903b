//! A fixed-length byte buffer with bounds-checked access to raw bytes,
//! byte ranges and little-endian integers of 8, 16 and 32 bits.
pub mod buffer;
pub mod codec;

pub use buffer::{Buffer, BufferError};

//! Length-prefixed, type-tagged, CRC-checked binary chunks in the layout of
//! PNG chunks, with their four-byte type tags.

pub mod endian;
pub mod text;
pub mod chunk_type;
pub mod chunk;

pub use chunk::{Chunk, ChunkError, DecodeError};
pub use chunk_type::{ChunkType, ChunkTypeError};

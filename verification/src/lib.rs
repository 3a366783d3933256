//! A verified codec for a chunk-based binary container format.
//!
//! A container is a fixed eight-byte signature followed by a sequence of
//! chunks; each chunk is a big-endian length, a four-letter type code, a
//! payload, and a CRC-32 checksum over the type and payload bytes.

pub mod args;
pub mod chunk;
pub mod chunk_type;
pub mod crc32;
pub mod encoding;
pub mod errors;
pub mod png;
pub mod text;

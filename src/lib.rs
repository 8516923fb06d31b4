//! CompactSize variable-length unsigned integers.
//!
//! A value is written as one byte when it is at most 252, and otherwise as a
//! marker byte (`0xfd`, `0xfe` or `0xff`) followed by 2, 4 or 8 little-endian
//! bytes. `varuint` holds the value type and its codec, `reader` a byte source
//! to parse from, `le` the little-endian model the contracts are stated in, and
//! `laws` what holds of encoding and decoding together.
pub mod laws;
pub mod le;
pub mod reader;
pub mod varuint;

pub use reader::ByteReader;
pub use varuint::{DecodeError, VarUint, Width};

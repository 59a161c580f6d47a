//! Literal-symbol coding core of a nibble-oriented entropy coder.

pub mod bits;
pub mod buffer;
pub mod codec;
pub mod constants;
pub mod interface;
pub mod probability;
pub mod reader;

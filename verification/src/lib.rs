//! Binary codec for the surface-management message family of a remote
//! desktop protocol: fixed-width little-endian primitives, count-prefixed
//! collections, bit-flag fields, numeric discriminants, and a tagged-union
//! envelope that routes a raw buffer to the right message variant.

pub mod bytes;
pub mod enums;
pub mod envelope;
pub mod error;
pub mod flags;
pub mod laws;
pub mod list;
pub mod messages;
pub mod rect;
pub mod surface;

//! Bit-flag values: typed wrappers over an unsigned integer with named bit
//! masks, combined by bitwise OR and compared by raw value. Unknown bits
//! round-trip untouched: construction never masks or rejects.

use vstd::prelude::*;

verus! {

/// Properties of one surface, as named bit masks over a 16-bit value.
#[derive(Clone, Copy, Debug, PartialEq, Eq, Structural)]
pub struct SurfacePropertiesFlags {
    pub value: u16,
}

impl SurfacePropertiesFlags {
    pub const PRIMARY: u16 = 0x0001;
    pub const MIRRORED: u16 = 0x0002;
    pub const DISABLED: u16 = 0x0004;
    pub const SELECTED: u16 = 0x0008;

    /// The canonical default combination: selected and primary, nothing else.
    pub const DEFAULT_VALUE: u16 = 0x0009;

    /// Wrap a raw combination of masks; every 16-bit value is legal.
    pub fn new(value: u16) -> (r: Self)
        ensures
            r.value == value,
    {
        SurfacePropertiesFlags { value }
    }
}

impl Default for SurfacePropertiesFlags {
    /// A fresh flags value carries exactly the selected and primary bits.
    fn default() -> (r: Self)
        ensures
            r.value == SurfacePropertiesFlags::DEFAULT_VALUE,
    {
        let v: u16 = SurfacePropertiesFlags::SELECTED | SurfacePropertiesFlags::PRIMARY;
        assert(0x0008u16 | 0x0001u16 == 0x0009u16) by (bit_vector);
        SurfacePropertiesFlags { value: v }
    }
}

/// Outcome flags of a response message, over an 8-bit value.
#[derive(Clone, Copy, Debug, PartialEq, Eq, Structural)]
pub struct SurfaceResponseFlags {
    pub value: u8,
}

impl SurfaceResponseFlags {
    pub const FAILURE: u8 = 0x80;

    /// Wrap a raw combination of masks; every 8-bit value is legal.
    pub fn new(value: u8) -> (r: Self)
        ensures
            r.value == value,
    {
        SurfaceResponseFlags { value }
    }
}

} // verus!

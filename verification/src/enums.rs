//! Numeric enum discriminants: bidirectional maps between an integer code
//! and a symbolic variant. Codes need not be contiguous; decoding rejects
//! every code outside the declared set.

use vstd::prelude::*;

verus! {

/// The six reserved message-type discriminants of the surface family.
#[derive(Clone, Copy, Debug, PartialEq, Eq, Structural)]
pub enum SurfaceMessageType {
    ListReq,
    ListRsp,
    MapReq,
    MapRsp,
    SelectReq,
    SelectRsp,
}

impl SurfaceMessageType {
    /// The canonical wire code of this variant.
    pub open spec fn code(self) -> u8 {
        match self {
            SurfaceMessageType::ListReq => 0x01,
            SurfaceMessageType::ListRsp => 0x02,
            SurfaceMessageType::MapReq => 0x03,
            SurfaceMessageType::MapRsp => 0x04,
            SurfaceMessageType::SelectReq => 0x05,
            SurfaceMessageType::SelectRsp => 0x06,
        }
    }

    /// The variant a wire code denotes, if it is one of the declared set.
    pub open spec fn spec_from_code(c: u8) -> Option<SurfaceMessageType> {
        if c == 0x01 {
            Some(SurfaceMessageType::ListReq)
        } else if c == 0x02 {
            Some(SurfaceMessageType::ListRsp)
        } else if c == 0x03 {
            Some(SurfaceMessageType::MapReq)
        } else if c == 0x04 {
            Some(SurfaceMessageType::MapRsp)
        } else if c == 0x05 {
            Some(SurfaceMessageType::SelectReq)
        } else if c == 0x06 {
            Some(SurfaceMessageType::SelectRsp)
        } else {
            None
        }
    }

    /// Emit the canonical code.
    pub fn to_code(self) -> (r: u8)
        ensures
            r == self.code(),
    {
        match self {
            SurfaceMessageType::ListReq => 0x01,
            SurfaceMessageType::ListRsp => 0x02,
            SurfaceMessageType::MapReq => 0x03,
            SurfaceMessageType::MapRsp => 0x04,
            SurfaceMessageType::SelectReq => 0x05,
            SurfaceMessageType::SelectRsp => 0x06,
        }
    }

    /// Map a wire code back to its variant, rejecting codes outside the set.
    pub fn from_code(c: u8) -> (r: Option<SurfaceMessageType>)
        ensures
            r == SurfaceMessageType::spec_from_code(c),
    {
        if c == 0x01 {
            Some(SurfaceMessageType::ListReq)
        } else if c == 0x02 {
            Some(SurfaceMessageType::ListRsp)
        } else if c == 0x03 {
            Some(SurfaceMessageType::MapReq)
        } else if c == 0x04 {
            Some(SurfaceMessageType::MapRsp)
        } else if c == 0x05 {
            Some(SurfaceMessageType::SelectReq)
        } else if c == 0x06 {
            Some(SurfaceMessageType::SelectRsp)
        } else {
            None
        }
    }
}

/// The code of a message type maps back to that type: the two directions of
/// the discriminant table agree.
pub proof fn lemma_message_type_code_round_trip(t: SurfaceMessageType)
    ensures
        SurfaceMessageType::spec_from_code(t.code()) == Some(t),
{
}

/// The orientation of a surface, with the non-contiguous degree codes.
#[derive(Clone, Copy, Debug, PartialEq, Eq, Structural)]
pub enum SurfaceOrientation {
    Landscape,
    Portrait,
    LandscapeFlipped,
    PortraitFlipped,
}

impl SurfaceOrientation {
    /// The canonical wire code of this variant, in degrees.
    pub open spec fn code(self) -> u16 {
        match self {
            SurfaceOrientation::Landscape => 0,
            SurfaceOrientation::Portrait => 90,
            SurfaceOrientation::LandscapeFlipped => 180,
            SurfaceOrientation::PortraitFlipped => 270,
        }
    }

    /// The variant a wire code denotes, if it is one of the declared set.
    pub open spec fn spec_from_code(c: u16) -> Option<SurfaceOrientation> {
        if c == 0 {
            Some(SurfaceOrientation::Landscape)
        } else if c == 90 {
            Some(SurfaceOrientation::Portrait)
        } else if c == 180 {
            Some(SurfaceOrientation::LandscapeFlipped)
        } else if c == 270 {
            Some(SurfaceOrientation::PortraitFlipped)
        } else {
            None
        }
    }

    /// Emit the canonical code.
    pub fn to_code(self) -> (r: u16)
        ensures
            r == self.code(),
    {
        match self {
            SurfaceOrientation::Landscape => 0,
            SurfaceOrientation::Portrait => 90,
            SurfaceOrientation::LandscapeFlipped => 180,
            SurfaceOrientation::PortraitFlipped => 270,
        }
    }

    /// Map a wire code back to its variant, rejecting codes outside the set.
    pub fn from_code(c: u16) -> (r: Option<SurfaceOrientation>)
        ensures
            r == SurfaceOrientation::spec_from_code(c),
    {
        if c == 0 {
            Some(SurfaceOrientation::Landscape)
        } else if c == 90 {
            Some(SurfaceOrientation::Portrait)
        } else if c == 180 {
            Some(SurfaceOrientation::LandscapeFlipped)
        } else if c == 270 {
            Some(SurfaceOrientation::PortraitFlipped)
        } else {
            None
        }
    }
}

/// The code of an orientation maps back to that orientation.
pub proof fn lemma_orientation_code_round_trip(o: SurfaceOrientation)
    ensures
        SurfaceOrientation::spec_from_code(o.code()) == Some(o),
{
}

} // verus!

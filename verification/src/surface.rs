//! The two fixed-shape elements carried by the list and map requests: a
//! surface definition and a surface-to-output mapping. Each is sixteen bytes
//! on the wire, its fields in declaration order.

use vstd::prelude::*;
use crate::bytes::{dec_u16, lemma_dec_u16_of_bytes, put_u16, read_u16, u16_le};
use crate::enums::SurfaceOrientation;
use crate::error::{EntityName, ProtoError, ProtoErrorKind};
use crate::flags::SurfacePropertiesFlags;
use crate::rect::{dec_rect, lemma_dec_rect_of_bytes, rect_bytes, EdgeRect};

verus! {

/// One display surface: a self-reported fixed size, its property flags, its
/// identifier, orientation and bounding rectangle. The size field is written
/// at construction and carried through, never cross-checked on decode.
#[derive(Clone, Copy, Debug, PartialEq, Eq, Structural)]
pub struct NowSurfaceDef {
    pub size: u16,
    pub flags: SurfacePropertiesFlags,
    pub surface_id: u16,
    pub orientation: SurfaceOrientation,
    pub rect: EdgeRect,
}

/// The sixteen-byte wire image of a surface definition.
pub open spec fn def_bytes(d: NowSurfaceDef) -> Seq<u8> {
    u16_le(d.size) + u16_le(d.flags.value) + u16_le(d.surface_id) + u16_le(d.orientation.code())
        + rect_bytes(d.rect)
}

/// What reading a surface definition at position `i` of `b` yields. An
/// orientation code outside the declared set makes the read fail.
pub open spec fn dec_def(b: Seq<u8>, i: int) -> Option<(NowSurfaceDef, int)> {
    match dec_u16(b, i) {
        None => None,
        Some((size, i1)) => match dec_u16(b, i1) {
            None => None,
            Some((fl, i2)) => match dec_u16(b, i2) {
                None => None,
                Some((sid, i3)) => match dec_u16(b, i3) {
                    None => None,
                    Some((oc, i4)) => match SurfaceOrientation::spec_from_code(oc) {
                        None => None,
                        Some(orientation) => match dec_rect(b, i4) {
                            None => None,
                            Some((rect, i5)) => Some(
                                (
                                    NowSurfaceDef {
                                        size,
                                        flags: SurfacePropertiesFlags { value: fl },
                                        surface_id: sid,
                                        orientation,
                                        rect,
                                    },
                                    i5,
                                ),
                            ),
                        },
                    },
                },
            },
        },
    }
}

/// Reading sixteen bytes that are the image of `d` gives back exactly `d`.
pub proof fn lemma_dec_def_of_bytes(b: Seq<u8>, i: int, d: NowSurfaceDef)
    requires
        0 <= i,
        i + 16 <= b.len(),
        b.subrange(i, i + 16) == def_bytes(d),
    ensures
        dec_def(b, i) == Some((d, i + 16)),
{
    let e = def_bytes(d);
    assert forall|k: int| 0 <= k < 16 implies b[i + k] == e[k] by {
        assert(b.subrange(i, i + 16)[k] == b[i + k]);
    }
    assert(e[0] == u16_le(d.size)[0]);
    assert(e[1] == u16_le(d.size)[1]);
    assert(e[2] == u16_le(d.flags.value)[0]);
    assert(e[3] == u16_le(d.flags.value)[1]);
    assert(e[4] == u16_le(d.surface_id)[0]);
    assert(e[5] == u16_le(d.surface_id)[1]);
    assert(e[6] == u16_le(d.orientation.code())[0]);
    assert(e[7] == u16_le(d.orientation.code())[1]);
    assert(b[i] == e[0]);
    assert(b[i + 1] == e[1]);
    assert(b[i + 2] == e[2]);
    assert(b[i + 3] == e[3]);
    assert(b[i + 4] == e[4]);
    assert(b[i + 5] == e[5]);
    assert(b[i + 6] == e[6]);
    assert(b[i + 7] == e[7]);
    lemma_dec_u16_of_bytes(b, i, d.size);
    lemma_dec_u16_of_bytes(b, i + 2, d.flags.value);
    lemma_dec_u16_of_bytes(b, i + 4, d.surface_id);
    lemma_dec_u16_of_bytes(b, i + 6, d.orientation.code());
    crate::enums::lemma_orientation_code_round_trip(d.orientation);
    assert(b.subrange(i + 8, i + 16) =~= rect_bytes(d.rect)) by {
        assert forall|k: int| 0 <= k < 8 implies b.subrange(i + 8, i + 16)[k] == rect_bytes(
            d.rect,
        )[k] by {
            assert(b.subrange(i + 8, i + 16)[k] == b[i + 8 + k]);
            assert(b[i + (8 + k)] == e[8 + k]);
            assert(e[8 + k] == rect_bytes(d.rect)[k]);
        }
    }
    lemma_dec_rect_of_bytes(b, i + 8, d.rect);
}

impl NowSurfaceDef {
    /// The fixed wire size of a surface definition, also the value seeded
    /// into the self-reported size field.
    pub const REQUIRED_SIZE: usize = 16;

    /// Build a definition for one surface: size seeded with the fixed header
    /// size, flags at their canonical default, orientation landscape.
    pub fn new(surface_id: u16, rect: EdgeRect) -> (r: Self)
        ensures
            r.size == 16,
            r.flags.value == SurfacePropertiesFlags::DEFAULT_VALUE,
            r.surface_id == surface_id,
            r.orientation == SurfaceOrientation::Landscape,
            r.rect == rect,
    {
        NowSurfaceDef {
            size: 16,
            flags: SurfacePropertiesFlags::default(),
            surface_id,
            orientation: SurfaceOrientation::Landscape,
            rect,
        }
    }

    /// Replace the flags, keeping every other field: a fluent refinement.
    pub fn flags(self, flags: SurfacePropertiesFlags) -> (r: Self)
        ensures
            r == (NowSurfaceDef { flags, ..self }),
    {
        NowSurfaceDef { flags, ..self }
    }

    /// Replace the orientation, keeping every other field.
    pub fn orientation(self, orientation: SurfaceOrientation) -> (r: Self)
        ensures
            r == (NowSurfaceDef { orientation, ..self }),
    {
        NowSurfaceDef { orientation, ..self }
    }

    /// Append the sixteen-byte wire image of this definition.
    pub fn encode_into(&self, buf: &mut Vec<u8>)
        ensures
            final(buf)@ == old(buf)@ + def_bytes(*self),
    {
        put_u16(buf, self.size);
        put_u16(buf, self.flags.value);
        put_u16(buf, self.surface_id);
        put_u16(buf, self.orientation.to_code());
        self.rect.encode_into(buf);
        assert(buf@ =~= old(buf)@ + def_bytes(*self));
    }

    /// Read a surface definition, advancing the position.
    pub fn decode_from(buf: &[u8], pos: &mut usize) -> (r: Result<NowSurfaceDef, ProtoError>)
        ensures
            match dec_def(buf@, *old(pos) as int) {
                Some(p) => r is Ok && r->Ok_0 == p.0 && *final(pos) == p.1,
                None => {
                    &&& r is Err
                    &&& r->Err_0.wf()
                    &&& (r->Err_0.root_kind() is Decoding || r->Err_0.root_kind()
                        is InvalidDiscriminant)
                },
            },
    {
        let size = read_u16(buf, pos, EntityName::SurfaceDef)?;
        let fl = read_u16(buf, pos, EntityName::SurfaceDef)?;
        let surface_id = read_u16(buf, pos, EntityName::SurfaceDef)?;
        let oc = read_u16(buf, pos, EntityName::SurfaceDef)?;
        let orientation = match SurfaceOrientation::from_code(oc) {
            Some(o) => o,
            None => {
                return Err(
                    ProtoError::new(
                        ProtoErrorKind::InvalidDiscriminant(EntityName::SurfaceOrientation, oc),
                        "orientation code outside the declared set",
                    ).chain(
                        ProtoErrorKind::Decoding(EntityName::SurfaceDef),
                        "couldn't decode surface definition",
                    ),
                );
            },
        };
        let rect = EdgeRect::decode_from(buf, pos, EntityName::SurfaceDef)?;
        Ok(NowSurfaceDef { size, flags: SurfacePropertiesFlags { value: fl }, surface_id, orientation, rect })
    }
}

/// A mapping of one surface onto one output device, with the rectangle it
/// covers there.
#[derive(Clone, Copy, Debug, PartialEq, Eq, Structural)]
pub struct NowSurfaceMap {
    pub size: u16,
    pub flags: u16,
    pub surface_id: u16,
    pub output_id: u16,
    pub output_rect: EdgeRect,
}

/// The sixteen-byte wire image of a surface mapping.
pub open spec fn map_bytes(m: NowSurfaceMap) -> Seq<u8> {
    u16_le(m.size) + u16_le(m.flags) + u16_le(m.surface_id) + u16_le(m.output_id) + rect_bytes(
        m.output_rect,
    )
}

/// What reading a surface mapping at position `i` of `b` yields.
pub open spec fn dec_map(b: Seq<u8>, i: int) -> Option<(NowSurfaceMap, int)> {
    match dec_u16(b, i) {
        None => None,
        Some((size, i1)) => match dec_u16(b, i1) {
            None => None,
            Some((fl, i2)) => match dec_u16(b, i2) {
                None => None,
                Some((sid, i3)) => match dec_u16(b, i3) {
                    None => None,
                    Some((oid, i4)) => match dec_rect(b, i4) {
                        None => None,
                        Some((output_rect, i5)) => Some(
                            (
                                NowSurfaceMap {
                                    size,
                                    flags: fl,
                                    surface_id: sid,
                                    output_id: oid,
                                    output_rect,
                                },
                                i5,
                            ),
                        ),
                    },
                },
            },
        },
    }
}

/// Reading sixteen bytes that are the image of `m` gives back exactly `m`.
pub proof fn lemma_dec_map_of_bytes(b: Seq<u8>, i: int, m: NowSurfaceMap)
    requires
        0 <= i,
        i + 16 <= b.len(),
        b.subrange(i, i + 16) == map_bytes(m),
    ensures
        dec_map(b, i) == Some((m, i + 16)),
{
    let e = map_bytes(m);
    assert forall|k: int| 0 <= k < 16 implies b[i + k] == e[k] by {
        assert(b.subrange(i, i + 16)[k] == b[i + k]);
    }
    assert(e[0] == u16_le(m.size)[0]);
    assert(e[1] == u16_le(m.size)[1]);
    assert(e[2] == u16_le(m.flags)[0]);
    assert(e[3] == u16_le(m.flags)[1]);
    assert(e[4] == u16_le(m.surface_id)[0]);
    assert(e[5] == u16_le(m.surface_id)[1]);
    assert(e[6] == u16_le(m.output_id)[0]);
    assert(e[7] == u16_le(m.output_id)[1]);
    assert(b[i] == e[0]);
    assert(b[i + 1] == e[1]);
    assert(b[i + 2] == e[2]);
    assert(b[i + 3] == e[3]);
    assert(b[i + 4] == e[4]);
    assert(b[i + 5] == e[5]);
    assert(b[i + 6] == e[6]);
    assert(b[i + 7] == e[7]);
    lemma_dec_u16_of_bytes(b, i, m.size);
    lemma_dec_u16_of_bytes(b, i + 2, m.flags);
    lemma_dec_u16_of_bytes(b, i + 4, m.surface_id);
    lemma_dec_u16_of_bytes(b, i + 6, m.output_id);
    assert(b.subrange(i + 8, i + 16) =~= rect_bytes(m.output_rect)) by {
        assert forall|k: int| 0 <= k < 8 implies b.subrange(i + 8, i + 16)[k] == rect_bytes(
            m.output_rect,
        )[k] by {
            assert(b.subrange(i + 8, i + 16)[k] == b[i + 8 + k]);
            assert(b[i + (8 + k)] == e[8 + k]);
            assert(e[8 + k] == rect_bytes(m.output_rect)[k]);
        }
    }
    lemma_dec_rect_of_bytes(b, i + 8, m.output_rect);
}

impl NowSurfaceMap {
    /// The fixed wire size of a surface mapping, also the value seeded into
    /// the self-reported size field.
    pub const REQUIRED_SIZE: usize = 16;

    /// Build a mapping of one surface onto one output: size seeded with the
    /// fixed size, flags clear.
    pub fn new(surface_id: u16, output_id: u16, output_rect: EdgeRect) -> (r: Self)
        ensures
            r.size == 16,
            r.flags == 0,
            r.surface_id == surface_id,
            r.output_id == output_id,
            r.output_rect == output_rect,
    {
        NowSurfaceMap { size: 16, flags: 0, surface_id, output_id, output_rect }
    }

    /// Append the sixteen-byte wire image of this mapping.
    pub fn encode_into(&self, buf: &mut Vec<u8>)
        ensures
            final(buf)@ == old(buf)@ + map_bytes(*self),
    {
        put_u16(buf, self.size);
        put_u16(buf, self.flags);
        put_u16(buf, self.surface_id);
        put_u16(buf, self.output_id);
        self.output_rect.encode_into(buf);
        assert(buf@ =~= old(buf)@ + map_bytes(*self));
    }

    /// Read a surface mapping, advancing the position.
    pub fn decode_from(buf: &[u8], pos: &mut usize) -> (r: Result<NowSurfaceMap, ProtoError>)
        ensures
            match dec_map(buf@, *old(pos) as int) {
                Some(p) => r is Ok && r->Ok_0 == p.0 && *final(pos) == p.1,
                None => {
                    &&& r is Err
                    &&& r->Err_0.wf()
                    &&& r->Err_0.root_kind() is Decoding
                },
            },
    {
        let size = read_u16(buf, pos, EntityName::SurfaceMap)?;
        let fl = read_u16(buf, pos, EntityName::SurfaceMap)?;
        let surface_id = read_u16(buf, pos, EntityName::SurfaceMap)?;
        let output_id = read_u16(buf, pos, EntityName::SurfaceMap)?;
        let output_rect = EdgeRect::decode_from(buf, pos, EntityName::SurfaceMap)?;
        Ok(NowSurfaceMap { size, flags: fl, surface_id, output_id, output_rect })
    }
}

} // verus!

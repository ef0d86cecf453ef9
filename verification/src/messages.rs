//! The six message variants of the surface family. Each is self-contained
//! on the wire: its own leading discriminant byte, a fixed header, and for
//! the two requests a count-prefixed collection of elements.

use vstd::prelude::*;
use crate::bytes::{dec_u8, dec_u16, lemma_dec_u16_of_bytes, put_u8, put_u16, read_u8, read_u16, u16_le};
use crate::enums::{lemma_message_type_code_round_trip, SurfaceMessageType};
use crate::error::{EntityName, ProtoError, ProtoErrorKind};
use crate::flags::SurfaceResponseFlags;
use crate::list::{
    dec_defs, dec_maps, decode_defs, decode_maps, defs_bytes, encode_defs, encode_maps,
    lemma_dec_defs_of_bytes, lemma_dec_maps_of_bytes, lemma_defs_bytes_len, lemma_maps_bytes_len,
    maps_bytes,
};
use crate::surface::{NowSurfaceDef, NowSurfaceMap};

verus! {

// --- list request ---

/// Announces the desktop and the surfaces laid out on it.
#[derive(Debug, Clone)]
pub struct NowSurfaceListReqMsg {
    pub subtype: SurfaceMessageType,
    pub flags: u8,
    pub sequence_id: u16,
    pub desktop_width: u16,
    pub desktop_height: u16,
    pub surfaces: Vec<NowSurfaceDef>,
}

/// The mathematical image of a list request: its fields with the surfaces as
/// a sequence.
#[verifier::ext_equal]
pub struct ListReqView {
    pub subtype: SurfaceMessageType,
    pub flags: u8,
    pub sequence_id: u16,
    pub desktop_width: u16,
    pub desktop_height: u16,
    pub surfaces: Seq<NowSurfaceDef>,
}

impl View for NowSurfaceListReqMsg {
    type V = ListReqView;

    open spec fn view(&self) -> ListReqView {
        ListReqView {
            subtype: self.subtype,
            flags: self.flags,
            sequence_id: self.sequence_id,
            desktop_width: self.desktop_width,
            desktop_height: self.desktop_height,
            surfaces: self.surfaces@,
        }
    }
}

/// The wire image of a list request: discriminant, flags, sequence id,
/// desktop width and height, then the count-prefixed surfaces.
pub open spec fn list_req_bytes(v: ListReqView) -> Seq<u8> {
    seq![v.subtype.code(), v.flags] + u16_le(v.sequence_id) + u16_le(v.desktop_width) + u16_le(
        v.desktop_height,
    ) + seq![v.surfaces.len() as u8] + defs_bytes(v.surfaces)
}

/// What reading a list request at position `i` of `b` yields.
pub open spec fn dec_list_req(b: Seq<u8>, i: int) -> Option<(ListReqView, int)> {
    match dec_u8(b, i) {
        None => None,
        Some((c, i1)) => match SurfaceMessageType::spec_from_code(c) {
            None => None,
            Some(subtype) => match dec_u8(b, i1) {
                None => None,
                Some((fl, i2)) => match dec_u16(b, i2) {
                    None => None,
                    Some((sid, i3)) => match dec_u16(b, i3) {
                        None => None,
                        Some((w, i4)) => match dec_u16(b, i4) {
                            None => None,
                            Some((h, i5)) => match dec_u8(b, i5) {
                                None => None,
                                Some((count, i6)) => match dec_defs(b, i6, count as nat) {
                                    None => None,
                                    Some((surfaces, i7)) => Some(
                                        (
                                            ListReqView {
                                                subtype,
                                                flags: fl,
                                                sequence_id: sid,
                                                desktop_width: w,
                                                desktop_height: h,
                                                surfaces,
                                            },
                                            i7,
                                        ),
                                    ),
                                },
                            },
                        },
                    },
                },
            },
        },
    }
}

impl NowSurfaceListReqMsg {
    pub const SUBTYPE: SurfaceMessageType = SurfaceMessageType::ListReq;

    /// The fixed header size before the surfaces.
    pub const REQUIRED_SIZE: usize = 9;

    /// An empty list request.
    pub fn new(sequence_id: u16, desktop_width: u16, desktop_height: u16) -> (r: Self)
        ensures
            r.subtype == SurfaceMessageType::ListReq,
            r.flags == 0,
            r.sequence_id == sequence_id,
            r.desktop_width == desktop_width,
            r.desktop_height == desktop_height,
            r.surfaces@ =~= Seq::<NowSurfaceDef>::empty(),
    {
        Self::new_with_surfaces(sequence_id, desktop_width, desktop_height, Vec::new())
    }

    /// A list request carrying the given surfaces.
    pub fn new_with_surfaces(
        sequence_id: u16,
        desktop_width: u16,
        desktop_height: u16,
        surfaces: Vec<NowSurfaceDef>,
    ) -> (r: Self)
        ensures
            r.subtype == SurfaceMessageType::ListReq,
            r.flags == 0,
            r.sequence_id == sequence_id,
            r.desktop_width == desktop_width,
            r.desktop_height == desktop_height,
            r.surfaces@ == surfaces@,
    {
        NowSurfaceListReqMsg {
            subtype: SurfaceMessageType::ListReq,
            flags: 0,
            sequence_id,
            desktop_width,
            desktop_height,
            surfaces,
        }
    }

    /// The exact number of bytes `encode_into` would append, computed
    /// without writing.
    pub fn encoded_len(&self) -> (r: usize)
        requires
            self.surfaces@.len() <= 255,
        ensures
            r == list_req_bytes(self@).len(),
    {
        proof {
            lemma_defs_bytes_len(self.surfaces@);
        }
        9 + 16 * self.surfaces.len()
    }

    /// Append the wire image; a list of more than 255 surfaces is refused
    /// with an encoding failure and the buffer is left untouched.
    pub fn encode_into(&self, buf: &mut Vec<u8>) -> (r: Result<(), ProtoError>)
        ensures
            self.surfaces@.len() <= 255 ==> {
                &&& r is Ok
                &&& final(buf)@ == old(buf)@ + list_req_bytes(self@)
            },
            self.surfaces@.len() > 255 ==> {
                &&& r is Err
                &&& final(buf)@ == old(buf)@
                &&& r->Err_0.wf()
                &&& r->Err_0.root_kind() == ProtoErrorKind::Encoding(EntityName::SurfaceListReq)
            },
    {
        if self.surfaces.len() > 255 {
            return Err(
                ProtoError::new(
                    ProtoErrorKind::Encoding(EntityName::SurfaceListReq),
                    "a count-prefixed collection holds at most 255 elements",
                ),
            );
        }
        put_u8(buf, self.subtype.to_code());
        put_u8(buf, self.flags);
        put_u16(buf, self.sequence_id);
        put_u16(buf, self.desktop_width);
        put_u16(buf, self.desktop_height);
        put_u8(buf, self.surfaces.len() as u8);
        encode_defs(&self.surfaces, buf);
        proof {
            assert(buf@ =~= old(buf)@ + list_req_bytes(self@));
        }
        Ok(())
    }

    /// Encode into a fresh buffer.
    pub fn encode(&self) -> (r: Result<Vec<u8>, ProtoError>)
        ensures
            self.surfaces@.len() <= 255 ==> r is Ok && r->Ok_0@ == list_req_bytes(self@),
            self.surfaces@.len() > 255 ==> {
                &&& r is Err
                &&& r->Err_0.wf()
                &&& r->Err_0.root_kind() == ProtoErrorKind::Encoding(EntityName::SurfaceListReq)
            },
    {
        let mut buf: Vec<u8> = Vec::new();
        self.encode_into(&mut buf)?;
        assert(buf@ =~= list_req_bytes(self@));
        Ok(buf)
    }

    /// Read a list request, advancing the position.
    pub fn decode_from(buf: &[u8], pos: &mut usize) -> (r: Result<Self, ProtoError>)
        ensures
            match dec_list_req(buf@, *old(pos) as int) {
                Some(p) => r is Ok && r->Ok_0@ == p.0 && *final(pos) == p.1,
                None => {
                    &&& r is Err
                    &&& r->Err_0.wf()
                    &&& (r->Err_0.root_kind() is Decoding || r->Err_0.root_kind()
                        is InvalidDiscriminant)
                },
            },
    {
        let c = read_u8(buf, pos, EntityName::SurfaceListReq)?;
        let subtype = match SurfaceMessageType::from_code(c) {
            Some(t) => t,
            None => {
                return Err(
                    ProtoError::new(
                        ProtoErrorKind::InvalidDiscriminant(
                            EntityName::SurfaceMessageType,
                            c as u16,
                        ),
                        "message-type code outside the declared set",
                    ).chain(
                        ProtoErrorKind::Decoding(EntityName::SurfaceListReq),
                        "couldn't decode list request message",
                    ),
                );
            },
        };
        let flags = read_u8(buf, pos, EntityName::SurfaceListReq)?;
        let sequence_id = read_u16(buf, pos, EntityName::SurfaceListReq)?;
        let desktop_width = read_u16(buf, pos, EntityName::SurfaceListReq)?;
        let desktop_height = read_u16(buf, pos, EntityName::SurfaceListReq)?;
        let count = read_u8(buf, pos, EntityName::SurfaceListReq)?;
        let surfaces = decode_defs(buf, pos, count, EntityName::SurfaceListReq)?;
        Ok(
            NowSurfaceListReqMsg {
                subtype,
                flags,
                sequence_id,
                desktop_width,
                desktop_height,
                surfaces,
            },
        )
    }

    /// Read a list request from the start of a buffer.
    pub fn decode(buf: &[u8]) -> (r: Result<Self, ProtoError>)
        ensures
            match dec_list_req(buf@, 0) {
                Some(p) => r is Ok && r->Ok_0@ == p.0,
                None => r is Err && r->Err_0.wf(),
            },
    {
        let mut pos: usize = 0;
        Self::decode_from(buf, &mut pos)
    }
}

/// Reading bytes laid down as the image of `v` gives back exactly `v`.
pub proof fn lemma_dec_list_req_of_bytes(b: Seq<u8>, i: int, v: ListReqView)
    requires
        v.surfaces.len() <= 255,
        0 <= i,
        i + 9 + 16 * v.surfaces.len() <= b.len(),
        b.subrange(i, i + 9 + 16 * v.surfaces.len()) == list_req_bytes(v),
    ensures
        dec_list_req(b, i) == Some((v, i + 9 + 16 * v.surfaces.len())),
{
    let e = list_req_bytes(v);
    let n = v.surfaces.len() as int;
    lemma_defs_bytes_len(v.surfaces);
    assert forall|k: int| 0 <= k < 9 + 16 * n implies b[i + k] == e[k] by {
        assert(b.subrange(i, i + 9 + 16 * n)[k] == b[i + k]);
    }
    assert(b[i] == e[0]);
    assert(e[0] == v.subtype.code());
    lemma_message_type_code_round_trip(v.subtype);
    assert(b[i + 1] == e[1]);
    assert(e[1] == v.flags);
    assert(e[2] == u16_le(v.sequence_id)[0]);
    assert(e[3] == u16_le(v.sequence_id)[1]);
    assert(e[4] == u16_le(v.desktop_width)[0]);
    assert(e[5] == u16_le(v.desktop_width)[1]);
    assert(e[6] == u16_le(v.desktop_height)[0]);
    assert(e[7] == u16_le(v.desktop_height)[1]);
    assert(b[i + 2] == e[2]);
    assert(b[i + 3] == e[3]);
    assert(b[i + 4] == e[4]);
    assert(b[i + 5] == e[5]);
    assert(b[i + 6] == e[6]);
    assert(b[i + 7] == e[7]);
    lemma_dec_u16_of_bytes(b, i + 2, v.sequence_id);
    lemma_dec_u16_of_bytes(b, i + 4, v.desktop_width);
    lemma_dec_u16_of_bytes(b, i + 6, v.desktop_height);
    assert(b[i + 8] == e[8]);
    assert(e[8] == v.surfaces.len() as u8);
    assert((v.surfaces.len() as u8) as nat == v.surfaces.len());
    assert(b.subrange(i + 9, i + 9 + 16 * n) =~= defs_bytes(v.surfaces)) by {
        assert forall|k: int| 0 <= k < 16 * n implies b.subrange(i + 9, i + 9 + 16 * n)[k]
            == defs_bytes(v.surfaces)[k] by {
            assert(b.subrange(i + 9, i + 9 + 16 * n)[k] == b[i + (9 + k)]);
            assert(e[9 + k] == defs_bytes(v.surfaces)[k]);
        }
    }
    lemma_dec_defs_of_bytes(b, i + 9, v.surfaces);
    assert(dec_list_req(b, i) == Some((v, i + 9 + 16 * n)));
}

// --- list response ---

/// Acknowledges a list request, carrying outcome flags.
#[derive(Debug, Clone, Copy, PartialEq, Eq, Structural)]
pub struct NowSurfaceListRspMsg {
    pub subtype: SurfaceMessageType,
    pub flags: SurfaceResponseFlags,
    pub sequence_id: u16,
}

/// The four-byte wire image of a list response.
pub open spec fn list_rsp_bytes(m: NowSurfaceListRspMsg) -> Seq<u8> {
    seq![m.subtype.code(), m.flags.value] + u16_le(m.sequence_id)
}

/// What reading a list response at position `i` of `b` yields.
pub open spec fn dec_list_rsp(b: Seq<u8>, i: int) -> Option<(NowSurfaceListRspMsg, int)> {
    match dec_u8(b, i) {
        None => None,
        Some((c, i1)) => match SurfaceMessageType::spec_from_code(c) {
            None => None,
            Some(subtype) => match dec_u8(b, i1) {
                None => None,
                Some((fl, i2)) => match dec_u16(b, i2) {
                    None => None,
                    Some((sid, i3)) => Some(
                        (
                            NowSurfaceListRspMsg {
                                subtype,
                                flags: SurfaceResponseFlags { value: fl },
                                sequence_id: sid,
                            },
                            i3,
                        ),
                    ),
                },
            },
        },
    }
}

impl NowSurfaceListRspMsg {
    pub const SUBTYPE: SurfaceMessageType = SurfaceMessageType::ListRsp;

    /// A list response with the given outcome flags and sequence id.
    pub fn new(flags: SurfaceResponseFlags, sequence_id: u16) -> (r: Self)
        ensures
            r == (NowSurfaceListRspMsg {
                subtype: SurfaceMessageType::ListRsp,
                flags,
                sequence_id,
            }),
    {
        NowSurfaceListRspMsg { subtype: SurfaceMessageType::ListRsp, flags, sequence_id }
    }

    /// The exact number of bytes `encode_into` appends.
    pub fn encoded_len(&self) -> (r: usize)
        ensures
            r == list_rsp_bytes(*self).len(),
    {
        4
    }

    /// Append the four-byte wire image.
    pub fn encode_into(&self, buf: &mut Vec<u8>) -> (r: Result<(), ProtoError>)
        ensures
            r is Ok,
            final(buf)@ == old(buf)@ + list_rsp_bytes(*self),
    {
        put_u8(buf, self.subtype.to_code());
        put_u8(buf, self.flags.value);
        put_u16(buf, self.sequence_id);
        assert(buf@ =~= old(buf)@ + list_rsp_bytes(*self));
        Ok(())
    }

    /// Encode into a fresh buffer.
    pub fn encode(&self) -> (r: Result<Vec<u8>, ProtoError>)
        ensures
            r is Ok,
            r->Ok_0@ == list_rsp_bytes(*self),
    {
        let mut buf: Vec<u8> = Vec::new();
        self.encode_into(&mut buf)?;
        assert(buf@ =~= list_rsp_bytes(*self));
        Ok(buf)
    }

    /// Read a list response, advancing the position.
    pub fn decode_from(buf: &[u8], pos: &mut usize) -> (r: Result<Self, ProtoError>)
        ensures
            match dec_list_rsp(buf@, *old(pos) as int) {
                Some(p) => r is Ok && r->Ok_0 == p.0 && *final(pos) == p.1,
                None => {
                    &&& r is Err
                    &&& r->Err_0.wf()
                    &&& (r->Err_0.root_kind() is Decoding || r->Err_0.root_kind()
                        is InvalidDiscriminant)
                },
            },
    {
        let c = read_u8(buf, pos, EntityName::SurfaceListRsp)?;
        let subtype = match SurfaceMessageType::from_code(c) {
            Some(t) => t,
            None => {
                return Err(
                    ProtoError::new(
                        ProtoErrorKind::InvalidDiscriminant(
                            EntityName::SurfaceMessageType,
                            c as u16,
                        ),
                        "message-type code outside the declared set",
                    ).chain(
                        ProtoErrorKind::Decoding(EntityName::SurfaceListRsp),
                        "couldn't decode list response message",
                    ),
                );
            },
        };
        let fl = read_u8(buf, pos, EntityName::SurfaceListRsp)?;
        let sequence_id = read_u16(buf, pos, EntityName::SurfaceListRsp)?;
        Ok(NowSurfaceListRspMsg { subtype, flags: SurfaceResponseFlags { value: fl }, sequence_id })
    }
}

/// Reading four bytes laid down as the image of `m` gives back exactly `m`.
pub proof fn lemma_dec_list_rsp_of_bytes(b: Seq<u8>, i: int, m: NowSurfaceListRspMsg)
    requires
        0 <= i,
        i + 4 <= b.len(),
        b.subrange(i, i + 4) == list_rsp_bytes(m),
    ensures
        dec_list_rsp(b, i) == Some((m, i + 4)),
{
    let e = list_rsp_bytes(m);
    assert forall|k: int| 0 <= k < 4 implies b[i + k] == e[k] by {
        assert(b.subrange(i, i + 4)[k] == b[i + k]);
    }
    assert(b[i] == e[0] && e[0] == m.subtype.code());
    lemma_message_type_code_round_trip(m.subtype);
    assert(b[i + 1] == e[1] && e[1] == m.flags.value);
    assert(e[2] == u16_le(m.sequence_id)[0]);
    assert(e[3] == u16_le(m.sequence_id)[1]);
    assert(b[i + 2] == e[2]);
    assert(b[i + 3] == e[3]);
    lemma_dec_u16_of_bytes(b, i + 2, m.sequence_id);
}

// --- map request ---

/// Asks to map surfaces onto output devices.
#[derive(Debug, Clone)]
pub struct NowSurfaceMapReqMsg {
    pub subtype: SurfaceMessageType,
    pub flags: u8,
    pub sequence_id: u16,
    pub desktop_width: u16,
    pub desktop_height: u16,
    pub maps: Vec<NowSurfaceMap>,
}

/// The mathematical image of a map request: its fields with the mappings as
/// a sequence.
#[verifier::ext_equal]
pub struct MapReqView {
    pub subtype: SurfaceMessageType,
    pub flags: u8,
    pub sequence_id: u16,
    pub desktop_width: u16,
    pub desktop_height: u16,
    pub maps: Seq<NowSurfaceMap>,
}

impl View for NowSurfaceMapReqMsg {
    type V = MapReqView;

    open spec fn view(&self) -> MapReqView {
        MapReqView {
            subtype: self.subtype,
            flags: self.flags,
            sequence_id: self.sequence_id,
            desktop_width: self.desktop_width,
            desktop_height: self.desktop_height,
            maps: self.maps@,
        }
    }
}

/// The wire image of a map request: discriminant, flags, sequence id,
/// desktop width and height, then the count-prefixed mappings.
pub open spec fn map_req_bytes(v: MapReqView) -> Seq<u8> {
    seq![v.subtype.code(), v.flags] + u16_le(v.sequence_id) + u16_le(v.desktop_width) + u16_le(
        v.desktop_height,
    ) + seq![v.maps.len() as u8] + maps_bytes(v.maps)
}

/// What reading a map request at position `i` of `b` yields.
pub open spec fn dec_map_req(b: Seq<u8>, i: int) -> Option<(MapReqView, int)> {
    match dec_u8(b, i) {
        None => None,
        Some((c, i1)) => match SurfaceMessageType::spec_from_code(c) {
            None => None,
            Some(subtype) => match dec_u8(b, i1) {
                None => None,
                Some((fl, i2)) => match dec_u16(b, i2) {
                    None => None,
                    Some((sid, i3)) => match dec_u16(b, i3) {
                        None => None,
                        Some((w, i4)) => match dec_u16(b, i4) {
                            None => None,
                            Some((h, i5)) => match dec_u8(b, i5) {
                                None => None,
                                Some((count, i6)) => match dec_maps(b, i6, count as nat) {
                                    None => None,
                                    Some((maps, i7)) => Some(
                                        (
                                            MapReqView {
                                                subtype,
                                                flags: fl,
                                                sequence_id: sid,
                                                desktop_width: w,
                                                desktop_height: h,
                                                maps,
                                            },
                                            i7,
                                        ),
                                    ),
                                },
                            },
                        },
                    },
                },
            },
        },
    }
}

impl NowSurfaceMapReqMsg {
    pub const SUBTYPE: SurfaceMessageType = SurfaceMessageType::MapReq;

    /// The fixed header size before the mappings.
    pub const REQUIRED_SIZE: usize = 9;

    /// An empty map request.
    pub fn new(sequence_id: u16, desktop_width: u16, desktop_height: u16) -> (r: Self)
        ensures
            r.subtype == SurfaceMessageType::MapReq,
            r.flags == 0,
            r.sequence_id == sequence_id,
            r.desktop_width == desktop_width,
            r.desktop_height == desktop_height,
            r.maps@ =~= Seq::<NowSurfaceMap>::empty(),
    {
        Self::new_with_mappings(sequence_id, desktop_width, desktop_height, Vec::new())
    }

    /// A map request carrying the given mappings. Its discriminant field is
    /// seeded with this variant's own canonical code.
    pub fn new_with_mappings(
        sequence_id: u16,
        desktop_width: u16,
        desktop_height: u16,
        maps: Vec<NowSurfaceMap>,
    ) -> (r: Self)
        ensures
            r.subtype == SurfaceMessageType::MapReq,
            r.flags == 0,
            r.sequence_id == sequence_id,
            r.desktop_width == desktop_width,
            r.desktop_height == desktop_height,
            r.maps@ == maps@,
    {
        NowSurfaceMapReqMsg {
            subtype: SurfaceMessageType::MapReq,
            flags: 0,
            sequence_id,
            desktop_width,
            desktop_height,
            maps,
        }
    }

    /// The exact number of bytes `encode_into` would append, computed
    /// without writing.
    pub fn encoded_len(&self) -> (r: usize)
        requires
            self.maps@.len() <= 255,
        ensures
            r == map_req_bytes(self@).len(),
    {
        proof {
            lemma_maps_bytes_len(self.maps@);
        }
        9 + 16 * self.maps.len()
    }

    /// Append the wire image; a list of more than 255 mappings is refused
    /// with an encoding failure and the buffer is left untouched.
    pub fn encode_into(&self, buf: &mut Vec<u8>) -> (r: Result<(), ProtoError>)
        ensures
            self.maps@.len() <= 255 ==> {
                &&& r is Ok
                &&& final(buf)@ == old(buf)@ + map_req_bytes(self@)
            },
            self.maps@.len() > 255 ==> {
                &&& r is Err
                &&& final(buf)@ == old(buf)@
                &&& r->Err_0.wf()
                &&& r->Err_0.root_kind() == ProtoErrorKind::Encoding(EntityName::SurfaceMapReq)
            },
    {
        if self.maps.len() > 255 {
            return Err(
                ProtoError::new(
                    ProtoErrorKind::Encoding(EntityName::SurfaceMapReq),
                    "a count-prefixed collection holds at most 255 elements",
                ),
            );
        }
        put_u8(buf, self.subtype.to_code());
        put_u8(buf, self.flags);
        put_u16(buf, self.sequence_id);
        put_u16(buf, self.desktop_width);
        put_u16(buf, self.desktop_height);
        put_u8(buf, self.maps.len() as u8);
        encode_maps(&self.maps, buf);
        proof {
            assert(buf@ =~= old(buf)@ + map_req_bytes(self@));
        }
        Ok(())
    }

    /// Encode into a fresh buffer.
    pub fn encode(&self) -> (r: Result<Vec<u8>, ProtoError>)
        ensures
            self.maps@.len() <= 255 ==> r is Ok && r->Ok_0@ == map_req_bytes(self@),
            self.maps@.len() > 255 ==> {
                &&& r is Err
                &&& r->Err_0.wf()
                &&& r->Err_0.root_kind() == ProtoErrorKind::Encoding(EntityName::SurfaceMapReq)
            },
    {
        let mut buf: Vec<u8> = Vec::new();
        self.encode_into(&mut buf)?;
        assert(buf@ =~= map_req_bytes(self@));
        Ok(buf)
    }

    /// Read a map request, advancing the position.
    pub fn decode_from(buf: &[u8], pos: &mut usize) -> (r: Result<Self, ProtoError>)
        ensures
            match dec_map_req(buf@, *old(pos) as int) {
                Some(p) => r is Ok && r->Ok_0@ == p.0 && *final(pos) == p.1,
                None => {
                    &&& r is Err
                    &&& r->Err_0.wf()
                    &&& (r->Err_0.root_kind() is Decoding || r->Err_0.root_kind()
                        is InvalidDiscriminant)
                },
            },
    {
        let c = read_u8(buf, pos, EntityName::SurfaceMapReq)?;
        let subtype = match SurfaceMessageType::from_code(c) {
            Some(t) => t,
            None => {
                return Err(
                    ProtoError::new(
                        ProtoErrorKind::InvalidDiscriminant(
                            EntityName::SurfaceMessageType,
                            c as u16,
                        ),
                        "message-type code outside the declared set",
                    ).chain(
                        ProtoErrorKind::Decoding(EntityName::SurfaceMapReq),
                        "couldn't decode map request message",
                    ),
                );
            },
        };
        let flags = read_u8(buf, pos, EntityName::SurfaceMapReq)?;
        let sequence_id = read_u16(buf, pos, EntityName::SurfaceMapReq)?;
        let desktop_width = read_u16(buf, pos, EntityName::SurfaceMapReq)?;
        let desktop_height = read_u16(buf, pos, EntityName::SurfaceMapReq)?;
        let count = read_u8(buf, pos, EntityName::SurfaceMapReq)?;
        let maps = decode_maps(buf, pos, count, EntityName::SurfaceMapReq)?;
        Ok(
            NowSurfaceMapReqMsg {
                subtype,
                flags,
                sequence_id,
                desktop_width,
                desktop_height,
                maps,
            },
        )
    }
}

/// Reading bytes laid down as the image of `v` gives back exactly `v`.
pub proof fn lemma_dec_map_req_of_bytes(b: Seq<u8>, i: int, v: MapReqView)
    requires
        v.maps.len() <= 255,
        0 <= i,
        i + 9 + 16 * v.maps.len() <= b.len(),
        b.subrange(i, i + 9 + 16 * v.maps.len()) == map_req_bytes(v),
    ensures
        dec_map_req(b, i) == Some((v, i + 9 + 16 * v.maps.len())),
{
    let e = map_req_bytes(v);
    let n = v.maps.len() as int;
    lemma_maps_bytes_len(v.maps);
    assert forall|k: int| 0 <= k < 9 + 16 * n implies b[i + k] == e[k] by {
        assert(b.subrange(i, i + 9 + 16 * n)[k] == b[i + k]);
    }
    assert(b[i] == e[0]);
    assert(e[0] == v.subtype.code());
    lemma_message_type_code_round_trip(v.subtype);
    assert(b[i + 1] == e[1]);
    assert(e[1] == v.flags);
    assert(e[2] == u16_le(v.sequence_id)[0]);
    assert(e[3] == u16_le(v.sequence_id)[1]);
    assert(e[4] == u16_le(v.desktop_width)[0]);
    assert(e[5] == u16_le(v.desktop_width)[1]);
    assert(e[6] == u16_le(v.desktop_height)[0]);
    assert(e[7] == u16_le(v.desktop_height)[1]);
    assert(b[i + 2] == e[2]);
    assert(b[i + 3] == e[3]);
    assert(b[i + 4] == e[4]);
    assert(b[i + 5] == e[5]);
    assert(b[i + 6] == e[6]);
    assert(b[i + 7] == e[7]);
    lemma_dec_u16_of_bytes(b, i + 2, v.sequence_id);
    lemma_dec_u16_of_bytes(b, i + 4, v.desktop_width);
    lemma_dec_u16_of_bytes(b, i + 6, v.desktop_height);
    assert(b[i + 8] == e[8]);
    assert(e[8] == v.maps.len() as u8);
    assert((v.maps.len() as u8) as nat == v.maps.len());
    assert(b.subrange(i + 9, i + 9 + 16 * n) =~= maps_bytes(v.maps)) by {
        assert forall|k: int| 0 <= k < 16 * n implies b.subrange(i + 9, i + 9 + 16 * n)[k]
            == maps_bytes(v.maps)[k] by {
            assert(b.subrange(i + 9, i + 9 + 16 * n)[k] == b[i + (9 + k)]);
            assert(e[9 + k] == maps_bytes(v.maps)[k]);
        }
    }
    lemma_dec_maps_of_bytes(b, i + 9, v.maps);
    assert(dec_map_req(b, i) == Some((v, i + 9 + 16 * n)));
}

// --- map response ---

/// Acknowledges a map request, carrying outcome flags.
#[derive(Debug, Clone, Copy, PartialEq, Eq, Structural)]
pub struct NowSurfaceMapRspMsg {
    pub subtype: SurfaceMessageType,
    pub flags: SurfaceResponseFlags,
    pub sequence_id: u16,
}

/// The four-byte wire image of a map response.
pub open spec fn map_rsp_bytes(m: NowSurfaceMapRspMsg) -> Seq<u8> {
    seq![m.subtype.code(), m.flags.value] + u16_le(m.sequence_id)
}

/// What reading a map response at position `i` of `b` yields.
pub open spec fn dec_map_rsp(b: Seq<u8>, i: int) -> Option<(NowSurfaceMapRspMsg, int)> {
    match dec_u8(b, i) {
        None => None,
        Some((c, i1)) => match SurfaceMessageType::spec_from_code(c) {
            None => None,
            Some(subtype) => match dec_u8(b, i1) {
                None => None,
                Some((fl, i2)) => match dec_u16(b, i2) {
                    None => None,
                    Some((sid, i3)) => Some(
                        (
                            NowSurfaceMapRspMsg {
                                subtype,
                                flags: SurfaceResponseFlags { value: fl },
                                sequence_id: sid,
                            },
                            i3,
                        ),
                    ),
                },
            },
        },
    }
}

impl NowSurfaceMapRspMsg {
    pub const SUBTYPE: SurfaceMessageType = SurfaceMessageType::MapRsp;

    /// A map response with the given outcome flags and sequence id.
    pub fn new(flags: SurfaceResponseFlags, sequence_id: u16) -> (r: Self)
        ensures
            r == (NowSurfaceMapRspMsg {
                subtype: SurfaceMessageType::MapRsp,
                flags,
                sequence_id,
            }),
    {
        NowSurfaceMapRspMsg { subtype: SurfaceMessageType::MapRsp, flags, sequence_id }
    }

    /// The exact number of bytes `encode_into` appends.
    pub fn encoded_len(&self) -> (r: usize)
        ensures
            r == map_rsp_bytes(*self).len(),
    {
        4
    }

    /// Append the four-byte wire image.
    pub fn encode_into(&self, buf: &mut Vec<u8>) -> (r: Result<(), ProtoError>)
        ensures
            r is Ok,
            final(buf)@ == old(buf)@ + map_rsp_bytes(*self),
    {
        put_u8(buf, self.subtype.to_code());
        put_u8(buf, self.flags.value);
        put_u16(buf, self.sequence_id);
        assert(buf@ =~= old(buf)@ + map_rsp_bytes(*self));
        Ok(())
    }

    /// Encode into a fresh buffer.
    pub fn encode(&self) -> (r: Result<Vec<u8>, ProtoError>)
        ensures
            r is Ok,
            r->Ok_0@ == map_rsp_bytes(*self),
    {
        let mut buf: Vec<u8> = Vec::new();
        self.encode_into(&mut buf)?;
        assert(buf@ =~= map_rsp_bytes(*self));
        Ok(buf)
    }

    /// Read a map response, advancing the position.
    pub fn decode_from(buf: &[u8], pos: &mut usize) -> (r: Result<Self, ProtoError>)
        ensures
            match dec_map_rsp(buf@, *old(pos) as int) {
                Some(p) => r is Ok && r->Ok_0 == p.0 && *final(pos) == p.1,
                None => {
                    &&& r is Err
                    &&& r->Err_0.wf()
                    &&& (r->Err_0.root_kind() is Decoding || r->Err_0.root_kind()
                        is InvalidDiscriminant)
                },
            },
    {
        let c = read_u8(buf, pos, EntityName::SurfaceMapRsp)?;
        let subtype = match SurfaceMessageType::from_code(c) {
            Some(t) => t,
            None => {
                return Err(
                    ProtoError::new(
                        ProtoErrorKind::InvalidDiscriminant(
                            EntityName::SurfaceMessageType,
                            c as u16,
                        ),
                        "message-type code outside the declared set",
                    ).chain(
                        ProtoErrorKind::Decoding(EntityName::SurfaceMapRsp),
                        "couldn't decode map response message",
                    ),
                );
            },
        };
        let fl = read_u8(buf, pos, EntityName::SurfaceMapRsp)?;
        let sequence_id = read_u16(buf, pos, EntityName::SurfaceMapRsp)?;
        Ok(NowSurfaceMapRspMsg { subtype, flags: SurfaceResponseFlags { value: fl }, sequence_id })
    }
}

/// Reading four bytes laid down as the image of `m` gives back exactly `m`.
pub proof fn lemma_dec_map_rsp_of_bytes(b: Seq<u8>, i: int, m: NowSurfaceMapRspMsg)
    requires
        0 <= i,
        i + 4 <= b.len(),
        b.subrange(i, i + 4) == map_rsp_bytes(m),
    ensures
        dec_map_rsp(b, i) == Some((m, i + 4)),
{
    let e = map_rsp_bytes(m);
    assert forall|k: int| 0 <= k < 4 implies b[i + k] == e[k] by {
        assert(b.subrange(i, i + 4)[k] == b[i + k]);
    }
    assert(b[i] == e[0] && e[0] == m.subtype.code());
    lemma_message_type_code_round_trip(m.subtype);
    assert(b[i + 1] == e[1] && e[1] == m.flags.value);
    assert(e[2] == u16_le(m.sequence_id)[0]);
    assert(e[3] == u16_le(m.sequence_id)[1]);
    assert(b[i + 2] == e[2]);
    assert(b[i + 3] == e[3]);
    lemma_dec_u16_of_bytes(b, i + 2, m.sequence_id);
}

// --- select request ---

/// Asks to select one surface, with a reserved field kept on the wire.
#[derive(Debug, Clone, Copy, PartialEq, Eq, Structural)]
pub struct NowSurfaceSelectReqMsg {
    pub subtype: SurfaceMessageType,
    pub flags: u8,
    pub sequence_id: u16,
    pub reserved: u16,
    pub surface_id: u16,
}

/// The eight-byte wire image of a select request.
pub open spec fn select_req_bytes(m: NowSurfaceSelectReqMsg) -> Seq<u8> {
    seq![m.subtype.code(), m.flags] + u16_le(m.sequence_id) + u16_le(m.reserved) + u16_le(
        m.surface_id,
    )
}

/// What reading a select request at position `i` of `b` yields.
pub open spec fn dec_select_req(b: Seq<u8>, i: int) -> Option<(NowSurfaceSelectReqMsg, int)> {
    match dec_u8(b, i) {
        None => None,
        Some((c, i1)) => match SurfaceMessageType::spec_from_code(c) {
            None => None,
            Some(subtype) => match dec_u8(b, i1) {
                None => None,
                Some((fl, i2)) => match dec_u16(b, i2) {
                    None => None,
                    Some((sid, i3)) => match dec_u16(b, i3) {
                        None => None,
                        Some((res, i4)) => match dec_u16(b, i4) {
                            None => None,
                            Some((surf, i5)) => Some(
                                (
                                    NowSurfaceSelectReqMsg {
                                        subtype,
                                        flags: fl,
                                        sequence_id: sid,
                                        reserved: res,
                                        surface_id: surf,
                                    },
                                    i5,
                                ),
                            ),
                        },
                    },
                },
            },
        },
    }
}

impl NowSurfaceSelectReqMsg {
    pub const SUBTYPE: SurfaceMessageType = SurfaceMessageType::SelectReq;

    /// A select request for one surface; the reserved field is zero.
    pub fn new(flags: u8, sequence_id: u16, surface_id: u16) -> (r: Self)
        ensures
            r == (NowSurfaceSelectReqMsg {
                subtype: SurfaceMessageType::SelectReq,
                flags,
                sequence_id,
                reserved: 0,
                surface_id,
            }),
    {
        NowSurfaceSelectReqMsg {
            subtype: SurfaceMessageType::SelectReq,
            flags,
            sequence_id,
            reserved: 0,
            surface_id,
        }
    }

    /// The exact number of bytes `encode_into` appends.
    pub fn encoded_len(&self) -> (r: usize)
        ensures
            r == select_req_bytes(*self).len(),
    {
        8
    }

    /// Append the eight-byte wire image.
    pub fn encode_into(&self, buf: &mut Vec<u8>) -> (r: Result<(), ProtoError>)
        ensures
            r is Ok,
            final(buf)@ == old(buf)@ + select_req_bytes(*self),
    {
        put_u8(buf, self.subtype.to_code());
        put_u8(buf, self.flags);
        put_u16(buf, self.sequence_id);
        put_u16(buf, self.reserved);
        put_u16(buf, self.surface_id);
        assert(buf@ =~= old(buf)@ + select_req_bytes(*self));
        Ok(())
    }

    /// Encode into a fresh buffer.
    pub fn encode(&self) -> (r: Result<Vec<u8>, ProtoError>)
        ensures
            r is Ok,
            r->Ok_0@ == select_req_bytes(*self),
    {
        let mut buf: Vec<u8> = Vec::new();
        self.encode_into(&mut buf)?;
        assert(buf@ =~= select_req_bytes(*self));
        Ok(buf)
    }

    /// Read a select request, advancing the position.
    pub fn decode_from(buf: &[u8], pos: &mut usize) -> (r: Result<Self, ProtoError>)
        ensures
            match dec_select_req(buf@, *old(pos) as int) {
                Some(p) => r is Ok && r->Ok_0 == p.0 && *final(pos) == p.1,
                None => {
                    &&& r is Err
                    &&& r->Err_0.wf()
                    &&& (r->Err_0.root_kind() is Decoding || r->Err_0.root_kind()
                        is InvalidDiscriminant)
                },
            },
    {
        let c = read_u8(buf, pos, EntityName::SurfaceSelectReq)?;
        let subtype = match SurfaceMessageType::from_code(c) {
            Some(t) => t,
            None => {
                return Err(
                    ProtoError::new(
                        ProtoErrorKind::InvalidDiscriminant(
                            EntityName::SurfaceMessageType,
                            c as u16,
                        ),
                        "message-type code outside the declared set",
                    ).chain(
                        ProtoErrorKind::Decoding(EntityName::SurfaceSelectReq),
                        "couldn't decode select request message",
                    ),
                );
            },
        };
        let flags = read_u8(buf, pos, EntityName::SurfaceSelectReq)?;
        let sequence_id = read_u16(buf, pos, EntityName::SurfaceSelectReq)?;
        let reserved = read_u16(buf, pos, EntityName::SurfaceSelectReq)?;
        let surface_id = read_u16(buf, pos, EntityName::SurfaceSelectReq)?;
        Ok(NowSurfaceSelectReqMsg { subtype, flags, sequence_id, reserved, surface_id })
    }
}

/// Reading eight bytes laid down as the image of `m` gives back exactly `m`.
pub proof fn lemma_dec_select_req_of_bytes(b: Seq<u8>, i: int, m: NowSurfaceSelectReqMsg)
    requires
        0 <= i,
        i + 8 <= b.len(),
        b.subrange(i, i + 8) == select_req_bytes(m),
    ensures
        dec_select_req(b, i) == Some((m, i + 8)),
{
    let e = select_req_bytes(m);
    assert forall|k: int| 0 <= k < 8 implies b[i + k] == e[k] by {
        assert(b.subrange(i, i + 8)[k] == b[i + k]);
    }
    assert(b[i] == e[0] && e[0] == m.subtype.code());
    lemma_message_type_code_round_trip(m.subtype);
    assert(b[i + 1] == e[1] && e[1] == m.flags);
    assert(e[2] == u16_le(m.sequence_id)[0]);
    assert(e[3] == u16_le(m.sequence_id)[1]);
    assert(e[4] == u16_le(m.reserved)[0]);
    assert(e[5] == u16_le(m.reserved)[1]);
    assert(e[6] == u16_le(m.surface_id)[0]);
    assert(e[7] == u16_le(m.surface_id)[1]);
    assert(b[i + 2] == e[2]);
    assert(b[i + 3] == e[3]);
    assert(b[i + 4] == e[4]);
    assert(b[i + 5] == e[5]);
    assert(b[i + 6] == e[6]);
    assert(b[i + 7] == e[7]);
    lemma_dec_u16_of_bytes(b, i + 2, m.sequence_id);
    lemma_dec_u16_of_bytes(b, i + 4, m.reserved);
    lemma_dec_u16_of_bytes(b, i + 6, m.surface_id);
}

// --- select response ---

/// Acknowledges a select request, carrying outcome flags.
#[derive(Debug, Clone, Copy, PartialEq, Eq, Structural)]
pub struct NowSurfaceSelectRspMsg {
    pub subtype: SurfaceMessageType,
    pub flags: SurfaceResponseFlags,
    pub sequence_id: u16,
}

/// The four-byte wire image of a select response.
pub open spec fn select_rsp_bytes(m: NowSurfaceSelectRspMsg) -> Seq<u8> {
    seq![m.subtype.code(), m.flags.value] + u16_le(m.sequence_id)
}

/// What reading a select response at position `i` of `b` yields.
pub open spec fn dec_select_rsp(b: Seq<u8>, i: int) -> Option<(NowSurfaceSelectRspMsg, int)> {
    match dec_u8(b, i) {
        None => None,
        Some((c, i1)) => match SurfaceMessageType::spec_from_code(c) {
            None => None,
            Some(subtype) => match dec_u8(b, i1) {
                None => None,
                Some((fl, i2)) => match dec_u16(b, i2) {
                    None => None,
                    Some((sid, i3)) => Some(
                        (
                            NowSurfaceSelectRspMsg {
                                subtype,
                                flags: SurfaceResponseFlags { value: fl },
                                sequence_id: sid,
                            },
                            i3,
                        ),
                    ),
                },
            },
        },
    }
}

impl NowSurfaceSelectRspMsg {
    pub const SUBTYPE: SurfaceMessageType = SurfaceMessageType::SelectRsp;

    /// A select response with the given outcome flags and sequence id.
    pub fn new(flags: SurfaceResponseFlags, sequence_id: u16) -> (r: Self)
        ensures
            r == (NowSurfaceSelectRspMsg {
                subtype: SurfaceMessageType::SelectRsp,
                flags,
                sequence_id,
            }),
    {
        NowSurfaceSelectRspMsg { subtype: SurfaceMessageType::SelectRsp, flags, sequence_id }
    }

    /// The exact number of bytes `encode_into` appends.
    pub fn encoded_len(&self) -> (r: usize)
        ensures
            r == select_rsp_bytes(*self).len(),
    {
        4
    }

    /// Append the four-byte wire image.
    pub fn encode_into(&self, buf: &mut Vec<u8>) -> (r: Result<(), ProtoError>)
        ensures
            r is Ok,
            final(buf)@ == old(buf)@ + select_rsp_bytes(*self),
    {
        put_u8(buf, self.subtype.to_code());
        put_u8(buf, self.flags.value);
        put_u16(buf, self.sequence_id);
        assert(buf@ =~= old(buf)@ + select_rsp_bytes(*self));
        Ok(())
    }

    /// Encode into a fresh buffer.
    pub fn encode(&self) -> (r: Result<Vec<u8>, ProtoError>)
        ensures
            r is Ok,
            r->Ok_0@ == select_rsp_bytes(*self),
    {
        let mut buf: Vec<u8> = Vec::new();
        self.encode_into(&mut buf)?;
        assert(buf@ =~= select_rsp_bytes(*self));
        Ok(buf)
    }

    /// Read a select response, advancing the position.
    pub fn decode_from(buf: &[u8], pos: &mut usize) -> (r: Result<Self, ProtoError>)
        ensures
            match dec_select_rsp(buf@, *old(pos) as int) {
                Some(p) => r is Ok && r->Ok_0 == p.0 && *final(pos) == p.1,
                None => {
                    &&& r is Err
                    &&& r->Err_0.wf()
                    &&& (r->Err_0.root_kind() is Decoding || r->Err_0.root_kind()
                        is InvalidDiscriminant)
                },
            },
    {
        let c = read_u8(buf, pos, EntityName::SurfaceSelectRsp)?;
        let subtype = match SurfaceMessageType::from_code(c) {
            Some(t) => t,
            None => {
                return Err(
                    ProtoError::new(
                        ProtoErrorKind::InvalidDiscriminant(
                            EntityName::SurfaceMessageType,
                            c as u16,
                        ),
                        "message-type code outside the declared set",
                    ).chain(
                        ProtoErrorKind::Decoding(EntityName::SurfaceSelectRsp),
                        "couldn't decode select response message",
                    ),
                );
            },
        };
        let fl = read_u8(buf, pos, EntityName::SurfaceSelectRsp)?;
        let sequence_id = read_u16(buf, pos, EntityName::SurfaceSelectRsp)?;
        Ok(
            NowSurfaceSelectRspMsg {
                subtype,
                flags: SurfaceResponseFlags { value: fl },
                sequence_id,
            },
        )
    }
}

/// Reading four bytes laid down as the image of `m` gives back exactly `m`.
pub proof fn lemma_dec_select_rsp_of_bytes(b: Seq<u8>, i: int, m: NowSurfaceSelectRspMsg)
    requires
        0 <= i,
        i + 4 <= b.len(),
        b.subrange(i, i + 4) == select_rsp_bytes(m),
    ensures
        dec_select_rsp(b, i) == Some((m, i + 4)),
{
    let e = select_rsp_bytes(m);
    assert forall|k: int| 0 <= k < 4 implies b[i + k] == e[k] by {
        assert(b.subrange(i, i + 4)[k] == b[i + k]);
    }
    assert(b[i] == e[0] && e[0] == m.subtype.code());
    lemma_message_type_code_round_trip(m.subtype);
    assert(b[i + 1] == e[1] && e[1] == m.flags.value);
    assert(e[2] == u16_le(m.sequence_id)[0]);
    assert(e[3] == u16_le(m.sequence_id)[1]);
    assert(b[i + 2] == e[2]);
    assert(b[i + 3] == e[3]);
    lemma_dec_u16_of_bytes(b, i + 2, m.sequence_id);
}

} // verus!
